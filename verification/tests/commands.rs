use dodot::commands::{addignore, fill, fill_writes, genconfig, init, init_config, list, CommandError};

#[test]
fn fill_creates_template_files() {
    let result = fill("vim", true, &[false, false, false]).unwrap();
    assert!(result.message.contains("3 template"));
    let writes = fill_writes("vim", &[false, false, false]);
    let names: Vec<&str> = writes.iter().map(|w| w.filename.as_str()).collect();
    assert_eq!(names, vec!["install.sh", "aliases.sh", "Brewfile"]);
    let install = &writes[0];
    assert!(install.content.contains("vim"), "should contain pack name");
    assert!(!install.content.contains("PACK_NAME"), "should replace placeholder");
}

#[test]
fn fill_skips_existing_files() {
    let result = fill("vim", true, &[true, false, false]).unwrap();
    assert!(result.message.contains("2 template"));
    assert!(result
        .details
        .iter()
        .any(|d| d.contains("install.sh") && d.contains("skipped")));
    let writes = fill_writes("vim", &[true, false, false]);
    assert!(writes.iter().all(|w| w.filename != "install.sh"));
}

#[test]
fn fill_all_existing_reports_correctly() {
    let result = fill("vim", true, &[true, true, true]).unwrap();
    assert!(result.message.contains("already has all"));
    assert!(fill_writes("vim", &[true, true, true]).is_empty());
}

#[test]
fn fill_nonexistent_pack_errors() {
    let err = fill("nonexistent", false, &[false, false, false]).unwrap_err();
    assert!(matches!(err, CommandError::PackNotFound { .. }));
}

#[test]
fn fill_messages_and_details_are_exact() {
    let result = fill("zsh", true, &[false, true, false]).unwrap();
    assert_eq!(result.message, "Added 2 template file(s) to 'zsh'.");
    assert_eq!(
        result.details,
        vec![
            "  install.sh (created)".to_string(),
            "  aliases.sh (exists, skipped)".to_string(),
            "  Brewfile (created)".to_string(),
        ]
    );
    let all = fill("zsh", true, &[true, true, true]).unwrap();
    assert_eq!(all.message, "Pack 'zsh' already has all template files.");
}

#[test]
fn fill_writes_mark_only_shell_scripts_executable() {
    let writes = fill_writes("git", &[false, false, false]);
    assert!(writes[0].executable);
    assert!(writes[1].executable);
    assert!(!writes[2].executable);
    assert!(writes[0].content.starts_with("#!/usr/bin/env bash\n# Install script for git\n"));
    assert!(writes[2].content.starts_with("# Homebrew dependencies for git\n"));
}

#[test]
fn addignore_reports_created_marker_and_deployment_warning() {
    let r = addignore("010-nvim", "/dots/010-nvim/.dodotignore", false, true);
    assert_eq!(r.message, "Pack 'nvim' marked as ignored.");
    assert_eq!(
        r.details,
        vec![
            "Created /dots/010-nvim/.dodotignore".to_string(),
            "Warning: pack 'nvim' is currently deployed. Run 'dodot down nvim' to clean up."
                .to_string(),
        ]
    );
    let again = addignore("010-nvim", "/dots/010-nvim/.dodotignore", true, true);
    assert_eq!(again.message, "Pack 'nvim' is already ignored.");
    assert!(again.details.is_empty());
}

#[test]
fn genconfig_writes_message_only_when_written() {
    let shown = genconfig(false, "/dots/.dodot.toml");
    assert!(shown.message.is_none());
    assert!(shown.content.starts_with("# dodot configuration\n"));
    let written = genconfig(true, "/dots/.dodot.toml");
    assert_eq!(written.message.as_deref(), Some("Config written to /dots/.dodot.toml"));
    assert_eq!(written.content, shown.content);
}

#[test]
fn init_refuses_an_existing_directory() {
    let err = init("vim", "/dots/vim", true).unwrap_err();
    assert_eq!(
        err,
        CommandError::PackInvalid {
            name: "vim".to_string(),
            reason: "directory already exists".to_string()
        }
    );
    let ok = init("vim", "/dots/vim", false).unwrap();
    assert_eq!(ok.message, "Pack 'vim' initialized.");
    assert_eq!(
        ok.details,
        vec!["Created /dots/vim".to_string(), "Created /dots/vim/.dodot.toml".to_string()]
    );
    assert!(init_config("vim").starts_with("# dodot configuration for vim\n"));
}

#[test]
fn list_orders_by_directory_name_and_marks_ignored() {
    let packs = vec![
        ("020-zsh".to_string(), "zsh".to_string()),
        ("010-nvim".to_string(), "nvim".to_string()),
    ];
    let ignored = vec!["015-old".to_string()];
    let r = list(&packs, &ignored);
    let got: Vec<(&str, bool)> = r.packs.iter().map(|p| (p.name.as_str(), p.ignored)).collect();
    assert_eq!(got, vec![("nvim", false), ("old", true), ("zsh", false)]);
}

fn root_dirs(entries: &[(&str, bool)]) -> Vec<dodot::commands::RootDir> {
    entries
        .iter()
        .map(|(n, m)| dodot::commands::RootDir { name: n.to_string(), marked: *m })
        .collect()
}

#[test]
fn list_surfaces_an_empty_stem_directory() {
    let r = dodot::commands::list_root(&root_dirs(&[("git", false), ("010-", false)]), &[]);
    assert_eq!(
        r.unwrap_err(),
        "pack directory `010-` reads as an ordering prefix with no name after the separator; rename it"
    );
}

#[test]
fn list_surfaces_an_ordering_collision() {
    let r = dodot::commands::list_root(&root_dirs(&[("010-nvim", false), ("nvim", false)]), &[]);
    assert_eq!(
        r.unwrap_err(),
        "packs `010-nvim` and `nvim` both read as `nvim`, so their order is ambiguous; rename one of them"
    );
}

#[test]
fn list_root_lists_active_and_ignored_in_apply_order() {
    let r = dodot::commands::list_root(
        &root_dirs(&[("zsh", false), (".git", false), ("010-nvim", false), ("old", true)]),
        &[],
    )
    .unwrap();
    let got: Vec<(String, bool)> = r.packs.iter().map(|p| (p.name.clone(), p.ignored)).collect();
    assert_eq!(
        got,
        vec![("nvim".to_string(), false), ("old".to_string(), true), ("zsh".to_string(), false)]
    );
}
