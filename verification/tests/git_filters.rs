use dodot::git_filters::{
    cfprefsd_hint, config_block_text, config_set_outcome, detect_plist_files, gitattributes_hint,
    gitattributes_line_matches, gitattributes_lines, install_filters, is_installed, show_filters,
    GitError, GitRun, PackScan,
};
use dodot::git_filters::{filter_writes, plist_extensions};

#[test]
fn config_block_has_required_key() {
    let block = config_block_text();
    assert!(block.contains("[filter \"dodot-plist\"]"));
    assert!(block.contains("clean  = dodot plist clean"));
    assert!(block.contains("smudge = dodot plist smudge"));
    assert!(block.contains("required = true"));
}

#[test]
fn gitattributes_recogniser_handles_whitespace_and_comments() {
    let expected = "*.plist filter=dodot-plist";
    assert!(gitattributes_line_matches("*.plist filter=dodot-plist", expected));
    assert!(gitattributes_line_matches("  *.plist   filter=dodot-plist  ", expected));
    assert!(gitattributes_line_matches("*.plist filter=dodot-plist diff=plist", expected));
    assert!(gitattributes_line_matches("*.plist filter=dodot-plist  # plist filter", expected));

    assert!(!gitattributes_line_matches("", expected));
    assert!(!gitattributes_line_matches("# commented out", expected));
    assert!(!gitattributes_line_matches("*.plist filter=other", expected));
    assert!(!gitattributes_line_matches("*.txt filter=dodot-plist", expected));
}

#[test]
fn gitattributes_lines_emits_one_per_extension() {
    let lines = gitattributes_lines(&["plist".to_string()]);
    assert_eq!(lines, vec!["*.plist filter=dodot-plist"]);

    let lines = gitattributes_lines(&[
        "plist".to_string(),
        "binplist".to_string(),
        "savedState".to_string(),
    ]);
    assert_eq!(
        lines,
        vec![
            "*.plist filter=dodot-plist",
            "*.binplist filter=dodot-plist",
            "*.savedState filter=dodot-plist",
        ]
    );
}

fn scan(path: &str, exts: &[&str], files: &[&str]) -> PackScan {
    PackScan {
        path: path.to_string(),
        extensions: exts.iter().map(|s| s.to_string()).collect(),
        files: files.iter().map(|s| s.to_string()).collect(),
    }
}

#[test]
fn detect_plist_files_finds_plists_in_packs() {
    let packs = vec![
        scan("/dots/mac-defaults", &["plist"], &["com.app.plist", "README.md"]),
        scan("/dots/nvim", &["plist"], &["init.lua"]),
        scan("/dots/system-prefs", &["plist"], &["nested/com.other.plist"]),
    ];
    let found = detect_plist_files(&packs);
    assert_eq!(found.len(), 2, "expected 2 plists, got: {found:?}");
    assert!(found.contains(&"/dots/mac-defaults/com.app.plist".to_string()));
    assert!(found.contains(&"/dots/system-prefs/nested/com.other.plist".to_string()));
}

#[test]
fn detect_plist_files_honors_custom_extension() {
    let packs = vec![scan(
        "/dots/apps",
        &["plist", "binplist"],
        &["com.app.plist", "com.other.binplist", "README.md"],
    )];
    let found = detect_plist_files(&packs);
    assert!(found.contains(&"/dots/apps/com.app.plist".to_string()));
    assert!(found.contains(&"/dots/apps/com.other.binplist".to_string()));
    assert!(!found.iter().any(|n| n.ends_with(".md")));
}

#[test]
fn detect_plist_files_skips_dot_directories_and_ignores_case() {
    let packs = vec![scan(
        "/dots/apps",
        &["plist"],
        &[".git/objects/x.plist", "sub/.hidden/y.plist", "Upper.PLIST", ".z.plist"],
    )];
    let found = detect_plist_files(&packs);
    assert_eq!(
        found,
        vec!["/dots/apps/Upper.PLIST".to_string(), "/dots/apps/.z.plist".to_string()]
    );
}

#[test]
fn is_installed_reads_the_git_outcome() {
    let ok = GitRun::Exited { exit_code: 0, stdout: "dodot plist clean\n".into(), stderr: String::new() };
    assert_eq!(is_installed(&ok).unwrap(), true);
    let empty = GitRun::Exited { exit_code: 0, stdout: "  \n".into(), stderr: String::new() };
    assert_eq!(is_installed(&empty).unwrap(), false);
    let missing = GitRun::CommandFailed { command: "git".into(), exit_code: 1, stderr: String::new() };
    assert_eq!(is_installed(&missing).unwrap(), false);
    let no_repo = GitRun::CommandFailed {
        command: "git".into(),
        exit_code: 128,
        stderr: "fatal: not a git repository (or any parent)".into(),
    };
    assert_eq!(is_installed(&no_repo).unwrap(), false);
    let broken = GitRun::CommandFailed { command: "git".into(), exit_code: 2, stderr: "boom".into() };
    match is_installed(&broken) {
        Err(GitError::CommandFailed { exit_code, stderr, .. }) => {
            assert_eq!(exit_code, 2);
            assert_eq!(stderr, "boom");
        }
        other => panic!("expected a command failure, got {other:?}"),
    }
    assert!(matches!(
        is_installed(&GitRun::Other { message: "git missing".into() }),
        Err(GitError::Other { .. })
    ));
}

#[test]
fn config_set_reports_the_command_on_failure() {
    let ok = GitRun::Exited { exit_code: 0, stdout: String::new(), stderr: String::new() };
    assert!(config_set_outcome("/dots", "filter.dodot-plist.clean", "dodot plist clean", &ok).is_ok());
    let bad = GitRun::Exited { exit_code: 3, stdout: String::new(), stderr: "locked".into() };
    match config_set_outcome("/dots", "filter.dodot-plist.required", "true", &bad) {
        Err(GitError::CommandFailed { command, exit_code, stderr }) => {
            assert_eq!(command, "git -C /dots config filter.dodot-plist.required true");
            assert_eq!(exit_code, 3);
            assert_eq!(stderr, "locked");
        }
        other => panic!("expected a command failure, got {other:?}"),
    }
}

#[test]
fn hint_lists_only_missing_bindings() {
    let exts = vec!["plist".to_string(), "binplist".to_string()];
    let none_bound = gitattributes_hint(&exts, "");
    assert_eq!(
        none_bound,
        vec![
            "".to_string(),
            "Next: ensure your .gitattributes binds 2 extensions to this filter:".to_string(),
            "    echo '*.plist filter=dodot-plist' >> .gitattributes".to_string(),
            "    echo '*.binplist filter=dodot-plist' >> .gitattributes".to_string(),
            "    git add .gitattributes && git commit -m 'enable plist filters'".to_string(),
        ]
    );
    let one_bound = gitattributes_hint(&exts, "*.plist filter=dodot-plist\n");
    assert_eq!(one_bound[1], "Next: ensure your .gitattributes binds *.plist to this filter:");
    assert_eq!(one_bound[2], "    echo '*.binplist filter=dodot-plist' >> .gitattributes");
    let all_bound =
        gitattributes_hint(&exts, "*.plist filter=dodot-plist\n*.binplist filter=dodot-plist\n");
    assert!(all_bound.is_empty());
}

#[test]
fn install_filters_reports_already_installed_and_fresh_install() {
    let exts = Some(vec!["plist".to_string()]);
    let bound = "*.plist filter=dodot-plist\n";
    let already = install_filters("/dots", true, &exts, bound, true);
    assert_eq!(already.message, "Plist filters already installed in .git/config.");
    assert!(already.details.is_empty());

    let fresh = install_filters("/dots", false, &exts, bound, false);
    assert_eq!(fresh.message, "Installed plist clean/smudge filters.");
    assert_eq!(fresh.details, vec!["Wrote [filter \"dodot-plist\"] to /dots/.git/config".to_string()]);

    let mac = install_filters("/dots", false, &None, "", true);
    assert_eq!(mac.details.len(), 1 + cfprefsd_hint(true).len());
    assert_eq!(mac.details[4], "    killall cfprefsd");
    assert!(cfprefsd_hint(false).is_empty());
}

#[test]
fn show_filters_reports_binding_state() {
    let exts = vec!["plist".to_string(), "binplist".to_string()];
    let partial = show_filters("/dots", true, &exts, "*.plist filter=dodot-plist\n");
    assert!(partial.installed_in_git_config);
    assert!(!partial.bound_in_gitattributes);
    assert_eq!(partial.config_block_lines.len(), 4);
    assert_eq!(partial.config_block, config_block_text());
    assert_eq!(partial.repo_root, "/dots");
    let full = show_filters(
        "/dots",
        false,
        &exts,
        "*.plist filter=dodot-plist\r\n*.binplist   filter=dodot-plist diff=plist\n",
    );
    assert!(full.bound_in_gitattributes);
    let nothing = show_filters("/dots", false, &[], "");
    assert!(!nothing.bound_in_gitattributes);
}

#[test]
fn installed_filters_need_no_git_writes() {
    assert!(filter_writes(true).is_empty());
    let w = filter_writes(false);
    let keys: Vec<&str> = w.iter().map(|(k, _)| k.as_str()).collect();
    assert_eq!(
        keys,
        vec!["filter.dodot-plist.clean", "filter.dodot-plist.smudge", "filter.dodot-plist.required"]
    );
    assert_eq!(w[2].1, "true");
}

#[test]
fn plist_extensions_default_to_plist() {
    assert_eq!(plist_extensions(None), vec!["plist".to_string()]);
    assert_eq!(plist_extensions(Some(vec!["xml".into()])), vec!["xml".to_string()]);
}
