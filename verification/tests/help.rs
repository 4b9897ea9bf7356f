use dodot::help::{detect_help_request, help_key_list, help_page, help_path, lookup, HelpArg};
use dodot::safety::{command_sensitivity, RootSensitivity};

fn argv(words: &[&str]) -> Vec<HelpArg> {
    words.iter().map(|w| HelpArg { text: w.to_string(), unicode: true }).collect()
}

#[test]
fn detects_top_level_help() {
    assert_eq!(detect_help_request(&argv(&["dodot", "--help"])), Some(String::new()));
    assert_eq!(detect_help_request(&argv(&["dodot", "-h"])), Some(String::new()));
    assert_eq!(detect_help_request(&argv(&["dodot", "help"])), Some(String::new()));
}

#[test]
fn detects_subcommand_help() {
    assert_eq!(detect_help_request(&argv(&["dodot", "up", "--help"])), Some("up".into()));
    assert_eq!(detect_help_request(&argv(&["dodot", "help", "up"])), Some("up".into()));
    assert_eq!(
        detect_help_request(&argv(&["dodot", "probe", "shell-init", "--help"])),
        Some("probe.shell-init".into())
    );
    assert_eq!(
        detect_help_request(&argv(&["dodot", "help", "probe", "shell-init"])),
        Some("probe.shell-init".into())
    );
}

#[test]
fn no_help_request_returns_none() {
    assert_eq!(detect_help_request(&argv(&["dodot", "up"])), None);
    assert_eq!(detect_help_request(&argv(&["dodot", "status", "git"])), None);
}

#[test]
fn double_dash_terminates_options() {
    assert_eq!(detect_help_request(&argv(&["dodot", "adopt", "pack", "--", "--help"])), None);
    assert_eq!(detect_help_request(&argv(&["dodot", "--", "-h"])), None);
    assert_eq!(
        detect_help_request(&argv(&["dodot", "up", "--help", "--", "x"])),
        Some("up".into())
    );
}

#[test]
fn non_unicode_arguments_pass_through_the_scan() {
    // A non-Unicode argument reaches the scan as its lossy rendering.
    let native = HelpArg { text: "/tmp/\u{FFFD}dots".to_string(), unicode: false };
    let mut line = argv(&["dodot", "roots", "forget"]);
    line.push(native);
    assert_eq!(detect_help_request(&line), None);

    // A non-Unicode token that merely starts like a flag is no marker.
    let flag_like = HelpArg { text: "-\u{FFFD}h".to_string(), unicode: false };
    let mut line = argv(&["dodot"]);
    line.push(flag_like);
    assert_eq!(detect_help_request(&line), None);

    // With a real marker present, the token only shapes the lookup path.
    let mut line = argv(&["dodot", "help", "roots"]);
    line.push(HelpArg { text: "/tmp/\u{FFFD}dots".to_string(), unicode: false });
    let path = detect_help_request(&line).expect("an explicit `help` word must be detected");
    assert_eq!(lookup(&path), lookup("roots"));
}

#[test]
fn a_non_unicode_help_word_is_no_marker() {
    let line = vec![
        HelpArg { text: "dodot".into(), unicode: true },
        HelpArg { text: "--help".into(), unicode: false },
    ];
    assert_eq!(detect_help_request(&line), None);
}

#[test]
fn lookup_falls_back_to_parent() {
    let got = lookup("probe.unknown-thing");
    assert_eq!(got, help_page("probe"));
    assert_eq!(help_path("probe.unknown-thing"), "probe");
    assert_eq!(help_path("probe.shell-init.extra"), "probe.shell-init");
}

#[test]
fn lookup_top_level_for_empty_path() {
    let got = lookup("");
    assert!(got.contains("dodot"));
    assert!(got.contains("tutorial"));
    assert_eq!(lookup("no-such-command"), got);
}

#[test]
fn every_registered_command_has_help() {
    let top = lookup("");
    for path in help_key_list() {
        assert_eq!(help_path(path), path, "path {path:?} should self-match");
        assert_eq!(lookup(path), help_page(path));
        if !path.is_empty() {
            assert_ne!(lookup(path), top, "path {path:?} has its own page");
        }
    }
}

/// The gated families: every mutating command of the sensitivity
/// table, plus the passthrough families whose routes are gated
/// (`config`, `template`, `tutorial`).
fn gated_families() -> Vec<&'static str> {
    let mut families: Vec<&'static str> = command_sensitivity()
        .into_iter()
        .filter(|(_, s)| matches!(s, RootSensitivity::Mutating { .. }))
        .map(|(path, _)| path)
        .chain(["config", "template", "tutorial"])
        .map(|path| path.split('.').next().unwrap_or(path))
        .collect();
    families.sort_unstable();
    families.dedup();
    families
}

#[test]
fn root_sensitive_command_help_names_safety_lock() {
    let families = gated_families();
    assert!(!families.is_empty());
    for path in families {
        let body = lookup(path);
        assert!(
            body.contains("SAFETY LOCK") && body.contains("DOTFILES_ROOT"),
            "help for {path} must explain Safety Lock and explicit-root automation"
        );
        assert!(body.contains("non-interactive"), "help for {path} must explain non-interactive refusal");
        assert!(body.contains("dodot roots"), "help for {path} must point to approval recovery");
    }
}

#[test]
fn top_level_help_summarizes_safety_lock_contract() {
    let body = lookup("");
    for required in [
        "Safety Lock",
        "DOTFILES_ROOT",
        "first root-sensitive mutation",
        "non-interactive invocation refuses",
        "Read-only commands",
        "documented previews",
        "dodot roots list",
        "dodot roots forget",
        "dodot reset",
    ] {
        assert!(body.contains(required), "top-level help is missing {required:?}");
    }
}

#[test]
fn mixed_command_help_names_its_read_only_bypass() {
    for (path, sensitivity) in command_sensitivity() {
        if let RootSensitivity::Mutating { preview_flag: Some(flag) } = sensitivity {
            let family = path.split('.').next().unwrap_or(path);
            assert!(
                lookup(family).contains(&format!("--{flag}")),
                "help for {family} must name the declared preview flag --{flag}"
            );
        }
    }
    for (path, bypass) in [
        ("up", "up --dry-run"),
        ("down", "down --dry-run"),
        ("adopt", "adopt --dry-run"),
        ("config", "list"),
        ("refresh", "refresh --list-paths"),
        ("transform", "check --dry-run"),
        ("template", "template clean"),
        ("tutorial", "dry-run preview"),
    ] {
        assert!(lookup(path).contains(bypass), "help for {path} must name its bypass {bypass:?}");
    }
}

#[test]
fn audited_help_corrections_stay_pinned() {
    let config = lookup("config");
    assert!(config.contains("local[/item] is the only supported"));
    assert!(!config.contains("[item]global[/item]"));

    let tutorial = lookup("tutorial");
    assert!(tutorial.contains("save progress"));
    assert!(tutorial.contains("install --write"));
    assert!(tutorial.contains("first root-sensitive mutation"));

    let reset = lookup("reset");
    assert!(reset.contains("safety-lock.toml"));
    assert!(reset.contains("asks again"));

    let roots = lookup("roots");
    assert!(roots.contains("next root-sensitive mutation that implicitly"));
    assert!(roots.contains("discovers that root asks again"));
    assert!(!roots.contains("next deploying command"));
    assert!(!roots.contains("mutation run from that root"));
}
