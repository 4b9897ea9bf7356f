use dodot::safety::{
    approves, command_sensitivity, git_top_level_from, mutates, mutates_or_previews,
    no_terminal_refusal, not_approved_refusal, sensitivity_of, undeclared_command, ProcessFacts,
    ResolvedRoot, RootOperation, RootSensitivity, RootSource, SafetyState,
};

#[test]
fn a_mutating_command_is_gated() {
    assert_eq!(mutates_or_previews().operation(false), RootOperation::RootSensitiveMutation);
}

#[test]
fn the_preview_flag_downgrades_the_same_declaration() {
    assert_eq!(mutates_or_previews().operation(true), RootOperation::DryRun);
    assert_eq!(mutates_or_previews().preview_flag(), Some("dry-run"));
}

#[test]
fn a_command_without_a_preview_flag_is_always_a_mutation() {
    assert_eq!(mutates().operation(true), RootOperation::RootSensitiveMutation);
}

#[test]
fn only_root_sensitive_mutation_reaches_the_gate() {
    for sensitivity in [
        RootSensitivity::ReadOnly,
        RootSensitivity::RootIndependent,
        RootSensitivity::Rootless,
    ] {
        assert!(
            !sensitivity.operation(false).requires_trusted_root(),
            "{sensitivity:?} was gated"
        );
    }
    assert!(mutates().operation(false).requires_trusted_root());
}

#[test]
fn every_command_is_declared_exactly_once() {
    let mut paths: Vec<&str> = command_sensitivity().iter().map(|(path, _)| *path).collect();
    paths.sort_unstable();
    let mut unique = paths.clone();
    unique.dedup();
    assert_eq!(paths, unique, "a command path is declared twice");
}

#[test]
fn declared_sensitivities_are_found_by_path() {
    assert_eq!(sensitivity_of("refresh").unwrap().preview_flag(), Some("list-paths"));
    assert!(matches!(sensitivity_of("status"), Some(RootSensitivity::ReadOnly)));
    assert!(matches!(sensitivity_of("roots.forget"), Some(RootSensitivity::Rootless)));
    assert!(!sensitivity_of("roots.list").unwrap().resolves_root());
    assert!(sensitivity_of("not-a-command").is_none());
}

#[test]
fn the_root_is_chosen_explicit_then_git_then_current_dir() {
    let facts = ProcessFacts::new(
        "/work".into(),
        "/home/u".into(),
        Some("/dots".into()),
        Some("/repo".into()),
        "/data".into(),
    );
    assert_eq!(facts.resolve_root(), ("/dots".to_string(), RootSource::Explicit));
    let facts = ProcessFacts::new("/work".into(), "/home/u".into(), None, Some("/repo".into()), "/data".into());
    assert_eq!(facts.resolve_root(), ("/repo".to_string(), RootSource::GitTopLevel));
    let facts = ProcessFacts::new("/work".into(), "/home/u".into(), None, None, "/data".into());
    assert_eq!(facts.resolve_root(), ("/work".to_string(), RootSource::CurrentDir));
    assert_eq!(facts.current_dir(), "/work");
    assert_eq!(facts.data_dir(), "/data");
}

#[test]
fn git_top_level_is_the_trimmed_output_of_a_successful_run() {
    assert_eq!(git_top_level_from(true, "/repo\n"), Some("/repo".to_string()));
    assert_eq!(git_top_level_from(true, "  \n"), None);
    assert_eq!(git_top_level_from(false, "/repo\n"), None);
}

#[test]
fn a_rootless_state_has_no_root() {
    let facts = ProcessFacts::new("/w".into(), "/h".into(), None, None, "/d".into());
    let state = SafetyState::new(facts.clone(), None);
    assert_eq!(state.root().unwrap_err(), "this command does not resolve a dotfiles root");
    let rooted = SafetyState::new(
        facts,
        Some(ResolvedRoot { identity: "/dots".into(), source: RootSource::Explicit }),
    );
    assert_eq!(rooted.root_identity().unwrap(), "/dots");
    assert_eq!(rooted.facts().home(), "/h");
}

#[test]
fn only_y_or_yes_approves() {
    assert!(approves("y\n"));
    assert!(approves("  YES "));
    assert!(!approves(""));
    assert!(!approves("yep"));
    assert!(!approves("n"));
}

#[test]
fn refusals_name_the_root() {
    assert_eq!(
        not_approved_refusal("/dots"),
        "Not approved — /dots was left untrusted and nothing was changed."
    );
    assert!(no_terminal_refusal("/dots").starts_with("dodot has not been approved for /dots.\n"));
    assert_eq!(
        undeclared_command(&["probe".to_string(), "app".to_string()]),
        "`probe app` is not declared in dodot's root-sensitivity taxonomy, so no dotfiles root was resolved for it"
    );
}

#[test]
fn trimming_matches_std_whitespace_for_every_char() {
    for c in (0u32..0x11000).filter_map(char::from_u32) {
        let got = git_top_level_from(true, &format!("{c}x{c}"));
        if c.is_whitespace() {
            assert_eq!(got.as_deref(), Some("x"), "U+{:04X}", c as u32);
        } else {
            assert_eq!(got, Some(format!("{c}x{c}")), "U+{:04X}", c as u32);
        }
    }
}
