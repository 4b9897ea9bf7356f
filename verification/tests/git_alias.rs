use dodot::git_alias::{
    find_managed_block, install_alias, is_installed, managed_block, resolve_shell, show_alias,
    InstallAliasOutcome, Shell, ALIAS_GUARD_END, ALIAS_GUARD_START,
};

#[test]
fn from_str_opt_recognises_known_shells() {
    assert_eq!(Shell::from_str_opt("bash"), Some(Shell::Bash));
    assert_eq!(Shell::from_str_opt("BASH"), Some(Shell::Bash));
    assert_eq!(Shell::from_str_opt("zsh"), Some(Shell::Zsh));
    assert_eq!(Shell::from_str_opt("fish"), None);
    assert_eq!(Shell::from_str_opt("Powershell"), None);
}

#[test]
fn rc_paths_match_shell_conventions() {
    assert_eq!(Shell::Bash.rc_relative_path(), ".bashrc");
    assert_eq!(Shell::Zsh.rc_relative_path(), ".zshrc");
}

#[test]
fn alias_line_runs_refresh_then_command_git() {
    for sh in [Shell::Bash, Shell::Zsh] {
        assert_eq!(
            sh.alias_line(),
            "alias git='dodot refresh --quiet && command git'"
        );
    }
}

#[test]
fn resolve_shell_explicit_unknown_returns_error() {
    let msg = resolve_shell(Some("fish"), Some("/bin/zsh")).unwrap_err();
    assert!(msg.contains("fish"), "msg: {msg}");
    assert!(msg.contains("bash"), "msg should suggest supported shells: {msg}");
}

#[test]
fn resolve_shell_explicit_known_returns_match() {
    assert_eq!(resolve_shell(Some("bash"), None).unwrap(), Shell::Bash);
    assert_eq!(resolve_shell(Some("Zsh"), None).unwrap(), Shell::Zsh);
}

#[test]
fn detect_returns_some_for_bash() {
    assert_eq!(Shell::detect(Some("/bin/bash")), Some(Shell::Bash));
}

#[test]
fn detect_returns_some_for_zsh() {
    assert_eq!(Shell::detect(Some("/usr/local/bin/zsh")), Some(Shell::Zsh));
}

#[test]
fn detect_returns_none_for_unknown_shell() {
    assert_eq!(Shell::detect(Some("/usr/bin/fish")), None);
}

#[test]
fn resolve_shell_no_explicit_unsupported_shell_errors() {
    let msg = resolve_shell(None, Some("/usr/bin/fish")).unwrap_err();
    assert!(msg.contains("fish"), "msg: {msg}");
    assert!(msg.contains("--shell"), "msg should suggest --shell: {msg}");
}

#[test]
fn resolve_shell_no_explicit_unset_shell_errors() {
    let msg = resolve_shell(None, None).unwrap_err();
    assert!(msg.contains("$SHELL"), "msg: {msg}");
    assert!(msg.contains("--shell"), "msg: {msg}");
}

#[test]
fn managed_block_is_self_contained_and_grep_detectable() {
    let block = managed_block(Shell::Bash);
    assert!(block.starts_with(ALIAS_GUARD_START));
    assert!(block.trim_end().ends_with(ALIAS_GUARD_END));
    assert!(block.contains(Shell::Bash.alias_line()));
}

#[test]
fn find_managed_block_locates_byte_range() {
    let block = managed_block(Shell::Bash);
    let text = format!("# rc preamble\n{block}# rc postamble\n");
    let (start, end) = find_managed_block(&text).expect("must find block");
    assert_eq!(&text[start..end], block);
}

#[test]
fn find_managed_block_returns_none_when_absent() {
    assert!(find_managed_block("nothing here").is_none());
    let only_start = format!("{ALIAS_GUARD_START}\nstuff\n");
    assert!(find_managed_block(&only_start).is_none());
}

#[test]
fn install_alias_creates_rc_file_when_absent() {
    let (r, written) = install_alias("/home/u", None, Shell::Zsh);
    assert!(matches!(r.outcome, InstallAliasOutcome::Created));
    let body = written.expect("the rc file is written");
    assert!(body.contains(ALIAS_GUARD_START));
    assert!(body.contains(Shell::Zsh.alias_line()));
}

#[test]
fn install_alias_appends_to_existing_rc() {
    let existing = "export PATH=\"/usr/local/bin:$PATH\"\nalias ll='ls -l'\n";
    let (r, written) = install_alias("/home/u", Some(existing), Shell::Bash);
    assert!(matches!(r.outcome, InstallAliasOutcome::Appended));
    let body = written.expect("the rc file is written");
    assert!(body.starts_with(existing), "user content lost: {body:?}");
    assert!(body.contains(Shell::Bash.alias_line()));
}

#[test]
fn install_alias_is_idempotent_on_current_block() {
    let (r1, written) = install_alias("/home/u", None, Shell::Zsh);
    assert!(matches!(r1.outcome, InstallAliasOutcome::Created));
    let body_after_first = written.unwrap();
    let (r2, written2) = install_alias("/home/u", Some(&body_after_first), Shell::Zsh);
    assert!(matches!(r2.outcome, InstallAliasOutcome::AlreadyInstalled));
    assert!(written2.is_none());
}

#[test]
fn install_alias_updates_a_stale_block() {
    let stale = format!(
        "export PATH=\"/usr/local/bin:$PATH\"\n\
         \n\
         {start}\n\
         # An old, simpler form of the alias block.\n\
         alias git='dodot refresh && git'\n\
         {end}\n\
         alias ll='ls -l'\n",
        start = ALIAS_GUARD_START,
        end = ALIAS_GUARD_END,
    );
    let (r, written) = install_alias("/home/u", Some(&stale), Shell::Zsh);
    assert!(matches!(r.outcome, InstallAliasOutcome::Updated));
    let body = written.unwrap();
    assert!(body.contains(Shell::Zsh.alias_line()));
    assert!(body.contains("export PATH"));
    assert!(body.contains("alias ll='ls -l'"));
    assert_eq!(body.matches(ALIAS_GUARD_START).count(), 1);
}

#[test]
fn is_installed_reflects_state() {
    assert!(!is_installed(None));
    let (_, written) = install_alias("/home/u", None, Shell::Bash);
    assert!(is_installed(written.as_deref()));
    assert!(!is_installed(Some("alias ll='ls -l'\n")));
}

#[test]
fn show_alias_renders_block_without_writing() {
    let r = show_alias("/home/u", None, Shell::Zsh);
    assert!(r.alias_block.contains(Shell::Zsh.alias_line()));
    assert_eq!(r.rc_path_display, "~/.zshrc");
    assert!(!r.already_installed);
}

#[test]
fn show_alias_reports_already_installed_when_block_present() {
    let (_, written) = install_alias("/home/u", None, Shell::Bash);
    let r = show_alias("/home/u", written.as_deref(), Shell::Bash);
    assert!(r.already_installed);
}

// ── Beyond the original's cases ───────────────────────────────────

#[test]
fn install_reports_paths_and_source_command() {
    let (r, _) = install_alias("/home/u", None, Shell::Bash);
    assert_eq!(r.rc_path, "/home/u/.bashrc");
    assert_eq!(r.rc_path_display, "~/.bashrc");
    assert_eq!(r.source_command, "source ~/.bashrc");
    assert_eq!(r.shell, Shell::Bash);
}

#[test]
fn appending_pads_with_a_blank_line() {
    let (_, written) = install_alias("/h", Some("a"), Shell::Bash);
    let body = written.unwrap();
    assert!(body.starts_with("a\n\n# >>> dodot git alias"));
    let (_, written) = install_alias("/h", Some("a\n\n"), Shell::Bash);
    assert!(written.unwrap().starts_with("a\n\n# >>>"));
}

#[test]
fn show_alias_lists_the_block_lines() {
    let r = show_alias("/home/u", None, Shell::Bash);
    assert_eq!(r.alias_block_lines.len(), 6);
    assert_eq!(r.alias_block_lines[0], ALIAS_GUARD_START);
    assert_eq!(r.alias_block_lines[5], ALIAS_GUARD_END);
    assert_eq!(r.alias_block_lines.join("\n") + "\n", r.alias_block);
}

#[test]
fn a_second_install_after_an_update_changes_nothing() {
    let stale = format!("x\n{ALIAS_GUARD_START}\nold\n{ALIAS_GUARD_END}\ny\n");
    let (_, written) = install_alias("/h", Some(&stale), Shell::Zsh);
    let once = written.unwrap();
    let (r, again) = install_alias("/h", Some(&once), Shell::Zsh);
    assert!(matches!(r.outcome, InstallAliasOutcome::AlreadyInstalled));
    assert!(again.is_none());
}
