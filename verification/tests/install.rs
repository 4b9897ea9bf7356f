use dodot::install::{
    chain_into, chain_note, check_hookup, created_note, install, refusal, wants_bash_chain,
    verdict_plan, HookupShell, InstallOptions, RcState,
};

fn rc() -> RcState {
    RcState {
        path_display: "~/.zshrc".into(),
        link_source_display: None,
        existed: false,
        presence: "managed-block".into(),
    }
}

#[test]
fn install_refuses_without_a_shell_or_rc_file() {
    let opts = InstallOptions { write: false, rc: None };
    let err = install(&opts, None, Some("/usr/bin/fish"), "hook".into(), rc(), None, Vec::new(), None)
        .unwrap_err();
    assert_eq!(
        err,
        "dodot can wire up bash and zsh; it will not guess an rc file for your shell (/usr/bin/fish). Add this line to whatever file your shell reads at startup: hook — or point dodot at it with `dodot install --write --rc <file>`."
    );
    assert!(refusal(None, "hook").contains("your shell ($SHELL is not set)"));
    assert!(refusal(Some(""), "hook").contains("your shell ($SHELL is not set)"));
    let with_rc = InstallOptions { write: false, rc: Some("/tmp/rc".into()) };
    assert!(check_hookup(None, &with_rc, None, "hook").is_ok());
}

#[test]
fn install_reports_the_state_after_the_run() {
    let opts = InstallOptions { write: true, rc: None };
    let r = install(
        &opts,
        Some(HookupShell::Zsh),
        Some("/bin/zsh"),
        "[ -f x ] && . x".into(),
        rc(),
        Some("created".into()),
        vec!["created ~/.zshrc".into()],
        None,
    )
    .unwrap();
    assert_eq!(r.shell.as_deref(), Some("zsh"));
    assert!(r.rc_exists && r.wrote);
    assert_eq!(r.outcome.as_deref(), Some("created"));
    let dry = InstallOptions { write: false, rc: None };
    let d = install(&dry, Some(HookupShell::Bash), None, "h".into(), rc(), Some("ignored".into()), Vec::new(), None)
        .unwrap();
    assert!(!d.rc_exists && !d.wrote);
    assert_eq!(d.outcome, None);
}

#[test]
fn the_bash_chain_is_only_for_the_ladder_bashrc_on_macos() {
    assert!(wants_bash_chain(Some(HookupShell::Bash), "darwin", "/home/u/.bashrc", "/home/u"));
    assert!(wants_bash_chain(Some(HookupShell::Bash), "darwin", "/home/u//.bashrc", "/home/u/"));
    assert!(!wants_bash_chain(Some(HookupShell::Bash), "linux", "/home/u/.bashrc", "/home/u"));
    assert!(!wants_bash_chain(Some(HookupShell::Zsh), "darwin", "/home/u/.bashrc", "/home/u"));
    assert!(!wants_bash_chain(Some(HookupShell::Bash), "darwin", "/tmp/rc", "/home/u"));
    assert!(!chain_into("/home/u/.bash_profile", "/home/u/.bash_profile"));
    assert!(chain_into("/home/u/.bash_profile", "/home/u/.bashrc"));
    assert_eq!(created_note("~/.bashrc"), "created ~/.bashrc");
    assert_eq!(
        chain_note("~/.bash_profile"),
        "macOS opens login shells: chained ~/.bash_profile to ~/.bashrc"
    );
}

#[test]
fn written_install_with_probe_and_script_is_measured() {
    let v = verdict_plan(true, true, true, true);
    assert!(v.measure);
    assert!(!v.session_signal);
}

#[test]
fn dry_run_reads_the_session_signal_instead() {
    let v = verdict_plan(false, true, true, true);
    assert!(!v.measure);
    assert!(v.session_signal);
    let v = verdict_plan(true, true, false, false);
    assert!(!v.measure);
    assert!(!v.session_signal);
}
