use dodot::handlers::{
    active_rungs, cfprefsd_plan, discover_dotfiles_root, check_prompts_reset, clean_debug_format, killall_report,
    ladder_body, ladder_plan, maybe_prompt_install_ladder, maybe_prompt_invalidate_cfprefsd,
    pack_status_width, rung_hook, rung_plist_filter, shell_init_mode, CfprefsdStep, LadderFacts,
    ShellInitMode,
};
use dodot::interactive::{parse_yes_no_show, YesNoShow};
use dodot::logging::{is_rotated_log, stdout_layer, verbosity_from, Verbosity};

#[test]
fn pack_status_width_uses_standout_value_with_80_column_fallback() {
    assert_eq!(pack_status_width(Some(132)), 132);
    assert_eq!(pack_status_width(None), 80);
}

#[test]
fn clean_debug_format_unwraps_string_values() {
    assert_eq!(clean_debug_format("name = String(\"vim\")\n"), "name = \"vim\"\n");
    assert_eq!(
        clean_debug_format("a = String(\"x\"), b = String(\"y\")"),
        "a = \"x\", b = \"y\""
    );
    assert_eq!(clean_debug_format("open = String(\"unterminated"), "open = String(\"unterminated");
    assert_eq!(clean_debug_format("plain"), "plain");
}

#[test]
fn shell_init_mode_prefers_errors_then_filter_then_runs_then_history() {
    assert!(matches!(
        shell_init_mode(true, Some("vim".into()), Some(3), true),
        ShellInitMode::Errors { runs: 20 }
    ));
    assert!(matches!(
        shell_init_mode(false, Some("vim".into()), Some(3), true),
        ShellInitMode::Filter { runs: 20, .. }
    ));
    assert!(matches!(shell_init_mode(false, None, Some(3), true), ShellInitMode::Aggregate { runs: 3 }));
    assert!(matches!(shell_init_mode(false, None, None, true), ShellInitMode::History { limit: 50 }));
    assert!(matches!(shell_init_mode(false, None, None, false), ShellInitMode::Latest));
}

#[test]
fn prompts_reset_wants_exactly_one_of_key_and_all() {
    assert!(check_prompts_reset(Some("k"), false).is_ok());
    assert!(check_prompts_reset(None, true).is_ok());
    assert_eq!(
        check_prompts_reset(Some("k"), true).unwrap_err(),
        "`dodot prompts reset` accepts a key or --all, not both"
    );
    assert_eq!(
        check_prompts_reset(None, false).unwrap_err(),
        "`dodot prompts reset` requires either a key or --all"
    );
}

fn facts() -> LadderFacts {
    LadderFacts {
        templates_present: true,
        plist_present: true,
        in_git_worktree: true,
        hook_installed: false,
        filters_installed: false,
        template_filter_installed: false,
    }
}

#[test]
fn the_ladder_offers_applicable_undismissed_rungs_in_order() {
    let keys: Vec<&str> = active_rungs(&facts(), &[]).iter().map(|r| r.component_key).collect();
    assert_eq!(keys, vec!["template.install_hook", "plist.install_filters", "template.install_filter"]);
    let dismissed = vec!["plist.install_filters".to_string()];
    let keys: Vec<&str> = active_rungs(&facts(), &dismissed).iter().map(|r| r.component_key).collect();
    assert_eq!(keys, vec!["template.install_hook", "template.install_filter"]);
    let all_off = vec!["magic.install_ladder".to_string()];
    assert!(active_rungs(&facts(), &all_off).is_empty());
    assert!(maybe_prompt_install_ladder(false, &facts(), &[]).is_none());
    let mut nothing = facts();
    nothing.templates_present = false;
    nothing.plist_present = false;
    assert!(maybe_prompt_install_ladder(true, &nothing, &[]).is_none());
}

#[test]
fn the_ladder_body_counts_its_rungs() {
    let one = ladder_body(&[rung_plist_filter()]);
    assert_eq!(one[0], "dodot can wire git up to handle the files in this repo:");
    assert_eq!(one[1], "  - dodot-plist clean/smudge filters (binary↔XML for plists)");
    assert_eq!(one[2], "");
    assert_eq!(one[3], "Install it now? `show` previews first; `no` skips and won't ask again.");
    let two = ladder_body(&[rung_hook(), rung_plist_filter()]);
    assert_eq!(two[4], "Install all 2? `show` previews each; `no` skips and won't ask again.");
}

#[test]
fn ladder_answers_install_preview_or_dismiss() {
    let rungs = vec![rung_hook(), rung_plist_filter()];
    let yes = ladder_plan(&rungs, YesNoShow::Yes);
    assert_eq!(yes.install.len(), 2);
    assert!(yes.save && yes.dismiss.is_empty());
    let show = ladder_plan(&rungs, YesNoShow::Show);
    assert_eq!(show.preview.len(), 2);
    assert!(!show.save);
    let no = ladder_plan(&rungs, YesNoShow::No);
    assert_eq!(
        no.dismiss,
        vec!["template.install_hook", "plist.install_filters", "magic.install_ladder"]
    );
    assert!(no.message.unwrap().starts_with("Skipped install ladder."));
}

#[test]
fn cfprefsd_prompt_only_on_macos_terminals_with_a_marker() {
    assert_eq!(maybe_prompt_invalidate_cfprefsd(false, true, true, false), CfprefsdStep::Skip);
    assert_eq!(maybe_prompt_invalidate_cfprefsd(true, false, true, false), CfprefsdStep::Skip);
    assert_eq!(maybe_prompt_invalidate_cfprefsd(true, true, false, false), CfprefsdStep::Skip);
    assert_eq!(maybe_prompt_invalidate_cfprefsd(true, true, true, true), CfprefsdStep::ClearMarker);
    assert_eq!(maybe_prompt_invalidate_cfprefsd(true, true, true, false), CfprefsdStep::Ask);
    let yes = cfprefsd_plan(YesNoShow::Yes);
    assert!(yes.run_killall && !yes.dismiss && yes.clear_marker);
    let no = cfprefsd_plan(YesNoShow::No);
    assert!(!no.run_killall && no.dismiss && no.clear_marker);
    let show = cfprefsd_plan(YesNoShow::Show);
    assert!(!show.dismiss && show.clear_marker && show.lines[2] == "    killall cfprefsd");
    assert_eq!(killall_report(Ok(())), "Ran `killall cfprefsd`.");
    assert!(killall_report(Err("no such process")).contains("failed: no such process."));
}

#[test]
fn yes_no_show_answers() {
    assert_eq!(parse_yes_no_show(""), YesNoShow::Yes);
    assert_eq!(parse_yes_no_show(" Y\n"), YesNoShow::Yes);
    assert_eq!(parse_yes_no_show("yes"), YesNoShow::Yes);
    assert_eq!(parse_yes_no_show("SHOW"), YesNoShow::Show);
    assert_eq!(parse_yes_no_show("s"), YesNoShow::Show);
    assert_eq!(parse_yes_no_show("nope"), YesNoShow::No);
}

#[test]
fn logging_choices() {
    assert_eq!(verbosity_from(true, true), Verbosity::Debug);
    assert_eq!(verbosity_from(false, true), Verbosity::Verbose);
    assert_eq!(verbosity_from(false, false), Verbosity::Quiet);
    assert_eq!(stdout_layer(Verbosity::Quiet), None);
    assert_eq!(stdout_layer(Verbosity::Verbose), Some(("dodot_lib=info,dodot=info", false)));
    assert_eq!(stdout_layer(Verbosity::Debug), Some(("dodot_lib=debug,dodot=debug", true)));
    assert!(is_rotated_log("dodot.log.2024-01-01"));
    assert!(!is_rotated_log("dodot.log"));
    assert!(!is_rotated_log("other.log"));
}

#[test]
fn dotfiles_root_prefers_an_existing_env_root_then_git_then_cwd() {
    assert_eq!(
        discover_dotfiles_root(Some("/env".into()), true, Some("/git".into()), "/cwd".into()),
        "/env"
    );
    assert_eq!(
        discover_dotfiles_root(Some("/env".into()), false, Some("/git".into()), "/cwd".into()),
        "/git"
    );
    assert_eq!(discover_dotfiles_root(None, false, None, "/cwd".into()), "/cwd");
}
