use dodot::tutorial::{
    after_confirm, after_step, choose_pack, confirm_question, indent, order_packs, pack_label,
    resume_choice, resume_label, shell_action, shell_action_message, starting_step, step_prompt,
    Ask, Next, Prompts, ResumeChoice, ScriptedAnswer, ScriptedPrompts, ShellAction, Step,
    TutorialEnv, TutorialPack,
};

fn pack(name: &str, kind: &str, recommended: bool) -> TutorialPack {
    TutorialPack { name: name.into(), kind: kind.into(), recommended }
}

#[test]
fn scripted_prompts_answer_in_order_and_check_kinds() {
    let mut p = ScriptedPrompts::new(vec![
        ScriptedAnswer::Confirm(true),
        ScriptedAnswer::Choice(1),
        ScriptedAnswer::Enter,
    ]);
    assert_eq!(p.remaining(), 3);
    assert_eq!(p.confirm("Ready to begin?", true), Ok(true));
    assert_eq!(p.select("Pick", vec!["a".into(), "b".into()]), Ok("b".to_string()));
    assert_eq!(p.press_enter(), Ok(()));
    assert_eq!(p.remaining(), 0);
    assert_eq!(
        p.confirm("More?", true).unwrap_err(),
        "ScriptedPrompts: ran out of answers; next was a `confirm` prompt: \"More?\""
    );
    let mut q = ScriptedPrompts::new(vec![ScriptedAnswer::Enter]);
    assert_eq!(
        q.confirm("Ready?", true).unwrap_err(),
        "ScriptedPrompts: expected Confirm for \"Ready?\", got Enter"
    );
    let mut r = ScriptedPrompts::new(vec![ScriptedAnswer::Choice(5)]);
    assert_eq!(
        r.select("Pick", vec!["a".into()]).unwrap_err(),
        "ScriptedPrompts: Choice(5) out of range for select with 1 option(s) (\"Pick\")"
    );
}

#[test]
fn the_happy_path_walks_every_step() {
    // intro → check_root → list_packs → pick_pack → show_status →
    // annotate_status → concept_targets → dry_run → real_up → outro
    let mut step = starting_step(None, None);
    assert_eq!(step, Step::Intro);
    let mut visited = vec![step.id()];
    loop {
        let next = match confirm_question(step) {
            Some(_) => after_confirm(step, true, false).0,
            None => after_step(step, true),
        };
        match next {
            Next::Go(s) => {
                step = s;
                visited.push(step.id());
            }
            Next::Done => break,
            Next::Quit => panic!("the happy path does not quit"),
        }
    }
    assert_eq!(
        visited,
        vec![
            "intro", "check_root", "list_packs", "pick_pack", "show_status", "annotate_status",
            "concept_targets", "dry_run", "real_up", "outro",
        ]
    );
}

#[test]
fn declining_leaves_with_the_matching_words() {
    assert_eq!(after_confirm(Step::Intro, false, false), (Next::Quit, ""));
    assert_eq!(
        after_confirm(Step::CheckRoot, false, false).1,
        "\nOK — exit, cd into your dotfiles repo, and re-run `dodot tutorial`."
    );
    assert_eq!(
        after_confirm(Step::DryRun, false, false),
        (Next::Quit, "\nNothing was applied. Run again any time.")
    );
    assert_eq!(after_confirm(Step::ConceptTargets, true, true).0, Next::Go(Step::ConceptShell));
    assert_eq!(after_step(Step::ListPacks, false), Next::Go(Step::NoPacks));
    assert_eq!(after_step(Step::NoPacks, false), Next::Done);
}

#[test]
fn steps_resume_from_saved_or_chosen_names() {
    assert_eq!(Step::from_id("dry_run"), Some(Step::DryRun));
    assert_eq!(Step::from_id("bogus"), None);
    assert_eq!(starting_step(Some("real_up"), Some("dry_run")), Step::RealUp);
    assert_eq!(starting_step(Some("bogus"), Some("dry_run")), Step::DryRun);
    assert_eq!(starting_step(None, Some("bogus")), Step::Intro);
    assert_eq!(resume_choice("Resume"), ResumeChoice::Resume);
    assert_eq!(resume_choice("Start over"), ResumeChoice::Restart);
    assert_eq!(resume_choice("whatever"), ResumeChoice::Quit);
    assert_eq!(
        resume_label("pick_pack", None),
        "Found a saved tutorial at step 'pick_pack' (pack: (no pack picked yet))"
    );
}

#[test]
fn tutorial_recommendation_orders_config_only_first() {
    let packs = vec![pack("dev-tools", "install", false), pack("vim", "config", true)];
    let ordered = order_packs(&packs);
    assert_eq!(ordered[0].name, "vim");
    assert_eq!(pack_label(&ordered[0]), "vim  ← recommended (config)");
    assert_eq!(pack_label(&ordered[1]), "dev-tools  (install)");
    match step_prompt(Step::PickPack, &packs, false) {
        Ask::Select { message, options } => {
            assert_eq!(message, "Pick a pack to start with:");
            assert_eq!(options[0], "vim  ← recommended (config)");
        }
        other => panic!("expected a select, got {other:?}"),
    }
    let chosen = choose_pack(&ordered, "vim  ← recommended (config)").unwrap();
    assert_eq!(chosen.name, "vim");
    assert!(!chosen.has_shell_files && !chosen.has_install_files);
    let shelly = choose_pack(&[pack("zsh", "shell+install", false)], "zsh  (shell+install)").unwrap();
    assert!(shelly.has_shell_files && shelly.has_install_files);
    assert_eq!(
        choose_pack(&ordered, "nope").unwrap_err(),
        "internal: chosen pack not in list"
    );
}

#[test]
fn shell_integration_choices_and_messages() {
    assert_eq!(shell_action("Append it to my rc file"), ShellAction::Append);
    assert_eq!(shell_action("Copy to clipboard"), ShellAction::Copy);
    assert_eq!(shell_action("Nothing — I'll handle it"), ShellAction::Nothing);
    assert_eq!(
        shell_action_message(ShellAction::Copy, "~/.zshrc", "eval x", Some("no tool")),
        "\n  ! couldn't copy to clipboard (no tool); paste manually:\n  eval x"
    );
    assert!(matches!(step_prompt(Step::ConceptShell, &[], true), Ask::Nothing));
    assert!(matches!(step_prompt(Step::ShowStatus, &[], false), Ask::Enter));
}

#[test]
fn indent_prefixes_every_line() {
    assert_eq!(indent("a\nb\n", "  "), "  a\n  b");
    assert_eq!(indent("a\r\nb", "> "), "> a\n> b");
    assert_eq!(indent("", "  "), "");
}

#[test]
fn the_root_comes_from_the_environment_git_or_cwd() {
    let e = TutorialEnv::from_process_env(Some("/dots".into()), true, Some("/repo".into()), None);
    assert_eq!((e.dotfiles_root.as_str(), e.root_origin.as_str()), ("/dots", "DOTFILES_ROOT env var"));
    let e = TutorialEnv::from_process_env(Some("/dots".into()), false, Some("/repo".into()), None);
    assert_eq!((e.dotfiles_root.as_str(), e.root_origin.as_str()), ("/repo", "git toplevel"));
    let e = TutorialEnv::from_process_env(None, false, None, None);
    assert_eq!((e.dotfiles_root.as_str(), e.root_origin.as_str()), (".", "current directory"));
}

#[test]
fn every_answer_pattern_ends_within_twelve_steps() {
    for mask in 0u32..(1 << 6) {
        let has_shell = mask & 1 != 0;
        let have_packs = mask & 2 != 0;
        let mut step = starting_step(None, None);
        let mut taken = 0;
        let mut k = 2;
        loop {
            let yes = mask & (1 << (k % 6)) != 0;
            k += 1;
            let next = match confirm_question(step) {
                Some(_) => after_confirm(step, yes, has_shell).0,
                None => after_step(step, have_packs),
            };
            match next {
                Next::Go(s) => {
                    step = s;
                    taken += 1;
                    assert!(taken < 12, "the walk-through went round");
                }
                Next::Done | Next::Quit => break,
            }
        }
    }
}
