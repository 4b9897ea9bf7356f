use dodot::adopt::PlanRefusal;
use dodot::adopt_run::{
    adopt_step, check_deploy_conflicts, resolve_into, resolve_pack, start, AdoptAction,
    AdoptEvent, AdoptPhase, AdoptRefusal, AdoptRun, Claim, DeployConflict, PackEntry,
};
use dodot::gates::{GateTable, HostFacts};
use dodot::adopt_run::{natural_packs, plan_step, resolve_pack_for_sources, PlanContext, PlanState, SourceFacts};
use dodot::classify::{EffectiveIgnore, IgnoreLayer};
use dodot::infer::{infer_target, InferenceError, InferredTarget};

fn infer(src: &str, is_dir: bool) -> Result<InferredTarget, InferenceError> {
    infer_target(src, is_dir, "/u", "/x", "/u/Library/Application Support", &[], false)
}

fn packs(dirs: &[&str]) -> Vec<PackEntry> {
    dirs.iter().map(|d| PackEntry { dir: d.to_string() }).collect()
}

fn claim(pack: &str, target: &str) -> Claim {
    Claim { pack: pack.into(), target: target.into() }
}

fn kinds(actions: &[AdoptAction]) -> Vec<&'static str> {
    actions
        .iter()
        .map(|a| match a {
            AdoptAction::ResolvePack => "resolve",
            AdoptAction::CheckPack { .. } => "check",
            AdoptAction::Plan => "plan",
            AdoptAction::Prepare => "prepare",
            AdoptAction::Validate => "validate",
            AdoptAction::Publish => "publish",
            AdoptAction::ReplaceSources => "replace",
            AdoptAction::DiscardPreparation => "discard",
            AdoptAction::Report { .. } => "report",
            AdoptAction::Refuse { .. } => "refuse",
        })
        .collect()
}

fn requested(only_os: Option<&str>, count: usize) -> AdoptEvent {
    AdoptEvent::Requested {
        only_os: only_os.map(|s| s.to_string()),
        gates: GateTable::with_builtins(),
        source_count: count,
    }
}

/// Drive a run through the given events, collecting the actions.
fn drive(dry_run: bool, events: Vec<AdoptEvent>) -> (AdoptRun, Vec<Vec<&'static str>>) {
    let mut run = start(dry_run);
    let mut all = Vec::new();
    for e in events {
        let (next, actions) = adopt_step(run, e);
        all.push(kinds(&actions));
        run = next;
    }
    (run, all)
}

fn through_plan(n: usize) -> Vec<AdoptEvent> {
    vec![
        requested(None, 1),
        AdoptEvent::PacksRead {
            packs: packs(&["010-nvim", "git"]),
            pack_override: None,
            inferred: vec![("/x/nvim/init.lua".to_string(), infer("/x/nvim/init.lua", false))],
        },
        AdoptEvent::PackChecked { dir_refusal: None, ignored: false, exists: true },
        AdoptEvent::Planned { result: Ok(n) },
    ]
}

#[test]
fn into_resolves_by_directory_then_display_name() {
    let p = packs(&["010-nvim", "git", "nvim-old"]);
    assert_eq!(resolve_into(&p, "git"), Ok(1));
    assert_eq!(resolve_into(&p, "010-nvim"), Ok(0));
    assert_eq!(resolve_into(&p, "nvim"), Ok(0));
    assert_eq!(resolve_into(&p, "zsh"), Err("pack not found: zsh".to_string()));
}

#[test]
fn inferred_name_picks_the_existing_prefixed_pack() {
    let p = packs(&["010-nvim", "git"]);
    let r = resolve_pack(&p, None, &[Some("nvim".into())]).unwrap();
    assert_eq!((r.dir.as_str(), r.display.as_str()), ("010-nvim", "nvim"));
    let r = resolve_pack(&p, None, &[Some("helix".into())]).unwrap();
    assert_eq!((r.dir.as_str(), r.display.as_str()), ("helix", "helix"));
    assert_eq!(resolve_pack(&p, Some("zsh"), &[]).unwrap_err(), "pack not found: zsh");
}

#[test]
fn deploy_check_refuses_incomplete_then_clashes() {
    assert!(check_deploy_conflicts(&[claim("a", "/h/.x"), claim("b", "/h/.y")], &[]).is_ok());
    assert!(check_deploy_conflicts(&[claim("a", "/h/.x"), claim("a", "/h//.x")], &[]).is_ok());
    match check_deploy_conflicts(&[claim("a", "/h/.x"), claim("b", "/h//.x")], &[]) {
        Err(DeployConflict::CrossPack { target, first, second }) => {
            assert_eq!((target.as_str(), first.as_str(), second.as_str()), ("/h/.x", "a", "b"))
        }
        other => panic!("unexpected {other:?}"),
    }
    assert!(matches!(
        check_deploy_conflicts(&[], &["p/t.tmpl".to_string()]),
        Err(DeployConflict::Incomplete { .. })
    ));
}

#[test]
fn an_unknown_only_os_label_refuses_before_anything() {
    let (run, acts) = drive(false, vec![requested(Some("plan9"), 0)]);
    assert_eq!(acts, vec![vec!["refuse"]]);
    assert_eq!(run.phase, AdoptPhase::Finished);
}

#[test]
fn no_sources_refuse_with_no_files_specified() {
    let mut run = start(false);
    let (next, actions) = adopt_step(run, requested(None, 0));
    run = next;
    assert_eq!(run.phase, AdoptPhase::Finished);
    match &actions[..] {
        [AdoptAction::Refuse { refusal: AdoptRefusal::Message { message } }] => {
            assert_eq!(message, "no files specified")
        }
        other => panic!("unexpected {other:?}"),
    }
}

#[test]
fn a_full_run_keeps_the_promised_order() {
    let mut events = through_plan(2);
    events.push(AdoptEvent::Prepared { result: Ok(()) });
    events.push(AdoptEvent::Validated { result: Ok(()) });
    events.push(AdoptEvent::Published { result: Ok(()), keep_preparation: false });
    events.push(AdoptEvent::Replaced { failures: 0, stranded: false });
    let (run, acts) = drive(false, events);
    assert_eq!(
        acts,
        vec![
            vec!["resolve"],
            vec!["check"],
            vec!["plan"],
            vec!["prepare"],
            vec!["validate"],
            vec!["publish"],
            vec!["replace"],
            vec!["discard", "report"],
        ]
    );
    assert_eq!(run.pack_dir, "010-nvim");
    assert_eq!(run.pack_display, "nvim");
    assert_eq!(run.phase, AdoptPhase::Finished);
}

#[test]
fn a_dry_run_stops_after_validation_with_a_dry_run_report() {
    let mut events = through_plan(1);
    events.push(AdoptEvent::Prepared { result: Ok(()) });
    events.push(AdoptEvent::Validated { result: Ok(()) });
    let (_, acts) = drive(true, events);
    assert_eq!(acts.last().unwrap(), &vec!["discard", "report"]);
    assert!(acts.iter().flatten().all(|a| *a != "publish" && *a != "replace"));
}

#[test]
fn a_refused_validation_discards_the_preparation_first() {
    let mut events = through_plan(1);
    events.push(AdoptEvent::Prepared { result: Ok(()) });
    events.push(AdoptEvent::Validated {
        result: Err(DeployConflict::CrossPack { target: "t".into(), first: "a".into(), second: "b".into() }),
    });
    let (run, acts) = drive(false, events);
    assert_eq!(acts.last().unwrap(), &vec!["discard", "refuse"]);
    assert!(!run.prepared && !run.published);
}

#[test]
fn a_planning_conflict_refuses_without_a_preparation() {
    let mut events = through_plan(1);
    events.pop();
    events.push(AdoptEvent::Planned { result: Err(PlanRefusal::Conflict { path: "/d/x".into() }) });
    let (_, acts) = drive(false, events);
    assert_eq!(acts.last().unwrap(), &vec!["refuse"]);
}

#[test]
fn stranded_content_keeps_the_preparation() {
    let mut events = through_plan(1);
    events.push(AdoptEvent::Prepared { result: Ok(()) });
    events.push(AdoptEvent::Validated { result: Ok(()) });
    events.push(AdoptEvent::Published { result: Ok(()), keep_preparation: false });
    events.push(AdoptEvent::Replaced { failures: 1, stranded: true });
    let (run, acts) = drive(false, events);
    assert_eq!(acts.last().unwrap(), &vec!["report"]);
    assert!(run.prepared);
}

#[test]
fn nothing_planned_reports_without_preparing() {
    let (_, acts) = drive(false, through_plan(0));
    assert_eq!(acts.last().unwrap(), &vec!["report"]);
}

#[test]
fn an_ignored_pack_is_refused() {
    let mut events = through_plan(1);
    events.truncate(2);
    events.push(AdoptEvent::PackChecked { dir_refusal: None, ignored: true, exists: true });
    let mut run = start(false);
    let mut last = Vec::new();
    for e in events {
        let (next, actions) = adopt_step(run, e);
        run = next;
        last = actions;
    }
    assert!(matches!(&last[..], [AdoptAction::Refuse { refusal: AdoptRefusal::PackIgnored { pack } }] if pack == "nvim"));
}

#[test]
fn a_failed_inference_refuses_pack_resolution() {
    let inferred = vec![
        ("/x/nvim/init.lua".to_string(), infer("/x/nvim/init.lua", false)),
        ("/x/loose.toml".to_string(), infer("/x/loose.toml", false)),
    ];
    let err = resolve_pack_for_sources(&packs(&["nvim"]), None, &inferred).unwrap_err();
    assert!(err.starts_with("refusing to adopt /x/loose.toml: loose file directly under $XDG_CONFIG_HOME"));
    assert!(natural_packs(&inferred).is_err());
    // With --into, inference is not consulted.
    let r = resolve_pack_for_sources(&packs(&["nvim"]), Some("nvim"), &inferred).unwrap();
    assert_eq!(r.dir, "nvim");
}

#[test]
fn agreeing_inferences_resolve_to_the_existing_pack() {
    let inferred = vec![
        ("/x/nvim/init.lua".to_string(), infer("/x/nvim/init.lua", false)),
        ("/x/nvim/lua".to_string(), infer("/x/nvim/lua", true)),
    ];
    let r = resolve_pack_for_sources(&packs(&["010-nvim"]), None, &inferred).unwrap();
    assert_eq!((r.dir.as_str(), r.display.as_str()), ("010-nvim", "nvim"));
}

fn context() -> PlanContext {
    PlanContext {
        pack_override: None,
        only_os: None,
        ignore: EffectiveIgnore { patterns: Vec::new(), layer: IgnoreLayer::Builtin },
        gates: GateTable::with_builtins(),
        host: HostFacts { os: "linux".into(), arch: "x86_64".into(), hostname: None, username: None },
        pack: "nvim".into(),
        pack_path: "/dots/nvim".into(),
        force: false,
        data_dir: "/data".into(),
        dotfiles_root: "/dots".into(),
    }
}

fn facts(abs: &str, is_dir: bool, link: Option<(&str, &str)>) -> SourceFacts {
    SourceFacts {
        abs: abs.into(),
        link: link.map(|(a, b)| (a.to_string(), b.to_string())),
        is_dir,
        inferred: infer(abs, is_dir),
        children: Vec::new(),
        dest_exists: false,
    }
}

#[test]
fn planning_skips_adopted_refuses_failed_and_plans_the_rest() {
    let cx = context();
    let mut st = PlanState { plans: Vec::new(), skipped: Vec::new(), left: Vec::new() };
    // Already managed: skipped, even though inference would fail.
    let adopted = facts("/x/loose.toml", false, Some(("/data/links/x", "/data/links/x")));
    assert!(plan_step(&mut st, &cx, &adopted).is_ok());
    assert_eq!(st.skipped.len(), 1);
    // A single entry.
    assert!(plan_step(&mut st, &cx, &facts("/x/nvim/init.lua", false, None)).is_ok());
    assert_eq!(st.plans.len(), 1);
    assert_eq!(st.plans[0].in_pack, "init.lua");
    // A failed inference refuses.
    match plan_step(&mut st, &cx, &facts("/x/loose.toml", false, None)) {
        Err(PlanRefusal::Refused { message }) => assert!(message.starts_with("refusing to adopt /x/loose.toml: ")),
        other => panic!("unexpected {other:?}"),
    }
}

#[test]
fn planning_expands_a_pack_root_directory() {
    let cx = context();
    let mut st = PlanState { plans: Vec::new(), skipped: Vec::new(), left: Vec::new() };
    let mut f = facts("/x/nvim", true, None);
    f.children = vec![
        dodot::adopt::ChildFacts { name: "init.lua".into(), is_dir: false, dest_exists: false },
        dodot::adopt::ChildFacts { name: ".netrwhist".into(), is_dir: false, dest_exists: false },
    ];
    assert!(plan_step(&mut st, &cx, &f).is_ok());
    assert_eq!(st.plans.len(), 1);
    assert_eq!(st.left.len(), 1);
    assert_eq!(st.left[0].name, "/x/nvim/.netrwhist");
}
