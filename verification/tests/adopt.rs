use dodot::adopt::{
    already_adopted_message, check_overlaps, child_in_pack, entry_refusal, failure_note,
    in_pack_for_source, no_adoptable_children, plan_children, plan_source, plist_filters_tip,
    resolve_inferred_pack, ChildFacts, EntryRefusal, PlanRefusal, PlannedEntry, Skipped,
};
use dodot::classify::{EffectiveIgnore, IgnoreLayer, SkipRule};
use dodot::gates::{GateTable, HostFacts};
use dodot::infer::{infer_target, InferredTarget};

fn infer(src: &str, is_dir: bool) -> InferredTarget {
    infer_target(src, is_dir, "/u", "/x", "/u/Library/Application Support", &[], false).unwrap()
}

fn ignore(patterns: &[&str]) -> EffectiveIgnore {
    EffectiveIgnore {
        patterns: patterns.iter().map(|p| p.to_string()).collect(),
        layer: IgnoreLayer::Builtin,
    }
}

fn linux() -> HostFacts {
    HostFacts {
        os: "linux".into(),
        arch: "x86_64".into(),
        hostname: None,
        username: None,
    }
}

fn child(name: &str, is_dir: bool, dest_exists: bool) -> ChildFacts {
    ChildFacts {
        name: name.into(),
        is_dir,
        dest_exists,
    }
}

fn entry(source: &str, in_pack: &str) -> PlannedEntry {
    PlannedEntry {
        source: source.into(),
        in_pack: in_pack.into(),
    }
}

#[test]
fn inferred_pack_agrees_on_one_name() {
    let r = resolve_inferred_pack(&[Some("nvim".into()), None, Some("nvim".into())]);
    assert_eq!(r, Ok("nvim".to_string()));
}

#[test]
fn inferred_pack_without_any_name_asks_for_into() {
    let r = resolve_inferred_pack(&[None, None]);
    assert_eq!(
        r,
        Err("could not infer a pack name for 2 source(s); pass --into <pack>".to_string())
    );
}

#[test]
fn inferred_packs_that_disagree_are_listed_sorted() {
    let r = resolve_inferred_pack(&[Some("zsh".into()), Some("nvim".into())]);
    assert_eq!(
        r,
        Err("sources infer different packs (nvim, zsh); split into separate adopt invocations or pass --into <pack> to force a single destination".to_string())
    );
}

#[test]
fn rerouted_source_takes_the_explicit_prefix_and_gate_dir() {
    let t = infer("/x/nvim/init.lua", false);
    assert_eq!(in_pack_for_source(&t, None, None), "init.lua");
    assert_eq!(in_pack_for_source(&t, Some("nvim"), None), "init.lua");
    assert_eq!(in_pack_for_source(&t, Some("editor"), None), "_xdg/nvim/init.lua");
    assert_eq!(in_pack_for_source(&t, None, Some("darwin")), "_darwin/init.lua");
}

#[test]
fn expanded_child_paths_follow_the_override() {
    let t = infer("/x/nvim", true);
    assert_eq!(child_in_pack(&t, "init.lua", None, None), "init.lua");
    assert_eq!(child_in_pack(&t, "init.lua", Some("editor"), None), "_xdg/nvim/init.lua");
    assert_eq!(child_in_pack(&t, "lua", None, Some("linux")), "_linux/lua");
}

#[test]
fn nested_sources_are_refused() {
    let plans = vec![entry("/x/nvim", "nvim"), entry("/x/nvim/lua", "lua2")];
    assert_eq!(
        check_overlaps(&plans),
        Err("/x/nvim contains /x/nvim/lua; adopt the outer one alone — adopting a directory already carries its contents".to_string())
    );
}

#[test]
fn nested_pack_paths_are_refused() {
    let plans = vec![entry("/x/a/lua", "_xdg/other/lua"), entry("/x/b/other", "_xdg/other")];
    assert_eq!(
        check_overlaps(&plans),
        Err("/x/b/other and /x/a/lua would land at _xdg/other and _xdg/other/lua in the pack, one inside the other; adopt them in one run only if their pack paths don't nest, or adopt them separately".to_string())
    );
}

#[test]
fn siblings_do_not_overlap() {
    let plans = vec![entry("/x/nvim/a", "a"), entry("/x/nvim/ab", "ab")];
    assert_eq!(check_overlaps(&plans), Ok(()));
}

#[test]
fn occupied_destination_needs_force() {
    let r = entry_refusal(&[], "/d/nvim/init.lua", "init.lua", true, false);
    assert!(matches!(r, Some(EntryRefusal::DestinationOccupied { path }) if path == "/d/nvim/init.lua"));
    assert!(entry_refusal(&[], "/d/nvim/init.lua", "init.lua", true, true).is_none());
}

#[test]
fn two_entries_at_one_pack_path_are_refused() {
    let r = entry_refusal(&["/d/nvim/init.lua".to_string()], "/d/nvim/init.lua", "init.lua", false, false);
    assert!(matches!(r, Some(EntryRefusal::SamePackPath { message })
        if message == "two sources produce the same pack path 'init.lua'; adopt them separately"));
}

#[test]
fn symlink_into_data_dir_is_already_managed() {
    let m = already_adopted_message("/u/.vimrc", "/data/links/vim", "/data/links/vim", "/data", "/dots", "vim");
    assert_eq!(m.as_deref(), Some("skipped: /u/.vimrc is already managed by dodot (-> /data/links/vim)"));
}

#[test]
fn direct_symlink_into_pack_points_at_up() {
    let m = already_adopted_message("/u/.vimrc", "../dots/vim/vimrc", "/dots/vim/vimrc", "/data", "/dots", "vim");
    assert_eq!(
        m.as_deref(),
        Some("skipped: /u/.vimrc is a direct symlink to pack source (-> ../dots/vim/vimrc); run `dodot up vim` to upgrade it to dodot's full chain")
    );
    assert!(already_adopted_message("/u/.vimrc", "/etc/vimrc", "/etc/vimrc", "/data", "/dots", "vim").is_none());
}

#[test]
fn expansion_plans_adoptable_children_and_leaves_the_rest() {
    let t = infer("/x/nvim", true);
    let mut plans = Vec::new();
    let kids = vec![child("init.lua", false, false), child(".netrwhist", false, false), child("lua", true, false)];
    let left = plan_children(
        &mut plans, &t, "/x/nvim", &kids, None, None, &ignore(&[]), &GateTable::with_builtins(),
        &linux(), "nvim", "/dots/nvim", false,
    )
    .unwrap();
    let planned: Vec<(String, String)> = plans.iter().map(|p| (p.source.clone(), p.in_pack.clone())).collect();
    assert_eq!(
        planned,
        vec![
            ("/x/nvim/init.lua".to_string(), "init.lua".to_string()),
            ("/x/nvim/lua".to_string(), "lua".to_string()),
        ]
    );
    assert_eq!(left.len(), 1);
    assert_eq!(left[0].name, "/x/nvim/.netrwhist");
    assert!(matches!(&left[0].rule, SkipRule::Hidden { name } if name == ".netrwhist"));
}

#[test]
fn expansion_refuses_a_reserved_child() {
    let t = infer("/x/nvim", true);
    let mut plans = Vec::new();
    let kids = vec![child("init.lua", false, false), child(".dodotignore", false, false)];
    let r = plan_children(
        &mut plans, &t, "/x/nvim", &kids, None, None, &ignore(&[]), &GateTable::with_builtins(),
        &linux(), "nvim", "/dots/nvim", false,
    );
    match r {
        Err(PlanRefusal::Refused { message }) => assert_eq!(
            message,
            "refusing to adopt /x/nvim/.dodotignore: `.dodotignore` is the marker that hides a pack from dodot. Adopting one into a pack would hide the whole pack rather than add a managed file. Rename it if you want it deployed."
        ),
        other => panic!("unexpected {other:?}"),
    }
}

#[test]
fn expansion_with_nothing_adoptable_is_refused() {
    let t = infer("/x/nvim", true);
    let mut plans = Vec::new();
    let kids = vec![child(".cache", true, false)];
    let r = plan_children(
        &mut plans, &t, "/x/nvim", &kids, None, None, &ignore(&[]), &GateTable::with_builtins(),
        &linux(), "nvim", "/dots/nvim", false,
    );
    let expected = no_adoptable_children(
        "/x/nvim",
        &[Skipped { name: ".cache".into(), rule: SkipRule::Hidden { name: ".cache".into() } }],
        "nvim",
    );
    assert!(expected.starts_with("refusing to adopt /x/nvim: expanding this directory found no adoptable entries, its only child is skipped by a discovery rule:"));
    match r {
        Err(PlanRefusal::Refused { message }) => assert_eq!(message, expected),
        other => panic!("unexpected {other:?}"),
    }
}

#[test]
fn expansion_stops_at_an_occupied_destination() {
    let t = infer("/x/nvim", true);
    let mut plans = Vec::new();
    let kids = vec![child("init.lua", false, true)];
    let r = plan_children(
        &mut plans, &t, "/x/nvim", &kids, None, None, &ignore(&[]), &GateTable::with_builtins(),
        &linux(), "nvim", "/dots/nvim", false,
    );
    assert!(matches!(r, Err(PlanRefusal::Conflict { path }) if path == "/dots/nvim/init.lua"));
}

#[test]
fn empty_directory_expansion_is_refused() {
    let t = infer("/x/nvim", true);
    let mut plans = Vec::new();
    let r = plan_children(
        &mut plans, &t, "/x/nvim", &[], None, None, &ignore(&[]), &GateTable::with_builtins(),
        &linux(), "nvim", "/dots/nvim", false,
    );
    match r {
        Err(PlanRefusal::Refused { message }) => assert_eq!(
            message,
            "refusing to adopt /x/nvim: expanding this directory found no adoptable entries — it has no children."
        ),
        other => panic!("unexpected {other:?}"),
    }
}

#[test]
fn typed_source_joins_the_plan() {
    let mut plans = vec![entry("/u/.zshrc", "home.zshrc")];
    let r = plan_source(
        &mut plans, "/u/.vimrc", "home.vimrc", false, false, &ignore(&[]),
        &GateTable::with_builtins(), &linux(), "vim", "/dots/vim", false,
    );
    assert!(r.is_ok());
    assert_eq!(plans.len(), 2);
    assert_eq!(plans[1].source, "/u/.vimrc");
    assert_eq!(plans[1].in_pack, "home.vimrc");
}

#[test]
fn typed_source_the_scan_would_skip_is_refused() {
    let mut plans = Vec::new();
    let r = plan_source(
        &mut plans, "/x/nvim/notes.bak", "notes.bak", false, false, &ignore(&["*.bak"]),
        &GateTable::with_builtins(), &linux(), "nvim", "/dots/nvim", false,
    );
    match r {
        Err(PlanRefusal::Refused { message }) => assert!(message.starts_with(
            "refusing to adopt /x/nvim/notes.bak: it would land at `notes.bak` in pack nvim, where the pack scan reads `notes.bak` and skips it"
        )),
        other => panic!("unexpected {other:?}"),
    }
    assert!(plans.is_empty());
}

#[test]
fn typed_source_colliding_with_a_planned_one_is_refused() {
    let mut plans = vec![entry("/a/init.lua", "init.lua")];
    let r = plan_source(
        &mut plans, "/b/init.lua", "init.lua", false, false, &ignore(&[]),
        &GateTable::with_builtins(), &linux(), "nvim", "/dots/nvim", false,
    );
    assert!(matches!(r, Err(PlanRefusal::Refused { message })
        if message == "two sources produce the same pack path 'init.lua'; adopt them separately"));
}

#[test]
fn failure_note_says_whether_the_pack_was_restored() {
    assert_eq!(
        failure_note("/u/.vimrc", "permission denied", false),
        "adopt failed: /u/.vimrc: permission denied — its pack entry was taken back out"
    );
    assert_eq!(
        failure_note("/u/.vimrc", "permission denied", true),
        "adopt failed: /u/.vimrc: permission denied — putting the pack back the way it was failed too"
    );
}

#[test]
fn plist_tip_only_when_filters_are_missing() {
    assert!(plist_filters_tip(true, Some(false)).is_some());
    assert!(plist_filters_tip(true, Some(true)).is_none());
    assert!(plist_filters_tip(true, None).is_none());
    assert!(plist_filters_tip(false, Some(false)).is_none());
}

#[test]
fn each_source_links_to_its_pack_entry() {
    let plans = vec![entry("/u/.vimrc", "home.vimrc"), entry("/x/nvim/lua", "lua")];
    let t = dodot::adopt::symlink_targets(&plans, "/dots/vim");
    assert_eq!(
        t,
        vec![
            ("/u/.vimrc".to_string(), "/dots/vim/home.vimrc".to_string()),
            ("/x/nvim/lua".to_string(), "/dots/vim/lua".to_string()),
        ]
    );
}
