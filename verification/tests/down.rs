use dodot::display::DisplayPack;
use dodot::down::{
    build_dry_run_display, down, down_message, orphans_removed_warning, remaining_orphans,
    repo_filter_names, selected_orphans, HandlerState,
};

fn strings(v: &[&str]) -> Vec<String> {
    v.iter().map(|s| s.to_string()).collect()
}

#[test]
fn filter_names_for_orphans_are_not_looked_up_in_the_repo() {
    let names = strings(&["vim", "old", "zsh"]);
    let orphans = strings(&["020-old"]);
    assert_eq!(repo_filter_names(&names, &orphans), strings(&["vim", "zsh"]));
}

#[test]
fn orphans_are_selected_by_directory_or_display_name() {
    let orphans = strings(&["010-gone", "stale"]);
    assert_eq!(selected_orphans(None, &orphans), orphans);
    let filter = strings(&["gone"]);
    assert_eq!(selected_orphans(Some(&filter), &orphans), strings(&["010-gone"]));
    let filter = strings(&["stale", "vim"]);
    assert_eq!(selected_orphans(Some(&filter), &orphans), strings(&["stale"]));
    assert_eq!(
        remaining_orphans(&orphans, &strings(&["stale"])),
        strings(&["010-gone"])
    );
}

#[test]
fn the_removal_warning_names_display_names() {
    assert_eq!(
        orphans_removed_warning(&strings(&["010-gone"]), "~/dots"),
        "removed state for pack no longer in ~/dots: gone"
    );
    assert_eq!(
        orphans_removed_warning(&strings(&["a", "020-b"]), "~/dots"),
        "removed state for packs no longer in ~/dots: a, b"
    );
}

#[test]
fn a_dry_run_lists_each_symlink_entry_and_each_other_handler() {
    let handlers = vec![
        HandlerState { handler: "symlink".into(), entries: strings(&["vimrc", "colors"]) },
        HandlerState { handler: "shell".into(), entries: Vec::new() },
    ];
    let pack = build_dry_run_display("vim", &handlers);
    assert_eq!(pack.name, "vim");
    let rows: Vec<(&str, &str, &str)> = pack
        .files
        .iter()
        .map(|f| (f.name.as_str(), f.handler.as_str(), f.symbol.as_str()))
        .collect();
    assert_eq!(
        rows,
        vec![("vimrc", "symlink", "➞"), ("colors", "symlink", "➞"), ("shell", "shell", "⚙")]
    );
    assert!(pack.files.iter().all(|f| f.status_label == "[dry-run] would remove"));
}

#[test]
fn down_reports_what_it_did() {
    assert_eq!(down_message(true), "Packs deactivated.");
    assert_eq!(down_message(false), "Nothing to deactivate.");
    let packs = vec![DisplayPack { name: "vim".into(), files: Vec::new() }];
    let r = down(true, &[false, false], 0, 0, packs, strings(&["w"]), strings(&["ignored"]));
    assert_eq!(r.message.as_deref(), Some("Nothing to deactivate."));
    assert!(r.dry_run);
    assert_eq!(r.packs.len(), 1);
    assert_eq!(r.warnings, strings(&["w"]));
    assert_eq!(r.ignored_packs, strings(&["ignored"]));
    assert!(!r.failed);
}

#[test]
fn any_state_orphan_or_ignored_leftover_counts_as_removal() {
    let none: Vec<DisplayPack> = Vec::new();
    let msg = |has: &[bool], orphans: usize, ignored: usize| {
        down(false, has, orphans, ignored, Vec::new(), Vec::new(), Vec::new()).message.unwrap()
    };
    assert_eq!(msg(&[false, true], 0, 0), "Packs deactivated.");
    assert_eq!(msg(&[], 1, 0), "Packs deactivated.");
    assert_eq!(msg(&[false], 0, 2), "Packs deactivated.");
    assert_eq!(msg(&[false], 0, 0), "Nothing to deactivate.");
    assert!(none.is_empty());
}

#[test]
fn a_dry_run_writes_nothing_and_says_what_a_real_run_would() {
    let w = dodot::down::down_writes(true, 3);
    assert!(!w.remove_pack_state && !w.sweep_orphans && !w.sweep_ignored);
    assert!(!w.rewrite_init_script && !w.write_deployment_map);
    let real = dodot::down::down_writes(false, 0);
    assert!(real.remove_pack_state && !real.sweep_orphans && real.rewrite_init_script);
    let listing = vec![dodot::down::DryRunPack {
        display_name: "vim".into(),
        handlers: vec![
            dodot::down::HandlerState { handler: "symlink".into(), entries: vec!["vimrc".into()] },
            dodot::down::HandlerState { handler: "shell".into(), entries: Vec::new() },
        ],
    }];
    let r = dodot::down::down_dry_run(&listing, &[true], 0, 0, Vec::new(), Vec::new());
    let real = down(false, &[true], 0, 0, Vec::new(), Vec::new(), Vec::new());
    assert!(r.dry_run);
    assert_eq!(r.message, real.message);
    assert_eq!(r.packs[0].files.len(), 2);
    for f in &r.packs[0].files {
        assert_eq!(f.status, "pending");
        assert_eq!(f.status_label, "[dry-run] would remove");
        assert_eq!(f.description, "state would be removed");
    }
}
