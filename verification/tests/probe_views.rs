use dodot::probe::{
    count_nodes, deployment_map, shell_init, shell_init_aggregate, shell_init_history,
    show_data_dir, summary, total_size, AggregatedTarget, DeploymentMapEntry, HistoryEntry,
    LatestProfile, ProbeResult, ProfileGroup, ProfileRow, TreeNode,
};
use dodot::profile_runs::{
    parse_filter, shell_init_errors, shell_init_filter, Profile, ProfileEntry, ProfileError,
};

fn entry(pack: &str, handler: &str, target: &str, us: u64, exit: i32) -> ProfileEntry {
    ProfileEntry {
        pack: pack.into(),
        handler: handler.into(),
        target: target.into(),
        duration_us: us,
        exit_status: exit,
    }
}

fn profiles() -> Vec<Profile> {
    vec![
        Profile {
            filename: "profile-1700000100.tsv".into(),
            unix_ts: 1_700_000_100,
            entries: vec![
                entry("vim", "shell", "/d/vim/env.sh", 900, 0),
                entry("git", "shell", "/d/git/aliases.sh", 1500, 2),
            ],
            errors: vec![ProfileError {
                target: "/d/git/aliases.sh".into(),
                message: "line 3: bad\r\nline 4: worse\n\n".into(),
            }],
        },
        Profile {
            filename: "profile-1700000000.tsv".into(),
            unix_ts: 1_700_000_000,
            entries: vec![
                entry("git", "shell", "/d/git/aliases.sh", 1200, 1),
                entry("git", "path", "/d/git/bin", 10, 0),
                entry("vim", "shell", "/d/vim/env.sh", 800, 3),
            ],
            errors: Vec::new(),
        },
    ]
}

#[test]
fn the_summary_lists_the_subcommands() {
    match summary("/data") {
        ProbeResult::Summary { data_dir, available } => {
            assert_eq!(data_dir, "/data");
            let names: Vec<&str> = available.iter().map(|s| s.name).collect();
            assert_eq!(names, vec!["deployment-map", "shell-init", "show-data-dir"]);
        }
        other => panic!("unexpected {other:?}"),
    }
}

#[test]
fn the_deployment_map_shortens_paths_in_order() {
    let entries = vec![
        DeploymentMapEntry {
            pack: "vim".into(),
            handler: "symlink".into(),
            kind: "symlink".into(),
            source: "/home/a/dots/vim/vimrc".into(),
            datastore: "/home/a/.local/share/dodot/vimrc".into(),
        },
        DeploymentMapEntry {
            pack: "git".into(),
            handler: "install".into(),
            kind: "sentinel".into(),
            source: String::new(),
            datastore: "/var/dodot/x".into(),
        },
    ];
    match deployment_map(entries, "/home/a", "/data", "/data/map.tsv") {
        ProbeResult::DeploymentMap { map_path, entries, .. } => {
            assert_eq!(map_path, "/data/map.tsv");
            assert_eq!(entries[0].source, "~/dots/vim/vimrc");
            assert_eq!(entries[0].datastore, "~/.local/share/dodot/vimrc");
            assert_eq!(entries[1].source, "—");
            assert_eq!(entries[1].datastore, "/var/dodot/x");
        }
        other => panic!("unexpected {other:?}"),
    }
}

#[test]
fn shell_init_without_a_profile_is_a_no_data_view() {
    match shell_init(true, None, "/p", Some(1_700_000_000)) {
        ProbeResult::ShellInit(v) => {
            assert!(!v.has_profile && v.groups.is_empty() && !v.stale);
            assert_eq!(v.last_up_when, "2023-11-14 22:13");
        }
        other => panic!("unexpected {other:?}"),
    }
    let latest = LatestProfile {
        filename: "profile-1700000000.tsv".into(),
        unix_ts: 1_700_000_000,
        shell: "zsh 5.9".into(),
        groups: vec![ProfileGroup {
            pack: "vim".into(),
            handler: "shell".into(),
            rows: vec![ProfileRow { target: "/d/vim/env.sh".into(), duration_us: 1500, exit_status: 1 }],
            group_total_us: 1500,
        }],
        user_total_us: 1500,
        framing_us: 10,
        total_us: 1510,
    };
    match shell_init(false, Some(latest), "/p", Some(1_700_000_100)) {
        ProbeResult::ShellInit(v) => {
            assert!(v.has_profile && v.stale);
            assert_eq!(v.groups[0].rows[0].target, "env.sh");
            assert_eq!(v.groups[0].rows[0].duration_label, "1.5 ms");
            assert_eq!(v.groups[0].rows[0].status_class, "error");
            assert_eq!(v.profile_when, "2023-11-14 22:13");
        }
        other => panic!("unexpected {other:?}"),
    }
}

#[test]
fn aggregate_and_history_rows_keep_their_order() {
    let targets = vec![AggregatedTarget {
        pack: "vim".into(),
        handler: "shell".into(),
        target: "/d/vim/env.sh".into(),
        p50_us: 900,
        p95_us: 1200,
        max_us: 2_500_000,
        runs_seen: 7,
        runs_total: 10,
    }];
    match shell_init_aggregate(true, 10, 4, 0, targets, "/p", None) {
        ProbeResult::ShellInitAggregate(v) => {
            assert_eq!((v.runs, v.requested_runs), (4, 10));
            assert_eq!(v.rows[0].seen_label, "7/10");
            assert_eq!(v.rows[0].max_label, "2.5 s");
            assert_eq!(v.latest_profile_when, "");
        }
        other => panic!("unexpected {other:?}"),
    }
    let history = vec![HistoryEntry {
        filename: "f".into(),
        unix_ts: 0,
        shell: "bash".into(),
        total_us: 999,
        user_total_us: 5,
        failed_entries: 1,
        entry_count: 3,
    }];
    match shell_init_history(true, 0, history, "/p", None) {
        ProbeResult::ShellInitHistory(v) => {
            assert_eq!(v.rows[0].when, "");
            assert_eq!(v.rows[0].total_label, "999 µs");
        }
        other => panic!("unexpected {other:?}"),
    }
}

#[test]
fn the_data_dir_tree_counts_nodes_and_bytes() {
    let leaf = |name: &str, size: u64| TreeNode {
        name: name.into(),
        path: format!("/d/{name}"),
        kind: "file".into(),
        size: Some(size),
        link_target: None,
        truncated_count: None,
        children: Vec::new(),
    };
    let tree = TreeNode {
        name: "dodot".into(),
        path: "/d".into(),
        kind: "dir".into(),
        size: None,
        link_target: None,
        truncated_count: None,
        children: vec![leaf("a", 512), leaf("b", 2048)],
    };
    assert_eq!(count_nodes(&tree), 3);
    assert_eq!(total_size(&tree), 2560);
    match show_data_dir("/d", &tree) {
        ProbeResult::ShowDataDir { lines, total_nodes, total_size, .. } => {
            assert_eq!((total_nodes, total_size), (3, 2560));
            assert_eq!(lines[1].prefix, "├─ ");
            assert_eq!(lines[2].prefix, "└─ ");
            assert_eq!(lines[2].annotation, "2.0 KB");
        }
        other => panic!("unexpected {other:?}"),
    }
}

#[test]
fn filters_are_tidied_and_split_into_pack_and_file() {
    assert_eq!(parse_filter("  ./git/aliases.sh/ "), ("git".to_string(), Some("aliases.sh".to_string())));
    assert_eq!(parse_filter("git"), ("git".to_string(), None));
    assert_eq!(parse_filter("git/"), ("git".to_string(), None));
    assert_eq!(parse_filter("/x"), ("/x".to_string(), None));
    assert_eq!(parse_filter("././a/b/c"), ("a".to_string(), Some("b/c".to_string())));
}

#[test]
fn the_drill_down_buckets_runs_per_target_in_key_order() {
    match shell_init_filter(true, "/p", Some(1_700_000_050), "git", &profiles()) {
        ProbeResult::ShellInitFilter(v) => {
            assert_eq!(v.filter_pack, "git");
            assert_eq!(v.filter_filename, None);
            assert_eq!(v.runs_examined, 2);
            assert!(!v.stale);
            let keys: Vec<(&str, &str)> =
                v.targets.iter().map(|t| (t.handler.as_str(), t.target.as_str())).collect();
            assert_eq!(keys, vec![("path", "/d/git/bin"), ("shell", "/d/git/aliases.sh")]);
            let aliases = &v.targets[1];
            assert_eq!(aliases.display_target, "aliases.sh");
            assert_eq!(aliases.failure_count, 2);
            assert_eq!(aliases.runs.len(), 2);
            assert_eq!(aliases.runs[0].profile_filename, "profile-1700000100.tsv");
            assert_eq!(aliases.runs[0].stderr_lines, vec!["line 3: bad", "line 4: worse"]);
            assert!(aliases.runs[1].stderr_lines.is_empty());
            assert_eq!(v.targets[0].failure_count, 0);
        }
        other => panic!("unexpected {other:?}"),
    }
    match shell_init_filter(true, "/p", None, "vim/env.sh", &profiles()) {
        ProbeResult::ShellInitFilter(v) => {
            assert_eq!(v.filter_filename.as_deref(), Some("env.sh"));
            assert_eq!(v.targets.len(), 1);
            assert_eq!(v.targets[0].runs.len(), 2);
        }
        other => panic!("unexpected {other:?}"),
    }
}

#[test]
fn the_errors_view_puts_the_most_broken_first() {
    match shell_init_errors(true, "/p", None, &profiles()) {
        ProbeResult::ShellInitErrors(v) => {
            let got: Vec<(&str, usize)> =
                v.targets.iter().map(|t| (t.target.as_str(), t.runs.len())).collect();
            assert_eq!(got, vec![("/d/git/aliases.sh", 2), ("/d/vim/env.sh", 1)]);
            assert!(v.targets.iter().all(|t| t.runs.iter().all(|r| r.status_class == "error")));
            assert_eq!(v.latest_profile_when, "2023-11-14 22:15");
        }
        other => panic!("unexpected {other:?}"),
    }
}
