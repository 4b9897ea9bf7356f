use dodot::numeric::{humanize_bytes, humanize_us};
use dodot::probe::{
    annotate, display_path, flatten_tree, format_unix_ts, into_display_entry, is_stale,
    probe_subcommands, short_target, target_matches_filter, DeploymentMapEntry, TreeNode,
};

fn home() -> String {
    "/home/alice".to_string()
}

fn node(name: &str, kind: &str, size: Option<u64>, children: Vec<TreeNode>) -> TreeNode {
    TreeNode {
        name: name.into(),
        path: format!("/{name}"),
        kind: kind.into(),
        size,
        link_target: None,
        truncated_count: None,
        children,
    }
}

#[test]
fn display_path_shortens_home() {
    assert_eq!(
        display_path("/home/alice/dotfiles/vim/rc", &home()),
        "~/dotfiles/vim/rc"
    );
}

#[test]
fn display_path_keeps_paths_outside_home() {
    assert_eq!(display_path("/opt/data", &home()), "/opt/data");
}

#[test]
fn humanize_bytes_boundaries() {
    assert_eq!(humanize_bytes(0), "0 B");
    assert_eq!(humanize_bytes(1023), "1023 B");
    assert_eq!(humanize_bytes(1024), "1.0 KB");
    assert_eq!(humanize_bytes(1024 * 1024), "1.0 MB");
    assert_eq!(humanize_bytes(1024 * 1024 * 1024), "1.0 GB");
}

#[test]
fn format_unix_ts_handles_zero_and_out_of_range() {
    assert_eq!(format_unix_ts(0), "");
    assert_eq!(format_unix_ts(1_714_000_000), "2024-04-24 23:06");
    assert_eq!(format_unix_ts(u64::MAX), "");
    assert_eq!(format_unix_ts(253_402_300_800), "");
    assert_eq!(format_unix_ts(253_402_300_799), "9999-12-31 23:59");
}

#[test]
fn into_display_entry_handles_sentinel_source() {
    let entry = DeploymentMapEntry {
        pack: "nvim".into(),
        handler: "install".into(),
        kind: "file".into(),
        source: String::new(),
        datastore: "/home/alice/.local/share/dodot/packs/nvim/install/sent".into(),
    };
    let display = into_display_entry(entry, &home());
    assert_eq!(display.source, "—");
    assert!(display.datastore.starts_with("~/"));
}

#[test]
fn tree_flattening_produces_branch_glyphs() {
    let tree = node(
        "root",
        "dir",
        None,
        vec![
            node("a", "dir", None, vec![node("aa", "file", Some(10), Vec::new())]),
            node("b", "file", Some(42), Vec::new()),
        ],
    );
    let mut lines = Vec::new();
    flatten_tree(&tree, "", true, &mut lines, true);
    assert_eq!(lines.len(), 4);
    assert_eq!(lines[0].name, "root");
    assert_eq!(lines[0].prefix, "");
    assert_eq!(lines[1].name, "a");
    assert!(lines[1].prefix.ends_with("├─ "));
    assert_eq!(lines[2].name, "aa");
    assert!(lines[2].prefix.ends_with("└─ "));
    assert!(lines[2].prefix.starts_with("│"));
    assert_eq!(lines[3].name, "b");
    assert!(lines[3].prefix.ends_with("└─ "));
    assert_eq!(lines[3].annotation, "42 B");
}

#[test]
fn annotate_symlink_with_target() {
    let mut n = node("link", "symlink", Some(20), Vec::new());
    n.link_target = Some("/target".into());
    assert_eq!(annotate(&n), "→ /target");
}

#[test]
fn annotate_broken_symlink() {
    let n = node("link", "symlink", Some(20), Vec::new());
    assert_eq!(annotate(&n), "→ (broken)");
}

#[test]
fn annotate_truncated_dir() {
    let mut n = node("deep", "dir", None, Vec::new());
    n.truncated_count = Some(7);
    assert_eq!(annotate(&n), "(… 7 more)");
}

#[test]
fn probe_subcommands_list_matches_variants() {
    let names: Vec<&str> = probe_subcommands().iter().map(|s| s.name).collect();
    assert!(names.contains(&"deployment-map"));
    assert!(names.contains(&"show-data-dir"));
}

// ── Beyond the original's cases ───────────────────────────────────

#[test]
fn humanize_bytes_agrees_with_float_formatting() {
    let mut samples: Vec<u64> = Vec::new();
    for n in 1024u64..20_000 {
        samples.push(n);
    }
    for k in 0u64..4000 {
        samples.push(1_048_576 + k * 997);
        samples.push(1_073_741_824 + k * 1_000_003);
        samples.push(u64::MAX - k * 1_000_000_007);
        samples.push((1u64 << 53) + k * 3);
        samples.push(1_048_576 - 1 - k);
    }
    for n in samples {
        let expected = if n < 1024 {
            format!("{n} B")
        } else if n < 1024 * 1024 {
            format!("{:.1} KB", n as f64 / 1024.0)
        } else if n < 1024 * 1024 * 1024 {
            format!("{:.1} MB", n as f64 / (1024.0 * 1024.0))
        } else {
            format!("{:.1} GB", n as f64 / (1024.0 * 1024.0 * 1024.0))
        };
        assert_eq!(humanize_bytes(n), expected, "n = {n}");
    }
}

#[test]
fn humanize_us_agrees_with_float_formatting() {
    let mut samples: Vec<u64> = Vec::new();
    for n in 0u64..200_000 {
        samples.push(n);
    }
    for k in 0u64..20_000 {
        samples.push(200_000 + k * 41);
        samples.push(999_000 + k);
        samples.push(1_000_000 + k * 12_345);
        samples.push(u64::MAX - k * 987_654_321);
        samples.push((1u64 << 53) + k);
        samples.push(k * 5_000 + 5);
    }
    for us in samples {
        let trim = |s: String| s.trim_end_matches('0').trim_end_matches('.').to_string();
        let expected = if us < 1_000 {
            format!("{us} µs")
        } else if us < 1_000_000 {
            format!("{} ms", trim(format!("{:.1}", us as f64 / 1_000.0)))
        } else {
            format!("{} s", trim(format!("{:.2}", us as f64 / 1_000_000.0)))
        };
        assert_eq!(humanize_us(us), expected, "us = {us}");
    }
}

#[test]
fn humanize_examples() {
    assert_eq!(humanize_us(999), "999 µs");
    assert_eq!(humanize_us(1_234), "1.2 ms");
    assert_eq!(humanize_us(350_000), "350 ms");
    assert_eq!(humanize_us(1_400_000), "1.4 s");
    assert_eq!(humanize_us(1_000_000), "1 s");
    assert_eq!(humanize_us(1_234_567), "1.23 s");
    assert_eq!(humanize_bytes(1536), "1.5 KB");
}

#[test]
fn staleness_needs_both_times() {
    assert!(is_stale(100, Some(200)));
    assert!(!is_stale(0, Some(200)));
    assert!(!is_stale(300, Some(200)));
    assert!(!is_stale(100, None));
}

#[test]
fn filters_match_at_path_boundaries() {
    assert!(target_matches_filter("/d/git/env.sh", "env.sh"));
    assert!(!target_matches_filter("/d/git/nvenv.sh", "env.sh"));
    assert!(target_matches_filter("/d/git/sub/env.sh", "sub/env.sh"));
    assert!(!target_matches_filter("/d/git/othersub/env.sh", "sub/env.sh"));
    assert!(target_matches_filter("sub/env.sh", "sub/env.sh"));
    assert_eq!(short_target("/d/git/env.sh"), "env.sh");
}

#[test]
fn dates_cover_leap_days_and_the_epoch() {
    assert_eq!(format_unix_ts(1), "1970-01-01 00:00");
    assert_eq!(format_unix_ts(951_782_400), "2000-02-29 00:00");
    assert_eq!(format_unix_ts(1_709_164_799), "2024-02-28 23:59");
}

#[test]
fn formatted_timestamps_have_one_shape_and_sort_in_time_order() {
    assert_eq!(format_unix_ts(86_400), "1970-01-02 00:00");
    assert_eq!(format_unix_ts(119), format_unix_ts(60));
    let times: [u64; 10] = [
        1,
        59,
        60,
        86_399,
        86_400,
        951_782_400,
        1_709_164_799,
        1_714_000_000,
        1_714_000_059,
        253_402_300_799,
    ];
    for ts in times {
        let text = format_unix_ts(ts);
        let chars: Vec<char> = text.chars().collect();
        assert_eq!(chars.len(), 16);
        for (i, c) in chars.iter().enumerate() {
            match i {
                4 | 7 => assert_eq!(*c, '-'),
                10 => assert_eq!(*c, ' '),
                13 => assert_eq!(*c, ':'),
                _ => assert!(c.is_ascii_digit()),
            }
        }
    }
    for pair in times.windows(2) {
        assert!(format_unix_ts(pair[0]) <= format_unix_ts(pair[1]));
    }
    assert!(format_unix_ts(1_709_164_799) < format_unix_ts(1_714_000_000));
}
