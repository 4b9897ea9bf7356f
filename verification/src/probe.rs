//! The `probe` views: the summary of subcommands, the deployment map,
//! the data-directory tree, and the shell-startup timing reports, built
//! from what was read off disk.

use vstd::prelude::*;
use crate::numeric::{humanize_bytes, humanize_us, spec_humanize_bytes, spec_humanize_us};
use crate::paths::{file_name, file_name_of, render_home_relative, spec_render_home_relative};
use crate::text::{
    chars_eq, chars_of, contains, decimal, digit_char, ends_with, find_from, push_chars,
    push_decimal, push_str, string_of,
};

verus! {

// ── Small decisions ─────────────────────────────────────────────────

/// A profile predates the last `dodot up`: only when both times are
/// known (a zero profile time is unknown).
pub open spec fn spec_is_stale(profile_ts: u64, last_up_ts: Option<u64>) -> bool {
    match last_up_ts {
        Some(last) => profile_ts > 0 && profile_ts < last,
        None => false,
    }
}

/// Whether a profile predates the last `dodot up`.
pub fn is_stale(profile_ts: u64, last_up_ts: Option<u64>) -> (r: bool)
    ensures
        r == spec_is_stale(profile_ts, last_up_ts),
{
    match last_up_ts {
        Some(last) => profile_ts > 0 && profile_ts < last,
        None => false,
    }
}

/// The basename of a target path, or the whole text when it has none.
pub open spec fn spec_short_target(target: Seq<char>) -> Seq<char> {
    match file_name(target) {
        Some(n) => n,
        None => target,
    }
}

/// The basename of a target path, for narrow tables.
pub fn short_target(target: &str) -> (r: String)
    ensures
        r@ == spec_short_target(target@),
{
    match file_name_of(target) {
        Some(n) => n,
        None => String::from_str(target),
    }
}

/// A target matches a filter: a bare name matches the target's file
/// name; a subpath matches a target ending in `/<subpath>`, or equal to it.
pub open spec fn spec_target_matches(target: Seq<char>, filter: Seq<char>) -> bool {
    if !contains(filter, seq!['/']) {
        file_name(target) == Some(filter)
    } else {
        ends_with(target, seq!['/'] + filter) || target == filter
    }
}

/// Whether a profile target matches a file-name or subpath filter.
pub fn target_matches_filter(target: &str, filter: &str) -> (r: bool)
    ensures
        r == spec_target_matches(target@, filter@),
{
    let f = chars_of(filter);
    let slash = chars_of("/");
    proof {
        reveal_strlit("/");
        assert(slash@ =~= seq!['/']);
    }
    if find_from(f.as_slice(), slash.as_slice(), 0).is_none() {
        proof {
            if contains(filter@, seq!['/']) {
                let i = choose|i: int| crate::text::occurs_at(filter@, seq!['/'], i);
            }
        }
        return match file_name_of(target) {
            Some(n) => {
                let nv = chars_of(n.as_str());
                chars_eq(nv.as_slice(), f.as_slice())
            },
            None => false,
        };
    }
    let t = chars_of(target);
    let mut suffix = chars_of("/");
    push_chars(&mut suffix, f.as_slice());
    let ends = if suffix.len() <= t.len() {
        let r = crate::text::matches_at(t.as_slice(), suffix.as_slice(), t.len() - suffix.len());
        proof {
            assert(crate::text::occurs_at(t@, suffix@, t.len() - suffix.len()) == ends_with(
                t@,
                suffix@,
            ));
        }
        r
    } else {
        false
    };
    ends || chars_eq(t.as_slice(), f.as_slice())
}

// ── Dates ───────────────────────────────────────────────────────────

/// The latest timestamp shown as a date: 9999-12-31T23:59:59 UTC.
pub open spec fn max_reasonable_ts() -> u64 {
    253_402_300_799
}

/// The proleptic Gregorian (year, month, day) of a day count since
/// 1970-01-01, by the era arithmetic of `civil_from_days`.
pub open spec fn spec_civil_from_days(z0: int) -> (int, int, int) {
    let z = z0 + 719468;
    let era = (if z >= 0 {
        z
    } else {
        z - 146096
    }) / 146097;
    let doe = z - era * 146097;
    let yoe = (doe - doe / 1460 + doe / 36524 - doe / 146096) / 365;
    let y = yoe + era * 400;
    let doy = doe - (365 * yoe + yoe / 4 - yoe / 100);
    let mp = (5 * doy + 2) / 153;
    let d = doy - (153 * mp + 2) / 5 + 1;
    let m = if mp < 10 {
        mp + 3
    } else {
        mp - 9
    };
    (if m <= 2 {
        y + 1
    } else {
        y
    }, m, d)
}

/// `n` written with at least `width` digits, zero-padded on the left.
pub open spec fn zero_pad(n: nat, width: nat) -> Seq<char> {
    let d = decimal(n);
    if d.len() >= width {
        d
    } else {
        Seq::new((width - d.len()) as nat, |i: int| '0') + d
    }
}

/// A timestamp as `YYYY-MM-DD HH:MM` (UTC), or empty for `0` (unknown)
/// and for anything past the year 9999.
pub open spec fn spec_format_unix_ts(ts: u64) -> Seq<char> {
    if ts == 0 || ts > max_reasonable_ts() {
        Seq::<char>::empty()
    } else {
        let days = ts / 86400;
        let secs = ts % 86400;
        let (y, m, d) = spec_civil_from_days(days as int);
        zero_pad(y as nat, 4) + seq!['-'] + zero_pad(m as nat, 2) + seq!['-'] + zero_pad(
            d as nat,
            2,
        ) + seq![' '] + zero_pad((secs / 3600) as nat, 2) + seq![':'] + zero_pad(
            ((secs % 3600) / 60) as nat,
            2,
        )
    }
}

/// The day, hour and minute of a timestamp depend on its minute alone.
pub(crate) proof fn lemma_minute_parts(a: int)
    requires
        a >= 0,
    ensures
        a / 86400 == (a / 60) / 1440,
        (a % 86400) / 3600 == ((a / 60) % 1440) / 60,
        ((a % 86400) % 3600) / 60 == ((a / 60) % 1440) % 60,
{
    vstd::arithmetic::div_mod::lemma_div_denominator(a, 60, 1440);
    vstd::arithmetic::div_mod::lemma_mod_breakdown(a, 60, 1440);
    let k = (a / 60) % 1440;
    let r = a % 60;
    let s = a % 86400;
    assert(s == 60 * k + r);
    assert(0 <= k);
    vstd::arithmetic::div_mod::lemma_fundamental_div_mod_converse(s, 60, k, r);
    vstd::arithmetic::div_mod::lemma_div_denominator(s, 60, 60);
    vstd::arithmetic::div_mod::lemma_mod_breakdown(s, 60, 60);
    let t = s % 3600;
    assert(t == 60 * (k % 60) + r);
    vstd::arithmetic::div_mod::lemma_fundamental_div_mod_converse(t, 60, k % 60, r);
    vstd::arithmetic::div_mod::lemma_fundamental_div_mod_converse(k, 60, k / 60, k % 60);
}

/// A formatted timestamp shows the minute: two timestamps in the same
/// minute (both set and in range) read the same.
pub proof fn law_format_constant_within_minute(a: u64, b: u64)
    requires
        0 < a <= max_reasonable_ts(),
        0 < b <= max_reasonable_ts(),
        a / 60 == b / 60,
    ensures
        spec_format_unix_ts(a) == spec_format_unix_ts(b),
{
    lemma_minute_parts(a as int);
    lemma_minute_parts(b as int);
}

fn push_zero_padded(v: &mut Vec<char>, n: u64, width: usize)
    ensures
        final(v)@ == old(v)@ + zero_pad(n as nat, width as nat),
{
    let d = crate::text::decimal_chars(n);
    let ghost start = old(v)@;
    if d.len() < width {
        let mut k: usize = d.len();
        while k < width
            invariant
                d.len() <= k <= width,
                v@ == start + Seq::new((k - d.len()) as nat, |i: int| '0'),
            decreases width - k,
        {
            v.push('0');
            k = k + 1;
            proof {
                assert(v@ =~= start + Seq::new((k - d.len()) as nat, |i: int| '0'));
            }
        }
    }
    push_chars(v, d.as_slice());
    proof {
        assert(final(v)@ =~= start + zero_pad(n as nat, width as nat));
    }
}

/// `civil_from_days` for the day counts a reasonable timestamp gives.
fn civil_from_days(z0: i64) -> (r: (i64, u64, u64))
    requires
        0 <= z0 <= 2_932_896,
    ensures
        (r.0 as int, r.1 as int, r.2 as int) == spec_civil_from_days(z0 as int),
        0 <= r.0 <= 10_000,
        1 <= r.1 <= 12,
        1 <= r.2 <= 31,
{
    let z = z0 + 719468;
    let era = z / 146097;
    let doe = z - era * 146097;
    assert(0 <= doe < 146097) by (nonlinear_arith)
        requires
            z >= 0,
            era == z / 146097,
            doe == z - era * 146097,
    ;
    assert(0 <= era <= 25) by (nonlinear_arith)
        requires
            0 <= z <= 3_652_364,
            era == z / 146097,
    ;
    let yoe = (doe - doe / 1460 + doe / 36524 - doe / 146096) / 365;
    assert(0 <= yoe <= 399) by (nonlinear_arith)
        requires
            0 <= doe < 146097,
            yoe == (doe - doe / 1460 + doe / 36524 - doe / 146096) / 365,
    ;
    let y = yoe + era * 400;
    let doy = doe - (365 * yoe + yoe / 4 - yoe / 100);
    assert(0 <= doy <= 365) by (nonlinear_arith)
        requires
            0 <= doe < 146097,
            yoe == (doe - doe / 1460 + doe / 36524 - doe / 146096) / 365,
            doy == doe - (365 * yoe + yoe / 4 - yoe / 100),
    ;
    let mp = (5 * doy + 2) / 153;
    let d = doy - (153 * mp + 2) / 5 + 1;
    assert(0 <= mp <= 11 && 1 <= d <= 31) by (nonlinear_arith)
        requires
            0 <= doy <= 365,
            mp == (5 * doy + 2) / 153,
            d == doy - (153 * mp + 2) / 5 + 1,
    ;
    let m = if mp < 10 {
        mp + 3
    } else {
        mp - 9
    };
    let y = if m <= 2 {
        y + 1
    } else {
        y
    };
    (y, m as u64, d as u64)
}

/// Format a unix timestamp as `YYYY-MM-DD HH:MM` in UTC; empty for `0`
/// and for anything past the year 9999.
pub fn format_unix_ts(ts: u64) -> (r: String)
    ensures
        r@ == spec_format_unix_ts(ts),
{
    if ts == 0 || ts > 253_402_300_799 {
        let r = String::new();
        proof {
            assert(r@ =~= Seq::<char>::empty());
        }
        return r;
    }
    let days = ts / 86400;
    let secs = ts % 86400;
    assert(days <= 2_932_896) by (nonlinear_arith)
        requires
            ts <= 253_402_300_799,
            days == ts / 86400,
    ;
    let (y, m, d) = civil_from_days(days as i64);
    let mut v: Vec<char> = Vec::new();
    push_zero_padded(&mut v, y as u64, 4);
    v.push('-');
    push_zero_padded(&mut v, m, 2);
    v.push('-');
    push_zero_padded(&mut v, d, 2);
    v.push(' ');
    push_zero_padded(&mut v, secs / 3600, 2);
    v.push(':');
    push_zero_padded(&mut v, (secs % 3600) / 60, 2);
    proof {
        assert(v@ =~= spec_format_unix_ts(ts));
    }
    string_of(v.as_slice())
}

// ── Deployment map ──────────────────────────────────────────────────

/// One row of the deployment map as collected from the datastore.
#[derive(Debug)]
pub struct DeploymentMapEntry {
    pub pack: String,
    pub handler: String,
    /// The entry's kind, as its display word.
    pub kind: String,
    /// The source file; empty for sentinels and rendered files.
    pub source: String,
    pub datastore: String,
}

/// A deployment-map row for display: paths shortened to `~/...` under
/// the home directory.
#[derive(Debug)]
pub struct DeploymentDisplayEntry {
    pub pack: String,
    pub handler: String,
    pub kind: String,
    /// Shortened source path, or an em dash when no source backs it.
    pub source: String,
    pub datastore: String,
}

/// A path shown as `~/...` when it lies under `home`.
pub fn display_path(p: &str, home: &str) -> (r: String)
    ensures
        r@ == spec_render_home_relative(p@, home@),
{
    render_home_relative(p, home)
}

/// The display form of a deployment-map row.
pub fn into_display_entry(e: DeploymentMapEntry, home: &str) -> (r: DeploymentDisplayEntry)
    ensures
        display_entry_ok(r, e, home@),
{
    let src = chars_of(e.source.as_str());
    let source = if src.len() == 0 {
        String::from_str("—")
    } else {
        render_home_relative(e.source.as_str(), home)
    };
    let datastore = render_home_relative(e.datastore.as_str(), home);
    DeploymentDisplayEntry { pack: e.pack, handler: e.handler, kind: e.kind, source, datastore }
}

// ── Data-directory tree ─────────────────────────────────────────────

/// One node of the data-directory tree.
#[derive(Debug)]
pub struct TreeNode {
    pub name: String,
    pub path: String,
    /// `"dir"`, `"file"` or `"symlink"`.
    pub kind: String,
    pub size: Option<u64>,
    pub link_target: Option<String>,
    /// For a directory cut off at the depth limit: how many entries
    /// were not shown.
    pub truncated_count: Option<u64>,
    pub children: Vec<TreeNode>,
}

/// One line of tree output.
#[derive(Debug)]
pub struct TreeLine {
    /// Indent prefix (e.g. `"  │  ├─ "`).
    pub prefix: String,
    pub name: String,
    /// Size, link target or truncation count; empty when nothing to say.
    pub annotation: String,
}

/// What a node shows after its name.
pub open spec fn spec_annotate(node: TreeNode) -> Seq<char> {
    if node.kind@ == "dir"@ {
        match node.truncated_count {
            Some(n) => if n > 0 {
                "(… "@ + decimal(n as nat) + " more)"@
            } else {
                Seq::<char>::empty()
            },
            None => Seq::<char>::empty(),
        }
    } else if node.kind@ == "file"@ {
        match node.size {
            Some(n) => spec_humanize_bytes(n as nat),
            None => Seq::<char>::empty(),
        }
    } else if node.kind@ == "symlink"@ {
        match node.link_target {
            Some(t) => "→ "@ + t@,
            None => "→ (broken)"@,
        }
    } else {
        Seq::<char>::empty()
    }
}

fn kind_is(node: &TreeNode, k: &str) -> (r: bool)
    ensures
        r == (node.kind@ == k@),
{
    let a = chars_of(node.kind.as_str());
    let b = chars_of(k);
    chars_eq(a.as_slice(), b.as_slice())
}

/// What a node shows after its name: a directory's truncation count, a
/// file's size, a symlink's target.
pub fn annotate(node: &TreeNode) -> (r: String)
    ensures
        r@ == spec_annotate(*node),
{
    let empty = String::new();
    proof {
        assert(empty@ =~= Seq::<char>::empty());
    }
    if kind_is(node, "dir") {
        match node.truncated_count {
            Some(n) => if n > 0 {
                let mut v = chars_of("(… ");
                push_decimal(&mut v, n);
                push_str(&mut v, " more)");
                string_of(v.as_slice())
            } else {
                empty
            },
            None => empty,
        }
    } else if kind_is(node, "file") {
        match node.size {
            Some(n) => humanize_bytes(n),
            None => empty,
        }
    } else if kind_is(node, "symlink") {
        match &node.link_target {
            Some(t) => {
                let mut v = chars_of("→ ");
                push_str(&mut v, t.as_str());
                string_of(v.as_slice())
            },
            None => String::from_str("→ (broken)"),
        }
    } else {
        empty
    }
}

/// A tree line as values: prefix, name, annotation.
pub type LineView = (Seq<char>, Seq<char>, Seq<char>);

/// The lines of a subtree, depth first: the node with its branch glyph
/// (none at the root, `└─ ` for a last child, `├─ ` otherwise), then
/// its children under a prefix extended by `   ` after a last child and
/// `│  ` otherwise.
pub open spec fn spec_flatten(node: TreeNode, prefix: Seq<char>, is_last: bool, is_root: bool) -> Seq<
    LineView,
>
    decreases node, 1int,
{
    let branch = if is_root {
        Seq::<char>::empty()
    } else if is_last {
        "└─ "@
    } else {
        "├─ "@
    };
    let child_prefix = if is_root {
        Seq::<char>::empty()
    } else if is_last {
        prefix + "   "@
    } else {
        prefix + "│  "@
    };
    seq![(prefix + branch, node.name@, spec_annotate(node))] + spec_flatten_children(
        node.children@,
        child_prefix,
        0,
    )
}

/// The lines of the children from index `i` on, each flattened in turn.
pub open spec fn spec_flatten_children(children: Seq<TreeNode>, prefix: Seq<char>, i: int) -> Seq<
    LineView,
>
    decreases children, children.len() - i,
{
    if i < 0 || i >= children.len() {
        Seq::<LineView>::empty()
    } else {
        spec_flatten(children[i], prefix, i == children.len() - 1, false) + spec_flatten_children(
            children,
            prefix,
            i + 1,
        )
    }
}

pub open spec fn lines_view(v: Seq<TreeLine>) -> Seq<LineView> {
    Seq::new(v.len(), |i: int| (v[i].prefix@, v[i].name@, v[i].annotation@))
}

/// Flatten a tree into lines with box-drawing prefixes, appending them
/// to `out`.
pub fn flatten_tree(node: &TreeNode, prefix: &str, is_last: bool, out: &mut Vec<TreeLine>, is_root: bool)
    ensures
        lines_view(final(out)@) == lines_view(old(out)@) + spec_flatten(*node, prefix@, is_last, is_root),
    decreases node,
{
    let mut lp = chars_of(prefix);
    if !is_root {
        if is_last {
            push_str(&mut lp, "└─ ");
        } else {
            push_str(&mut lp, "├─ ");
        }
    } else {
        proof {
            assert(lp@ + Seq::<char>::empty() =~= lp@);
        }
    }
    let ghost start = lines_view(out@);
    let line = TreeLine { prefix: string_of(lp.as_slice()), name: node.name.clone(), annotation: annotate(node) };
    out.push(line);
    proof {
        assert(lines_view(out@) =~= start + seq![(lp@, node.name@, spec_annotate(*node))]);
    }
    let mut cp: Vec<char> = Vec::new();
    if !is_root {
        cp = chars_of(prefix);
        if is_last {
            push_str(&mut cp, "   ");
        } else {
            push_str(&mut cp, "│  ");
        }
    } else {
        proof {
            assert(cp@ =~= Seq::<char>::empty());
        }
    }
    let child_prefix = string_of(cp.as_slice());
    let ghost after_node = lines_view(out@);
    let n = node.children.len();
    let mut i: usize = 0;
    proof {
        assert(spec_flatten_children(node.children@, cp@, 0) == spec_flatten_children(
            node.children@,
            cp@,
            0,
        ));
    }
    while i < n
        invariant
            n == node.children@.len(),
            i <= n,
            child_prefix@ == cp@,
            lines_view(out@) + spec_flatten_children(node.children@, cp@, i as int) == after_node
                + spec_flatten_children(node.children@, cp@, 0),
        decreases n - i,
    {
        let ghost before = lines_view(out@);
        proof {
            assert(decreases_to!(node => node.children));
        }
        flatten_tree(&node.children[i], child_prefix.as_str(), i + 1 == n, out, false);
        proof {
            assert(spec_flatten_children(node.children@, cp@, i as int) == spec_flatten(
                node.children@[i as int],
                cp@,
                i == n - 1,
                false,
            ) + spec_flatten_children(node.children@, cp@, i + 1));
            assert(lines_view(out@) + spec_flatten_children(node.children@, cp@, i + 1) =~= before
                + spec_flatten_children(node.children@, cp@, i as int));
        }
        i = i + 1;
    }
    proof {
        assert(spec_flatten_children(node.children@, cp@, n as int) =~= Seq::<LineView>::empty());
        assert(lines_view(out@) =~= after_node + spec_flatten_children(node.children@, cp@, 0));
        assert(lines_view(out@) =~= start + spec_flatten(*node, prefix@, is_last, is_root));
    }
}

// ── The summary ─────────────────────────────────────────────────────

/// One entry in the `probe` summary listing.
#[derive(Debug, Clone, Copy)]
pub struct ProbeSubcommandInfo {
    pub name: &'static str,
    pub description: &'static str,
}

/// The probe subcommands, in the order the summary lists them.
pub fn probe_subcommands() -> (r: Vec<ProbeSubcommandInfo>)
    ensures
        r@.len() == 3,
        r@[0].name@ == "deployment-map"@,
        r@[0].description@ == "Source↔deployed map — what dodot linked where."@,
        r@[1].name@ == "shell-init"@,
        r@[1].description@ == "Per-source timings for the most recent shell startup."@,
        r@[2].name@ == "show-data-dir"@,
        r@[2].description@ == "Tree of dodot's data directory, with sizes."@,
{
    let mut v: Vec<ProbeSubcommandInfo> = Vec::new();
    v.push(
        ProbeSubcommandInfo {
            name: "deployment-map",
            description: "Source↔deployed map — what dodot linked where.",
        },
    );
    v.push(
        ProbeSubcommandInfo {
            name: "shell-init",
            description: "Per-source timings for the most recent shell startup.",
        },
    );
    v.push(
        ProbeSubcommandInfo {
            name: "show-data-dir",
            description: "Tree of dodot's data directory, with sizes.",
        },
    );
    v
}

// ── Shell-startup views ─────────────────────────────────────────────

/// One entry of a shell-init group, for display.
#[derive(Debug)]
pub struct ShellInitRow {
    pub target: String,
    pub duration_us: u64,
    pub duration_label: String,
    pub exit_status: i32,
    /// `"deployed"` for success, `"error"` for a non-zero exit.
    pub status_class: &'static str,
}

/// One (pack, handler) bucket of shell-init rows, for display.
#[derive(Debug)]
pub struct ShellInitGroup {
    pub pack: String,
    pub handler: String,
    pub rows: Vec<ShellInitRow>,
    pub group_total_us: u64,
    pub group_total_label: String,
}

/// One timed source in a grouped profile.
#[derive(Debug)]
pub struct ProfileRow {
    pub target: String,
    pub duration_us: u64,
    pub exit_status: i32,
}

/// One (pack, handler) group of a profile.
#[derive(Debug)]
pub struct ProfileGroup {
    pub pack: String,
    pub handler: String,
    pub rows: Vec<ProfileRow>,
    pub group_total_us: u64,
}

/// The status style of an exit status.
pub open spec fn status_class_of(exit_status: i32) -> Seq<char> {
    if exit_status == 0 {
        "deployed"@
    } else {
        "error"@
    }
}

fn status_class(exit_status: i32) -> (r: &'static str)
    ensures
        r@ == status_class_of(exit_status),
{
    if exit_status == 0 {
        "deployed"
    } else {
        "error"
    }
}

/// A display row matches the profile row it came from.
pub open spec fn row_ok(r: ShellInitRow, p: ProfileRow) -> bool {
    &&& r.target@ == spec_short_target(p.target@)
    &&& r.duration_us == p.duration_us
    &&& r.duration_label@ == spec_humanize_us(p.duration_us as nat)
    &&& r.exit_status == p.exit_status
    &&& r.status_class@ == status_class_of(p.exit_status)
}

/// A display group matches the profile group it came from.
pub open spec fn group_ok(g: ShellInitGroup, p: ProfileGroup) -> bool {
    &&& g.pack@ == p.pack@
    &&& g.handler@ == p.handler@
    &&& g.rows@.len() == p.rows@.len()
    &&& forall|j: int| 0 <= j < g.rows@.len() ==> row_ok(#[trigger] g.rows@[j], p.rows@[j])
    &&& g.group_total_us == p.group_total_us
    &&& g.group_total_label@ == spec_humanize_us(p.group_total_us as nat)
}

/// The display groups of a grouped profile, in order.
pub fn shell_init_groups(groups: &[ProfileGroup]) -> (r: Vec<ShellInitGroup>)
    ensures
        r@.len() == groups@.len(),
        forall|i: int| 0 <= i < groups@.len() ==> group_ok(#[trigger] r@[i], groups@[i]),
{
    let mut out: Vec<ShellInitGroup> = Vec::new();
    let mut i: usize = 0;
    while i < groups.len()
        invariant
            i <= groups@.len(),
            out@.len() == i,
            forall|k: int| 0 <= k < i ==> group_ok(#[trigger] out@[k], groups@[k]),
        decreases groups.len() - i,
    {
        let g = &groups[i];
        let mut rows: Vec<ShellInitRow> = Vec::new();
        let mut j: usize = 0;
        while j < g.rows.len()
            invariant
                j <= g.rows@.len(),
                rows@.len() == j,
                forall|k: int| 0 <= k < j ==> row_ok(#[trigger] rows@[k], g.rows@[k]),
            decreases g.rows.len() - j,
        {
            let r = &g.rows[j];
            rows.push(
                ShellInitRow {
                    target: short_target(r.target.as_str()),
                    duration_us: r.duration_us,
                    duration_label: humanize_us(r.duration_us),
                    exit_status: r.exit_status,
                    status_class: status_class(r.exit_status),
                },
            );
            j = j + 1;
        }
        out.push(
            ShellInitGroup {
                pack: g.pack.clone(),
                handler: g.handler.clone(),
                rows,
                group_total_us: g.group_total_us,
                group_total_label: humanize_us(g.group_total_us),
            },
        );
        i = i + 1;
    }
    out
}

/// One target's statistics across recent runs.
#[derive(Debug)]
pub struct AggregatedTarget {
    pub pack: String,
    pub handler: String,
    pub target: String,
    pub p50_us: u64,
    pub p95_us: u64,
    pub max_us: u64,
    pub runs_seen: u64,
    pub runs_total: u64,
}

/// One per-target aggregate row, durations humanised.
#[derive(Debug)]
pub struct ShellInitAggregateRow {
    pub pack: String,
    pub handler: String,
    pub target: String,
    pub p50_label: String,
    pub p95_label: String,
    pub max_label: String,
    pub p50_us: u64,
    pub p95_us: u64,
    pub max_us: u64,
    /// e.g. `"7/10"`.
    pub seen_label: String,
    pub runs_seen: u64,
    pub runs_total: u64,
}

/// The display row of an aggregated target.
/// An aggregate row shows the target it came from.
pub open spec fn aggregate_row_ok(r: ShellInitAggregateRow, t: AggregatedTarget) -> bool {
    &&& r.pack@ == t.pack@ && r.handler@ == t.handler@
    &&& r.target@ == spec_short_target(t.target@)
    &&& r.p50_label@ == spec_humanize_us(t.p50_us as nat)
    &&& r.p95_label@ == spec_humanize_us(t.p95_us as nat)
    &&& r.max_label@ == spec_humanize_us(t.max_us as nat)
    &&& r.p50_us == t.p50_us && r.p95_us == t.p95_us && r.max_us == t.max_us
    &&& r.seen_label@ == decimal(t.runs_seen as nat) + "/"@ + decimal(t.runs_total as nat)
    &&& r.runs_seen == t.runs_seen && r.runs_total == t.runs_total
}

pub fn into_aggregate_row(t: AggregatedTarget) -> (r: ShellInitAggregateRow)
    ensures
        aggregate_row_ok(r, t),
{
    let mut seen: Vec<char> = Vec::new();
    push_decimal(&mut seen, t.runs_seen);
    push_str(&mut seen, "/");
    push_decimal(&mut seen, t.runs_total);
    proof {
        assert(seen@ =~= decimal(t.runs_seen as nat) + "/"@ + decimal(t.runs_total as nat));
    }
    ShellInitAggregateRow {
        target: short_target(t.target.as_str()),
        p50_label: humanize_us(t.p50_us),
        p95_label: humanize_us(t.p95_us),
        max_label: humanize_us(t.max_us),
        p50_us: t.p50_us,
        p95_us: t.p95_us,
        max_us: t.max_us,
        seen_label: string_of(seen.as_slice()),
        runs_seen: t.runs_seen,
        runs_total: t.runs_total,
        pack: t.pack,
        handler: t.handler,
    }
}

/// One recent run's summary.
#[derive(Debug)]
pub struct HistoryEntry {
    pub filename: String,
    pub unix_ts: u64,
    pub shell: String,
    pub total_us: u64,
    pub user_total_us: u64,
    pub failed_entries: u64,
    pub entry_count: u64,
}

/// One per-run row of the history view.
#[derive(Debug)]
pub struct ShellInitHistoryRow {
    pub filename: String,
    pub unix_ts: u64,
    /// `YYYY-MM-DD HH:MM`, empty when the time is unknown.
    pub when: String,
    pub shell: String,
    pub total_label: String,
    pub user_total_label: String,
    pub total_us: u64,
    pub user_total_us: u64,
    pub failed_entries: u64,
    pub entry_count: u64,
}

/// The display row of one run's summary.
/// A history row shows the run summary it came from.
pub open spec fn history_row_ok(r: ShellInitHistoryRow, h: HistoryEntry) -> bool {
    &&& r.filename@ == h.filename@ && r.unix_ts == h.unix_ts && r.shell@ == h.shell@
    &&& r.when@ == spec_format_unix_ts(h.unix_ts)
    &&& r.total_label@ == spec_humanize_us(h.total_us as nat)
    &&& r.user_total_label@ == spec_humanize_us(h.user_total_us as nat)
    &&& r.total_us == h.total_us && r.user_total_us == h.user_total_us
    &&& r.failed_entries == h.failed_entries && r.entry_count == h.entry_count
}

pub fn into_history_row(h: HistoryEntry) -> (r: ShellInitHistoryRow)
    ensures
        history_row_ok(r, h),
{
    ShellInitHistoryRow {
        when: format_unix_ts(h.unix_ts),
        total_label: humanize_us(h.total_us),
        user_total_label: humanize_us(h.user_total_us),
        filename: h.filename,
        unix_ts: h.unix_ts,
        shell: h.shell,
        total_us: h.total_us,
        user_total_us: h.user_total_us,
        failed_entries: h.failed_entries,
        entry_count: h.entry_count,
    }
}

// ── Entry points ────────────────────────────────────────────────────

/// Display payload for the most recent shell-startup profile.
#[derive(Debug)]
pub struct ShellInitView {
    /// The profile's file name; empty when there is none.
    pub filename: String,
    pub shell: String,
    pub profiling_enabled: bool,
    pub has_profile: bool,
    pub groups: Vec<ShellInitGroup>,
    pub user_total_us: u64,
    pub framing_us: u64,
    pub total_us: u64,
    pub profiles_dir: String,
    /// The profile predates the last `dodot up`.
    pub stale: bool,
    pub profile_when: String,
    pub last_up_when: String,
}

/// Display payload for per-target statistics over recent runs.
#[derive(Debug)]
pub struct ShellInitAggregateView {
    /// How many profiles were loaded.
    pub runs: u64,
    /// How many were asked for.
    pub requested_runs: u64,
    pub profiling_enabled: bool,
    pub profiles_dir: String,
    pub rows: Vec<ShellInitAggregateRow>,
    pub stale: bool,
    pub latest_profile_when: String,
    pub last_up_when: String,
}

/// Display payload for the per-run history.
#[derive(Debug)]
pub struct ShellInitHistoryView {
    pub profiling_enabled: bool,
    pub profiles_dir: String,
    pub rows: Vec<ShellInitHistoryRow>,
    pub stale: bool,
    pub latest_profile_when: String,
    pub last_up_when: String,
}

/// One run of one target, for the drill-down and errors views.
#[derive(Debug)]
pub struct ShellInitFilterRun {
    /// `YYYY-MM-DD HH:MM` of the run.
    pub when: String,
    pub duration_label: String,
    pub duration_us: u64,
    pub exit_status: i32,
    /// `"deployed"` for success, `"error"` for a non-zero exit.
    pub status_class: &'static str,
    /// What the source printed to stderr, line by line.
    pub stderr_lines: Vec<String>,
    /// The profile the run was read from.
    pub profile_filename: String,
}

/// One target's runs across the examined profiles.
#[derive(Debug)]
pub struct ShellInitFilterTarget {
    pub target: String,
    /// The target's basename.
    pub display_target: String,
    pub pack: String,
    pub handler: String,
    /// The runs, newest first.
    pub runs: Vec<ShellInitFilterRun>,
    /// How many of the runs exited non-zero.
    pub failure_count: u64,
}

/// Display payload for the `<pack>[/<file>]` drill-down.
#[derive(Debug)]
pub struct ShellInitFilterView {
    pub profiling_enabled: bool,
    pub profiles_dir: String,
    /// The filter as typed, trimmed.
    pub filter: String,
    pub filter_pack: String,
    pub filter_filename: Option<String>,
    pub runs_examined: u64,
    pub targets: Vec<ShellInitFilterTarget>,
    pub stale: bool,
    pub latest_profile_when: String,
    pub last_up_when: String,
}

/// Display payload for the failures across recent runs.
#[derive(Debug)]
pub struct ShellInitErrorsView {
    pub profiling_enabled: bool,
    pub profiles_dir: String,
    pub runs_examined: u64,
    /// Targets with a failed run, most failures first.
    pub targets: Vec<ShellInitFilterTarget>,
    pub stale: bool,
    pub latest_profile_when: String,
    pub last_up_when: String,
}

/// The result of any `probe` invocation.
#[derive(Debug)]
pub enum ProbeResult {
    /// The bare `dodot probe`: the data directory and the subcommands.
    Summary { data_dir: String, available: Vec<ProbeSubcommandInfo> },
    /// The source-to-deployed map.
    DeploymentMap { data_dir: String, map_path: String, entries: Vec<DeploymentDisplayEntry> },
    /// A bounded tree of the data directory.
    ShowDataDir { data_dir: String, lines: Vec<TreeLine>, total_nodes: u64, total_size: u64 },
    ShellInit(ShellInitView),
    ShellInitAggregate(ShellInitAggregateView),
    ShellInitHistory(ShellInitHistoryView),
    ShellInitFilter(ShellInitFilterView),
    ShellInitErrors(ShellInitErrorsView),
}

/// A time shown as a date, or nothing when it is unknown.
pub open spec fn spec_when_or_empty(ts: Option<u64>) -> Seq<char> {
    match ts {
        Some(t) => spec_format_unix_ts(t),
        None => Seq::<char>::empty(),
    }
}

pub(crate) fn when_or_empty(ts: Option<u64>) -> (r: String)
    ensures
        r@ == spec_when_or_empty(ts),
{
    match ts {
        Some(t) => format_unix_ts(t),
        None => {
            let e = String::new();
            proof {
                assert(e@ =~= Seq::<char>::empty());
            }
            e
        },
    }
}

/// The bare `dodot probe`: where the data directory is, and which
/// subcommands there are.
pub fn summary(data_dir: &str) -> (r: ProbeResult)
    ensures
        match r {
            ProbeResult::Summary { data_dir: d, available } => d@ == data_dir@
                && available@.len() == 3
                && available@[0].name@ == "deployment-map"@
                && available@[1].name@ == "shell-init"@
                && available@[2].name@ == "show-data-dir"@,
            _ => false,
        },
{
    ProbeResult::Summary { data_dir: String::from_str(data_dir), available: probe_subcommands() }
}

/// The deployment map for display: each collected row with its paths
/// shortened under `home`, in the order collected.
pub fn deployment_map(entries: Vec<DeploymentMapEntry>, home: &str, data_dir: &str, map_path: &str) -> (r:
    ProbeResult)
    ensures
        match r {
            ProbeResult::DeploymentMap { data_dir: d, map_path: m, entries: out } => d@ == data_dir@
                && m@ == map_path@
                && out@.len() == entries@.len()
                && forall|i: int|
                0 <= i < entries@.len() ==> display_entry_ok(#[trigger] out@[i], entries@[i], home@),
            _ => false,
        },
{
    let mut out: Vec<DeploymentDisplayEntry> = Vec::new();
    let mut rest = entries;
    let ghost all = rest@;
    proof {
        assert(rest@ =~= all.subrange(0, all.len() as int));
    }
    while rest.len() > 0
        invariant
            out@.len() + rest@.len() == all.len(),
            rest@ == all.subrange(out@.len() as int, all.len() as int),
            forall|k: int|
                0 <= k < out@.len() ==> display_entry_ok(#[trigger] out@[k], all[k], home@),
        decreases rest.len(),
    {
        let e = rest.remove(0);
        proof {
            assert(e == all[out@.len() as int]);
            assert(rest@ =~= all.subrange(out@.len() as int + 1, all.len() as int));
        }
        out.push(into_display_entry(e, home));
    }
    ProbeResult::DeploymentMap {
        data_dir: String::from_str(data_dir),
        map_path: String::from_str(map_path),
        entries: out,
    }
}

/// A display row shows the collected row it came from.
pub open spec fn display_entry_ok(d: DeploymentDisplayEntry, e: DeploymentMapEntry, home: Seq<char>) -> bool {
    &&& d.pack@ == e.pack@
    &&& d.handler@ == e.handler@
    &&& d.kind@ == e.kind@
    &&& d.source@ == (if e.source@.len() == 0 {
        "—"@
    } else {
        spec_render_home_relative(e.source@, home)
    })
    &&& d.datastore@ == spec_render_home_relative(e.datastore@, home)
}

/// The most recent shell-startup profile, as read and grouped.
#[derive(Debug)]
pub struct LatestProfile {
    pub filename: String,
    /// The capture time parsed from the file name; 0 when unknown.
    pub unix_ts: u64,
    pub shell: String,
    pub groups: Vec<ProfileGroup>,
    pub user_total_us: u64,
    pub framing_us: u64,
    pub total_us: u64,
}

/// The shell-startup view of the latest profile, or a "no data" view
/// (`has_profile` false, nothing grouped) when there is none.
pub fn shell_init(
    profiling_enabled: bool,
    profile: Option<LatestProfile>,
    profiles_dir: &str,
    last_up_ts: Option<u64>,
) -> (r: ProbeResult)
    ensures
        match r {
            ProbeResult::ShellInit(v) => {
                &&& v.profiling_enabled == profiling_enabled
                &&& v.profiles_dir@ == profiles_dir@
                &&& v.last_up_when@ == spec_when_or_empty(last_up_ts)
                &&& match profile {
                    Some(p) => {
                        &&& v.has_profile
                        &&& v.filename@ == p.filename@ && v.shell@ == p.shell@
                        &&& v.groups@.len() == p.groups@.len()
                        &&& forall|i: int|
                            0 <= i < p.groups@.len() ==> group_ok(#[trigger] v.groups@[i], p.groups@[i])
                        &&& v.user_total_us == p.user_total_us && v.framing_us == p.framing_us
                            && v.total_us == p.total_us
                        &&& v.stale == spec_is_stale(p.unix_ts, last_up_ts)
                        &&& v.profile_when@ == spec_format_unix_ts(p.unix_ts)
                    },
                    None => {
                        &&& !v.has_profile
                        &&& v.filename@.len() == 0 && v.shell@.len() == 0
                        &&& v.groups@.len() == 0
                        &&& v.user_total_us == 0 && v.framing_us == 0 && v.total_us == 0
                        &&& !v.stale
                        &&& v.profile_when@.len() == 0
                    },
                }
            },
            _ => false,
        },
{
    let last_up_when = when_or_empty(last_up_ts);
    let view = match profile {
        Some(p) => ShellInitView {
            groups: shell_init_groups(p.groups.as_slice()),
            stale: is_stale(p.unix_ts, last_up_ts),
            profile_when: format_unix_ts(p.unix_ts),
            filename: p.filename,
            shell: p.shell,
            profiling_enabled,
            has_profile: true,
            user_total_us: p.user_total_us,
            framing_us: p.framing_us,
            total_us: p.total_us,
            profiles_dir: String::from_str(profiles_dir),
            last_up_when,
        },
        None => ShellInitView {
            filename: String::new(),
            shell: String::new(),
            profiling_enabled,
            has_profile: false,
            groups: Vec::new(),
            user_total_us: 0,
            framing_us: 0,
            total_us: 0,
            profiles_dir: String::from_str(profiles_dir),
            stale: false,
            profile_when: String::new(),
            last_up_when,
        },
    };
    ProbeResult::ShellInit(view)
}

/// Per-target statistics over the recent runs: `loaded` profiles were
/// read of the `requested` many (a read of the recent profiles stops at
/// the number requested), the newest captured at
/// `latest_profile_ts` (0 when none or unknown).
pub fn shell_init_aggregate(
    profiling_enabled: bool,
    requested: u64,
    loaded: u64,
    latest_profile_ts: u64,
    targets: Vec<AggregatedTarget>,
    profiles_dir: &str,
    last_up_ts: Option<u64>,
) -> (r: ProbeResult)
    requires
        loaded <= requested,
    ensures
        match r {
            ProbeResult::ShellInitAggregate(v) => {
                &&& v.runs == loaded && v.requested_runs == requested
                &&& v.runs <= v.requested_runs
                &&& v.profiling_enabled == profiling_enabled
                &&& v.profiles_dir@ == profiles_dir@
                &&& v.rows@.len() == targets@.len()
                &&& forall|i: int|
                    0 <= i < targets@.len() ==> aggregate_row_ok(#[trigger] v.rows@[i], targets@[i])
                &&& v.stale == spec_is_stale(latest_profile_ts, last_up_ts)
                &&& v.latest_profile_when@ == spec_format_unix_ts(latest_profile_ts)
                &&& v.last_up_when@ == spec_when_or_empty(last_up_ts)
            },
            _ => false,
        },
{
    let mut rows: Vec<ShellInitAggregateRow> = Vec::new();
    let mut rest = targets;
    let ghost all = rest@;
    proof {
        assert(rest@ =~= all.subrange(0, all.len() as int));
    }
    while rest.len() > 0
        invariant
            rows@.len() + rest@.len() == all.len(),
            rest@ == all.subrange(rows@.len() as int, all.len() as int),
            forall|k: int| 0 <= k < rows@.len() ==> aggregate_row_ok(#[trigger] rows@[k], all[k]),
        decreases rest.len(),
    {
        let t = rest.remove(0);
        proof {
            assert(t == all[rows@.len() as int]);
            assert(rest@ =~= all.subrange(rows@.len() as int + 1, all.len() as int));
        }
        rows.push(into_aggregate_row(t));
    }
    ProbeResult::ShellInitAggregate(
        ShellInitAggregateView {
            runs: loaded,
            requested_runs: requested,
            profiling_enabled,
            profiles_dir: String::from_str(profiles_dir),
            rows,
            stale: is_stale(latest_profile_ts, last_up_ts),
            latest_profile_when: format_unix_ts(latest_profile_ts),
            last_up_when: when_or_empty(last_up_ts),
        },
    )
}

/// One summary row per recent run, newest first as given.
pub fn shell_init_history(
    profiling_enabled: bool,
    latest_profile_ts: u64,
    history: Vec<HistoryEntry>,
    profiles_dir: &str,
    last_up_ts: Option<u64>,
) -> (r: ProbeResult)
    ensures
        match r {
            ProbeResult::ShellInitHistory(v) => {
                &&& v.profiling_enabled == profiling_enabled
                &&& v.profiles_dir@ == profiles_dir@
                &&& v.rows@.len() == history@.len()
                &&& forall|i: int|
                    0 <= i < history@.len() ==> history_row_ok(#[trigger] v.rows@[i], history@[i])
                &&& v.stale == spec_is_stale(latest_profile_ts, last_up_ts)
                &&& v.latest_profile_when@ == spec_format_unix_ts(latest_profile_ts)
                &&& v.last_up_when@ == spec_when_or_empty(last_up_ts)
            },
            _ => false,
        },
{
    let mut rows: Vec<ShellInitHistoryRow> = Vec::new();
    let mut rest = history;
    let ghost all = rest@;
    proof {
        assert(rest@ =~= all.subrange(0, all.len() as int));
    }
    while rest.len() > 0
        invariant
            rows@.len() + rest@.len() == all.len(),
            rest@ == all.subrange(rows@.len() as int, all.len() as int),
            forall|k: int| 0 <= k < rows@.len() ==> history_row_ok(#[trigger] rows@[k], all[k]),
        decreases rest.len(),
    {
        let h = rest.remove(0);
        proof {
            assert(h == all[rows@.len() as int]);
            assert(rest@ =~= all.subrange(rows@.len() as int + 1, all.len() as int));
        }
        rows.push(into_history_row(h));
    }
    ProbeResult::ShellInitHistory(
        ShellInitHistoryView {
            profiling_enabled,
            profiles_dir: String::from_str(profiles_dir),
            rows,
            stale: is_stale(latest_profile_ts, last_up_ts),
            latest_profile_when: format_unix_ts(latest_profile_ts),
            last_up_when: when_or_empty(last_up_ts),
        },
    )
}

/// How many nodes a tree has.
pub open spec fn spec_count_nodes(node: TreeNode) -> nat
    decreases node, 1int,
{
    1 + count_children(node.children@, 0)
}

pub open spec fn count_children(cs: Seq<TreeNode>, i: int) -> nat
    decreases cs, cs.len() - i,
{
    if i < 0 || i >= cs.len() {
        0
    } else {
        spec_count_nodes(cs[i]) + count_children(cs, i + 1)
    }
}

/// The bytes a tree accounts for: each node's own size (none for a
/// directory), summed over the tree.
pub open spec fn spec_total_size(node: TreeNode) -> nat
    decreases node, 1int,
{
    (match node.size {
        Some(n) => n as nat,
        None => 0,
    }) + size_children(node.children@, 0)
}

pub open spec fn size_children(cs: Seq<TreeNode>, i: int) -> nat
    decreases cs, cs.len() - i,
{
    if i < 0 || i >= cs.len() {
        0
    } else {
        spec_total_size(cs[i]) + size_children(cs, i + 1)
    }
}

/// How many nodes a tree has.
pub fn count_nodes(node: &TreeNode) -> (r: u64)
    requires
        spec_count_nodes(*node) <= u64::MAX,
    ensures
        r == spec_count_nodes(*node),
    decreases node,
{
    let mut acc: u64 = 1;
    let mut i: usize = 0;
    let n = node.children.len();
    while i < n
        invariant
            n == node.children@.len(),
            i <= n,
            acc + count_children(node.children@, i as int) == spec_count_nodes(*node),
            spec_count_nodes(*node) <= u64::MAX,
        decreases n - i,
    {
        proof {
            assert(decreases_to!(node => node.children));
            assert(count_children(node.children@, i as int) == spec_count_nodes(node.children@[i as int])
                + count_children(node.children@, i + 1));
        }
        let c = count_nodes(&node.children[i]);
        acc = acc + c;
        i = i + 1;
    }
    acc
}

/// The bytes a tree accounts for.
pub fn total_size(node: &TreeNode) -> (r: u64)
    requires
        spec_total_size(*node) <= u64::MAX,
    ensures
        r == spec_total_size(*node),
    decreases node,
{
    let mut acc: u64 = match node.size {
        Some(n) => n,
        None => 0,
    };
    let mut i: usize = 0;
    let n = node.children.len();
    while i < n
        invariant
            n == node.children@.len(),
            i <= n,
            acc + size_children(node.children@, i as int) == spec_total_size(*node),
            spec_total_size(*node) <= u64::MAX,
        decreases n - i,
    {
        proof {
            assert(decreases_to!(node => node.children));
            assert(size_children(node.children@, i as int) == spec_total_size(node.children@[i as int])
                + size_children(node.children@, i + 1));
        }
        let c = total_size(&node.children[i]);
        acc = acc + c;
        i = i + 1;
    }
    acc
}

/// The data-directory tree for display: its lines, how many nodes it
/// has and how many bytes it accounts for.
pub fn show_data_dir(data_dir: &str, tree: &TreeNode) -> (r: ProbeResult)
    requires
        spec_count_nodes(*tree) <= u64::MAX,
        spec_total_size(*tree) <= u64::MAX,
    ensures
        match r {
            ProbeResult::ShowDataDir { data_dir: d, lines, total_nodes, total_size } => d@ == data_dir@
                && lines_view(lines@) == spec_flatten(*tree, Seq::<char>::empty(), true, true)
                && total_nodes == spec_count_nodes(*tree) && total_size == spec_total_size(*tree),
            _ => false,
        },
{
    let total_nodes = count_nodes(tree);
    let total = total_size(tree);
    let mut lines: Vec<TreeLine> = Vec::new();
    proof {
        assert(lines_view(lines@) =~= Seq::<LineView>::empty());
        reveal_strlit("");
    }
    flatten_tree(tree, "", true, &mut lines, true);
    proof {
        assert(lines_view(lines@) =~= spec_flatten(*tree, Seq::<char>::empty(), true, true));
    }
    ProbeResult::ShowDataDir { data_dir: String::from_str(data_dir), lines, total_nodes, total_size: total }
}

} // verus!
