//! The drill-down and failure views of recent shell-startup profiles:
//! which runs a filter selects, bucketed per (pack, handler, target).
//!
//! Buckets are kept in key order (pack, then handler, then target, each
//! compared as text); the runs of a bucket stay in the order the
//! profiles and their entries were given, newest profile first.

use vstd::prelude::*;
use crate::infer::strings_view;
use crate::numeric::{humanize_us, spec_humanize_us};
use crate::probe::{
    format_unix_ts, is_stale, short_target, spec_format_unix_ts, spec_is_stale, spec_short_target,
    spec_target_matches, spec_when_or_empty, status_class_of, target_matches_filter, when_or_empty,
    ProbeResult, ShellInitErrorsView, ShellInitFilterRun, ShellInitFilterTarget,
    ShellInitFilterView,
};
use crate::text::{
    chars_eq, chars_of, copy_range, find_from, first_occurrence, lemma_lex_transitive,
    lemma_lex_trichotomy, lex_less, lex_lt, lines_of, lines_of_trimmed, string_of, trim_chars,
    trim_end_chars, trimmed, trimmed_end,
};

verus! {

/// One timed source of a profile.
#[derive(Debug)]
pub struct ProfileEntry {
    pub pack: String,
    pub handler: String,
    pub target: String,
    pub duration_us: u64,
    pub exit_status: i32,
}

/// What one source printed to stderr during a run.
#[derive(Debug)]
pub struct ProfileError {
    pub target: String,
    pub message: String,
}

/// One shell-startup profile as read from disk.
#[derive(Debug)]
pub struct Profile {
    pub filename: String,
    /// The capture time parsed from the file name; 0 when unknown.
    pub unix_ts: u64,
    pub entries: Vec<ProfileEntry>,
    pub errors: Vec<ProfileError>,
}

/// A displayed run as plain values.
pub struct RunView {
    pub when: Seq<char>,
    pub duration_label: Seq<char>,
    pub duration_us: u64,
    pub exit_status: i32,
    pub status_class: Seq<char>,
    pub stderr_lines: Seq<Seq<char>>,
    pub profile_filename: Seq<char>,
}

pub open spec fn run_view(r: ShellInitFilterRun) -> RunView {
    RunView {
        when: r.when@,
        duration_label: r.duration_label@,
        duration_us: r.duration_us,
        exit_status: r.exit_status,
        status_class: r.status_class@,
        stderr_lines: strings_view(r.stderr_lines@),
        profile_filename: r.profile_filename@,
    }
}

/// The stderr lines recorded for `target`: those of the first error
/// naming it, its message without trailing whitespace, split into
/// lines; none when no error names it.
pub open spec fn stderr_for(errors: Seq<ProfileError>, target: Seq<char>) -> Seq<Seq<char>>
    decreases errors.len(),
{
    if errors.len() == 0 {
        Seq::<Seq<char>>::empty()
    } else if errors[0].target@ == target {
        lines_of_trimmed(trimmed_end(errors[0].message@))
    } else {
        stderr_for(errors.skip(1), target)
    }
}

/// How an entry of a profile is displayed.
pub open spec fn entry_run(p: Profile, e: ProfileEntry) -> RunView {
    RunView {
        when: spec_format_unix_ts(p.unix_ts),
        duration_label: spec_humanize_us(e.duration_us as nat),
        duration_us: e.duration_us,
        exit_status: e.exit_status,
        status_class: status_class_of(e.exit_status),
        stderr_lines: stderr_for(p.errors@, e.target@),
        profile_filename: p.filename@,
    }
}

/// The (pack, handler, target) a run is bucketed under.
pub type TargetKey = (Seq<char>, Seq<char>, Seq<char>);

pub open spec fn entry_key(e: ProfileEntry) -> TargetKey {
    (e.pack@, e.handler@, e.target@)
}

pub open spec fn target_key(t: ShellInitFilterTarget) -> TargetKey {
    (t.pack@, t.handler@, t.target@)
}

/// Which entries a view keeps.
pub enum Selection {
    /// The entries of one pack, and of one file in it when given.
    Target { pack: Seq<char>, file: Option<Seq<char>> },
    /// The entries that exited non-zero.
    Failures,
}

pub open spec fn selects(s: Selection, e: ProfileEntry) -> bool {
    match s {
        Selection::Target { pack, file } => e.pack@ == pack && match file {
            Some(f) => spec_target_matches(e.target@, f),
            None => true,
        },
        Selection::Failures => e.exit_status != 0,
    }
}

/// The selected entries of one profile with their keys, in order.
pub open spec fn runs_in(p: Profile, es: Seq<ProfileEntry>, s: Selection) -> Seq<(TargetKey, RunView)>
    decreases es.len(),
{
    if es.len() == 0 {
        Seq::<(TargetKey, RunView)>::empty()
    } else {
        let prev = runs_in(p, es.drop_last(), s);
        if selects(s, es.last()) {
            prev.push((entry_key(es.last()), entry_run(p, es.last())))
        } else {
            prev
        }
    }
}

/// The selected entries of all profiles with their keys, profile by
/// profile.
pub open spec fn selected_runs(ps: Seq<Profile>, s: Selection) -> Seq<(TargetKey, RunView)>
    decreases ps.len(),
{
    if ps.len() == 0 {
        Seq::<(TargetKey, RunView)>::empty()
    } else {
        selected_runs(ps.drop_last(), s) + runs_in(ps.last(), ps.last().entries@, s)
    }
}

/// The runs filed under key `k`, in order.
pub open spec fn runs_for(all: Seq<(TargetKey, RunView)>, k: TargetKey) -> Seq<RunView>
    decreases all.len(),
{
    if all.len() == 0 {
        Seq::<RunView>::empty()
    } else {
        let prev = runs_for(all.drop_last(), k);
        if all.last().0 == k {
            prev.push(all.last().1)
        } else {
            prev
        }
    }
}

/// Key order: by pack, then handler, then target.
pub open spec fn key_lt(a: TargetKey, b: TargetKey) -> bool {
    lex_lt(a.0, b.0) || (a.0 == b.0 && (lex_lt(a.1, b.1) || (a.1 == b.1 && lex_lt(a.2, b.2))))
}

pub open spec fn target_runs(t: ShellInitFilterTarget) -> Seq<RunView> {
    Seq::new(t.runs@.len(), |i: int| run_view(t.runs@[i]))
}

/// How many runs exited non-zero.
pub open spec fn failures(rs: Seq<RunView>) -> nat
    decreases rs.len(),
{
    if rs.len() == 0 {
        0
    } else {
        failures(rs.drop_last()) + if rs.last().exit_status != 0 {
            1nat
        } else {
            0nat
        }
    }
}

/// A target block holds exactly the runs filed under its key, at least
/// one, with its basename and failure count.
pub open spec fn bucket_ok(t: ShellInitFilterTarget, all: Seq<(TargetKey, RunView)>) -> bool {
    &&& target_runs(t) == runs_for(all, target_key(t))
    &&& target_runs(t).len() > 0
    &&& t.display_target@ == spec_short_target(t.target@)
    &&& t.failure_count == failures(target_runs(t))
}

pub open spec fn has_key(ts: Seq<ShellInitFilterTarget>, k: TargetKey) -> bool {
    exists|i: int| 0 <= i < ts.len() && target_key(#[trigger] ts[i]) == k
}

/// Every selected run has its block.
pub open spec fn covers(ts: Seq<ShellInitFilterTarget>, all: Seq<(TargetKey, RunView)>) -> bool {
    forall|m: int| 0 <= m < all.len() ==> has_key(ts, (#[trigger] all[m]).0)
}

/// Blocks strictly in key order (so no key twice).
pub open spec fn key_sorted(ts: Seq<ShellInitFilterTarget>) -> bool {
    forall|i: int, j: int|
        0 <= i < j < ts.len() ==> key_lt(target_key(#[trigger] ts[i]), target_key(#[trigger] ts[j]))
}

/// `ts` are the blocks of the selected runs `all`, in key order.
pub open spec fn blocks_of(ts: Seq<ShellInitFilterTarget>, all: Seq<(TargetKey, RunView)>) -> bool {
    &&& key_sorted(ts)
    &&& forall|i: int| 0 <= i < ts.len() ==> bucket_ok(#[trigger] ts[i], all)
    &&& covers(ts, all)
}

pub proof fn lemma_key_total(a: TargetKey, b: TargetKey)
    ensures
        a == b || key_lt(a, b) || key_lt(b, a),
        !(key_lt(a, b) && key_lt(b, a)),
        !key_lt(a, a),
{
    lemma_lex_trichotomy(a.0, b.0);
    lemma_lex_trichotomy(a.1, b.1);
    lemma_lex_trichotomy(a.2, b.2);
}

pub proof fn lemma_key_transitive(a: TargetKey, b: TargetKey, c: TargetKey)
    requires
        key_lt(a, b),
        key_lt(b, c),
    ensures
        key_lt(a, c),
{
    if lex_lt(a.0, b.0) && lex_lt(b.0, c.0) {
        lemma_lex_transitive(a.0, b.0, c.0);
    }
    if a.0 == b.0 && b.0 == c.0 {
        if lex_lt(a.1, b.1) && lex_lt(b.1, c.1) {
            lemma_lex_transitive(a.1, b.1, c.1);
        }
        if a.1 == b.1 && b.1 == c.1 && lex_lt(a.2, b.2) && lex_lt(b.2, c.2) {
            lemma_lex_transitive(a.2, b.2, c.2);
        }
    }
}

proof fn lemma_runs_for_absent(all: Seq<(TargetKey, RunView)>, k: TargetKey)
    requires
        forall|m: int| 0 <= m < all.len() ==> (#[trigger] all[m]).0 != k,
    ensures
        runs_for(all, k) == Seq::<RunView>::empty(),
    decreases all.len(),
{
    if all.len() > 0 {
        assert(all.last() == all[all.len() - 1]);
        lemma_runs_for_absent(all.drop_last(), k);
    }
}

proof fn lemma_runs_for_push(all: Seq<(TargetKey, RunView)>, x: (TargetKey, RunView), k: TargetKey)
    ensures
        runs_for(all.push(x), k) == (if x.0 == k {
            runs_for(all, k).push(x.1)
        } else {
            runs_for(all, k)
        }),
{
    assert(all.push(x).drop_last() =~= all);
}

proof fn lemma_sorted_distinct(ts: Seq<ShellInitFilterTarget>, i: int, j: int)
    requires
        key_sorted(ts),
        0 <= i < ts.len(),
        0 <= j < ts.len(),
        i != j,
    ensures
        target_key(ts[i]) != target_key(ts[j]),
{
    if i < j {
        assert(key_lt(target_key(ts[i]), target_key(ts[j])));
    } else {
        assert(key_lt(target_key(ts[j]), target_key(ts[i])));
    }
    lemma_key_total(target_key(ts[i]), target_key(ts[j]));
}

fn str_lt(a: &String, b: &String) -> (r: bool)
    ensures
        r == lex_lt(a@, b@),
{
    let x = chars_of(a.as_str());
    let y = chars_of(b.as_str());
    lex_less(x.as_slice(), y.as_slice())
}

fn str_eq(a: &String, b: &String) -> (r: bool)
    ensures
        r == (a@ == b@),
{
    let x = chars_of(a.as_str());
    let y = chars_of(b.as_str());
    chars_eq(x.as_slice(), y.as_slice())
}

fn key_less(t: &ShellInitFilterTarget, e: &ProfileEntry) -> (r: bool)
    ensures
        r == key_lt(target_key(*t), entry_key(*e)),
{
    if str_lt(&t.pack, &e.pack) {
        return true;
    }
    if !str_eq(&t.pack, &e.pack) {
        return false;
    }
    if str_lt(&t.handler, &e.handler) {
        return true;
    }
    if !str_eq(&t.handler, &e.handler) {
        return false;
    }
    str_lt(&t.target, &e.target)
}

fn key_same(t: &ShellInitFilterTarget, e: &ProfileEntry) -> (r: bool)
    ensures
        r == (target_key(*t) == entry_key(*e)),
{
    str_eq(&t.pack, &e.pack) && str_eq(&t.handler, &e.handler) && str_eq(&t.target, &e.target)
}

/// The stderr lines recorded for `target`.
fn stderr_lines_for(errors: &[ProfileError], target: &str) -> (r: Vec<String>)
    ensures
        strings_view(r@) == stderr_for(errors@, target@),
{
    let t = chars_of(target);
    let mut i: usize = 0;
    proof {
        assert(errors@.skip(0) =~= errors@);
    }
    while i < errors.len()
        invariant
            i <= errors@.len(),
            t@ == target@,
            stderr_for(errors@, target@) == stderr_for(errors@.skip(i as int), target@),
        decreases errors.len() - i,
    {
        proof {
            assert(errors@.skip(i as int)[0] == errors@[i as int]);
            assert(errors@.skip(i as int).skip(1) =~= errors@.skip(i + 1));
        }
        let et = chars_of(errors[i].target.as_str());
        if chars_eq(et.as_slice(), t.as_slice()) {
            let m = chars_of(errors[i].message.as_str());
            let te = trim_end_chars(m.as_slice());
            let lines = lines_of(te.as_slice());
            proof {
                assert(strings_view(lines@) =~= Seq::new(lines@.len(), |k: int| lines@[k]@));
            }
            return lines;
        }
        i = i + 1;
    }
    let out: Vec<String> = Vec::new();
    proof {
        assert(strings_view(out@) =~= Seq::<Seq<char>>::empty());
    }
    out
}

fn status_class_str(exit_status: i32) -> (r: &'static str)
    ensures
        r@ == status_class_of(exit_status),
{
    if exit_status == 0 {
        "deployed"
    } else {
        "error"
    }
}

/// The displayed run of an entry of a profile.
fn make_run(p: &Profile, e: &ProfileEntry) -> (r: ShellInitFilterRun)
    ensures
        run_view(r) == entry_run(*p, *e),
{
    ShellInitFilterRun {
        when: format_unix_ts(p.unix_ts),
        duration_label: humanize_us(e.duration_us),
        duration_us: e.duration_us,
        exit_status: e.exit_status,
        status_class: status_class_str(e.exit_status),
        stderr_lines: stderr_lines_for(p.errors.as_slice(), e.target.as_str()),
        profile_filename: p.filename.clone(),
    }
}

proof fn lemma_failures_push(rs: Seq<RunView>, x: RunView)
    ensures
        failures(rs.push(x)) == failures(rs) + if x.exit_status != 0 {
            1nat
        } else {
            0nat
        },
        failures(rs) <= rs.len(),
    decreases rs.len(),
{
    assert(rs.push(x).drop_last() =~= rs);
    if rs.len() > 0 {
        lemma_failures_push(rs.drop_last(), rs.last());
        assert(rs.drop_last().push(rs.last()) =~= rs);
    }
}

/// File one more selected run into the blocks.
fn add_run(
    ts: &mut Vec<ShellInitFilterTarget>,
    e: &ProfileEntry,
    run: ShellInitFilterRun,
    Ghost(all): Ghost<Seq<(TargetKey, RunView)>>,
)
    requires
        blocks_of(old(ts)@, all),
    ensures
        blocks_of(final(ts)@, all.push((entry_key(*e), run_view(run)))),
{
    let ghost k = entry_key(*e);
    let ghost rv = run_view(run);
    let ghost all2 = all.push((k, rv));
    let ghost old_ts = ts@;
    let mut idx: usize = 0;
    while idx < ts.len() && key_less(&ts[idx], e)
        invariant
            idx <= ts@.len(),
            ts@ == old_ts,
            k == entry_key(*e),
            forall|i: int| 0 <= i < idx ==> key_lt(target_key(#[trigger] ts@[i]), k),
        decreases ts.len() - idx,
    {
        idx = idx + 1;
    }
    proof {
        assert forall|m: int| 0 <= m < all.len() implies (#[trigger] all[m]).0 != k
            || has_key(old_ts, k) by {
            assert(has_key(old_ts, all[m].0));
        }
    }
    if idx < ts.len() && key_same(&ts[idx], e) {
        let mut t = ts.remove(idx);
        let ghost tr = target_runs(t);
        proof {
            assert(t == old_ts[idx as int]);
            assert(bucket_ok(t, all));
            lemma_failures_push(tr, rv);
        }
        t.runs.push(run);
        proof {
            assert(target_runs(t) =~= tr.push(rv));
            assert(t.runs@.len() == tr.len() + 1);
        }
        if t.runs[t.runs.len() - 1].exit_status != 0 {
            t.failure_count = t.failure_count + 1;
        }
        ts.insert(idx, t);
        proof {
            assert(ts@ =~= old_ts.update(idx as int, t));
            lemma_runs_for_push(all, (k, rv), k);
            assert(bucket_ok(t, all2));
            assert forall|i: int| 0 <= i < ts@.len() implies bucket_ok(#[trigger] ts@[i], all2) by {
                if i != idx {
                    lemma_sorted_distinct(old_ts, i, idx as int);
                    lemma_runs_for_push(all, (k, rv), target_key(old_ts[i]));
                    assert(bucket_ok(old_ts[i], all));
                }
            }
            assert forall|i: int, j: int| 0 <= i < j < ts@.len() implies key_lt(
                target_key(#[trigger] ts@[i]),
                target_key(#[trigger] ts@[j]),
            ) by {
                assert(target_key(ts@[i]) == target_key(old_ts[i]));
                assert(target_key(ts@[j]) == target_key(old_ts[j]));
            }
            assert forall|m: int| 0 <= m < all2.len() implies has_key(ts@, (#[trigger] all2[m]).0) by {
                if m < all.len() {
                    assert(all2[m] == all[m]);
                    assert(has_key(old_ts, all[m].0));
                    let w = choose|w: int| 0 <= w < old_ts.len() && target_key(#[trigger] old_ts[w])
                        == all[m].0;
                    assert(target_key(ts@[w]) == target_key(old_ts[w]));
                } else {
                    assert(target_key(ts@[idx as int]) == k);
                }
            }
        }
    } else {
        let mut runs: Vec<ShellInitFilterRun> = Vec::new();
        let failed = run.exit_status != 0;
        runs.push(run);
        let t = ShellInitFilterTarget {
            target: e.target.clone(),
            display_target: short_target(e.target.as_str()),
            pack: e.pack.clone(),
            handler: e.handler.clone(),
            runs,
            failure_count: if failed {
                1
            } else {
                0
            },
        };
        proof {
            assert(target_key(t) == k);
            assert(forall|i: int| 0 <= i < old_ts.len() ==> target_key(#[trigger] old_ts[i]) != k) by {
                assert forall|i: int| 0 <= i < old_ts.len() implies target_key(
                    #[trigger] old_ts[i],
                ) != k by {
                    if i < idx {
                        lemma_key_total(target_key(old_ts[i]), k);
                    } else {
                        lemma_key_total(target_key(old_ts[idx as int]), k);
                        if i > idx {
                            assert(key_lt(target_key(old_ts[idx as int]), target_key(old_ts[i])));
                            lemma_key_transitive(k, target_key(old_ts[idx as int]), target_key(old_ts[i]));
                            lemma_key_total(k, target_key(old_ts[i]));
                        }
                    }
                }
            }
            assert forall|m: int| 0 <= m < all.len() implies (#[trigger] all[m]).0 != k by {
                assert(has_key(old_ts, all[m].0));
            }
            lemma_runs_for_absent(all, k);
            lemma_runs_for_push(all, (k, rv), k);
            assert(target_runs(t) =~= seq![rv]);
            assert(seq![rv] =~= Seq::<RunView>::empty().push(rv));
            lemma_failures_push(Seq::<RunView>::empty(), rv);
            assert(bucket_ok(t, all2));
        }
        ts.insert(idx, t);
        proof {
            let n = ts@;
            assert(n =~= old_ts.insert(idx as int, t));
            assert forall|i: int| 0 <= i < n.len() implies bucket_ok(#[trigger] n[i], all2) by {
                if i < idx {
                    assert(n[i] == old_ts[i]);
                    assert(bucket_ok(old_ts[i], all));
                    lemma_runs_for_push(all, (k, rv), target_key(old_ts[i]));
                } else if i > idx {
                    assert(n[i] == old_ts[i - 1]);
                    assert(bucket_ok(old_ts[i - 1], all));
                    lemma_runs_for_push(all, (k, rv), target_key(old_ts[i - 1]));
                }
            }
            assert forall|i: int, j: int| 0 <= i < j < n.len() implies key_lt(
                target_key(#[trigger] n[i]),
                target_key(#[trigger] n[j]),
            ) by {
                if j < idx {
                    assert(n[i] == old_ts[i] && n[j] == old_ts[j]);
                } else if j == idx {
                    assert(n[i] == old_ts[i]);
                } else {
                    assert(n[j] == old_ts[j - 1]);
                    // k < old_ts[idx] <= old_ts[j - 1]
                    lemma_key_total(target_key(old_ts[idx as int]), k);
                    if j - 1 > idx {
                        assert(key_lt(target_key(old_ts[idx as int]), target_key(old_ts[j - 1])));
                        lemma_key_transitive(k, target_key(old_ts[idx as int]), target_key(old_ts[j - 1]));
                    }
                    if i < idx {
                        assert(n[i] == old_ts[i]);
                        lemma_key_transitive(target_key(old_ts[i]), k, target_key(old_ts[j - 1]));
                    } else if i > idx {
                        assert(n[i] == old_ts[i - 1]);
                    }
                }
            }
            assert forall|m: int| 0 <= m < all2.len() implies has_key(n, (#[trigger] all2[m]).0) by {
                if m < all.len() {
                    assert(all2[m] == all[m]);
                    assert(has_key(old_ts, all[m].0));
                    let w = choose|w: int| 0 <= w < old_ts.len() && target_key(#[trigger] old_ts[w])
                        == all[m].0;
                    if w < idx {
                        assert(n[w] == old_ts[w]);
                    } else {
                        assert(n[w + 1] == old_ts[w]);
                    }
                } else {
                    assert(n[idx as int] == t);
                }
            }
        }
    }
}

pub open spec fn opt_view(o: Option<String>) -> Option<Seq<char>> {
    match o {
        Some(s) => Some(s@),
        None => None,
    }
}

pub open spec fn selection_of(failures_only: bool, pack: Seq<char>, file: Option<Seq<char>>) -> Selection {
    if failures_only {
        Selection::Failures
    } else {
        Selection::Target { pack, file }
    }
}

fn selects_exec(e: &ProfileEntry, failures_only: bool, pack: &str, file: &Option<String>) -> (r: bool)
    ensures
        r == selects(selection_of(failures_only, pack@, opt_view(*file)), *e),
{
    if failures_only {
        return e.exit_status != 0;
    }
    let p = chars_of(pack);
    let ep = chars_of(e.pack.as_str());
    if !chars_eq(ep.as_slice(), p.as_slice()) {
        return false;
    }
    match file {
        Some(f) => target_matches_filter(e.target.as_str(), f.as_str()),
        None => true,
    }
}

/// The blocks of the selected runs of `profiles`.
fn collect_blocks(profiles: &[Profile], failures_only: bool, pack: &str, file: &Option<String>) -> (r:
    Vec<ShellInitFilterTarget>)
    ensures
        blocks_of(r@, selected_runs(profiles@, selection_of(failures_only, pack@, opt_view(*file)))),
{
    let ghost sel = selection_of(failures_only, pack@, opt_view(*file));
    let mut ts: Vec<ShellInitFilterTarget> = Vec::new();
    let mut i: usize = 0;
    proof {
        assert(profiles@.take(0) =~= Seq::<Profile>::empty());
    }
    while i < profiles.len()
        invariant
            i <= profiles@.len(),
            sel == selection_of(failures_only, pack@, opt_view(*file)),
            blocks_of(ts@, selected_runs(profiles@.take(i as int), sel)),
        decreases profiles.len() - i,
    {
        let p = &profiles[i];
        let ghost base = selected_runs(profiles@.take(i as int), sel);
        let mut j: usize = 0;
        proof {
            assert(p.entries@.take(0) =~= Seq::<ProfileEntry>::empty());
            assert(base + runs_in(*p, p.entries@.take(0), sel) =~= base);
        }
        while j < p.entries.len()
            invariant
                j <= p.entries@.len(),
                sel == selection_of(failures_only, pack@, opt_view(*file)),
                blocks_of(ts@, base + runs_in(*p, p.entries@.take(j as int), sel)),
            decreases p.entries.len() - j,
        {
            let e = &p.entries[j];
            let ghost done = base + runs_in(*p, p.entries@.take(j as int), sel);
            proof {
                assert(p.entries@.take(j + 1).drop_last() =~= p.entries@.take(j as int));
                assert(p.entries@.take(j + 1).last() == *e);
            }
            if selects_exec(e, failures_only, pack, file) {
                let run = make_run(p, e);
                add_run(&mut ts, e, run, Ghost(done));
                proof {
                    assert(base + runs_in(*p, p.entries@.take(j + 1), sel) =~= done.push(
                        (entry_key(*e), entry_run(*p, *e)),
                    ));
                }
            } else {
                proof {
                    assert(base + runs_in(*p, p.entries@.take(j + 1), sel) =~= done);
                }
            }
            j = j + 1;
        }
        proof {
            assert(p.entries@.take(p.entries@.len() as int) =~= p.entries@);
            assert(profiles@.take(i + 1).drop_last() =~= profiles@.take(i as int));
            assert(profiles@.take(i + 1).last() == *p);
        }
        i = i + 1;
    }
    proof {
        assert(profiles@.take(profiles@.len() as int) =~= profiles@);
    }
    ts
}

/// `s` without any leading `./` (`trim_start_matches("./")`).
pub open spec fn strip_dot_slash(s: Seq<char>) -> Seq<char>
    decreases s.len(),
{
    if s.len() >= 2 && s[0] == '.' && s[1] == '/' {
        strip_dot_slash(s.skip(2))
    } else {
        s
    }
}

/// `s` without any trailing `/` (`trim_end_matches('/')`).
pub open spec fn strip_trailing_slashes(s: Seq<char>) -> Seq<char>
    decreases s.len(),
{
    if s.len() > 0 && s.last() == '/' {
        strip_trailing_slashes(s.drop_last())
    } else {
        s
    }
}

/// A typed filter, tidied: trimmed, without leading `./` and trailing
/// `/`, so that pasted, tab-completed paths work.
pub open spec fn filter_core(f: Seq<char>) -> Seq<char> {
    strip_trailing_slashes(strip_dot_slash(trimmed(f)))
}

/// The pack and (when there is one) the file a filter names: split at
/// the first `/` when both sides are non-empty; otherwise the whole
/// tidied filter is the pack.
pub open spec fn filter_parts(f: Seq<char>) -> (Seq<char>, Option<Seq<char>>) {
    let t = filter_core(f);
    match first_occurrence(t, seq!['/'], 0) {
        Some(k) => if k > 0 && k + 1 < t.len() {
            (t.take(k), Some(t.skip(k + 1)))
        } else {
            (t, None)
        },
        None => (t, None),
    }
}

/// The pack and file a filter names.
pub fn parse_filter(filter: &str) -> (r: (String, Option<String>))
    ensures
        (r.0@, opt_view(r.1)) == filter_parts(filter@),
{
    let f = chars_of(filter);
    let t = trim_chars(f.as_slice());
    let mut a: usize = 0;
    proof {
        assert(t@.skip(0) =~= t@);
    }
    while a < t.len() && t.len() - a >= 2 && t[a] == '.' && t[a + 1] == '/'
        invariant
            a <= t@.len(),
            t@ == trimmed(filter@),
            strip_dot_slash(t@) == strip_dot_slash(t@.skip(a as int)),
        decreases t.len() - a,
    {
        proof {
            let u = t@.skip(a as int);
            assert(u[0] == t@[a as int] && u[1] == t@[a + 1]);
            assert(u.skip(2) =~= t@.skip(a + 2));
        }
        a = a + 2;
    }
    proof {
        let u = t@.skip(a as int);
        if u.len() >= 2 {
            assert(u[0] == t@[a as int] && u[1] == t@[a + 1]);
        }
    }
    let mut b: usize = t.len();
    proof {
        assert(t@.subrange(a as int, b as int) =~= t@.skip(a as int));
    }
    while b > a && t[b - 1] == '/'
        invariant
            a <= b <= t@.len(),
            filter_core(filter@) == strip_trailing_slashes(t@.subrange(a as int, b as int)),
        decreases b - a,
    {
        proof {
            let u = t@.subrange(a as int, b as int);
            assert(u.last() == t@[b - 1]);
            assert(u.drop_last() =~= t@.subrange(a as int, b - 1));
        }
        b = b - 1;
    }
    let core = copy_range(t.as_slice(), a, b);
    proof {
        if b > a {
            assert(core@.last() == t@[b - 1]);
        }
        assert(core@ == filter_core(filter@));
    }
    let slash = chars_of("/");
    proof {
        reveal_strlit("/");
        assert(slash@ =~= seq!['/']);
    }
    match find_from(core.as_slice(), slash.as_slice(), 0) {
        Some(k) => {
            if k > 0 && k + 1 < core.len() {
                let p = copy_range(core.as_slice(), 0, k);
                let rest = copy_range(core.as_slice(), k + 1, core.len());
                proof {
                    assert(p@ =~= core@.take(k as int));
                    assert(rest@ =~= core@.skip(k + 1));
                }
                (string_of(p.as_slice()), Some(string_of(rest.as_slice())))
            } else {
                (string_of(core.as_slice()), None)
            }
        },
        None => (string_of(core.as_slice()), None),
    }
}

/// The capture time of the newest profile (the first given), 0 when
/// there is none.
pub open spec fn latest_ts(profiles: Seq<Profile>) -> u64 {
    if profiles.len() > 0 {
        profiles[0].unix_ts
    } else {
        0
    }
}

/// The drill-down for a `<pack>[/<file>]` filter over recent profiles
/// (newest first): one block per (pack, handler, target) the filter
/// selects, in key order, each with its runs in profile order.
pub fn shell_init_filter(
    profiling_enabled: bool,
    profiles_dir: &str,
    last_up_ts: Option<u64>,
    filter: &str,
    profiles: &[Profile],
) -> (r: ProbeResult)
    ensures
        match r {
            ProbeResult::ShellInitFilter(v) => {
                let (pack, file) = filter_parts(filter@);
                &&& v.profiling_enabled == profiling_enabled
                &&& v.profiles_dir@ == profiles_dir@
                &&& v.filter@ == trimmed(filter@)
                &&& v.filter_pack@ == pack
                &&& opt_view(v.filter_filename) == file
                &&& v.runs_examined == profiles@.len()
                &&& blocks_of(
                    v.targets@,
                    selected_runs(profiles@, Selection::Target { pack, file }),
                )
                &&& v.stale == spec_is_stale(latest_ts(profiles@), last_up_ts)
                &&& v.latest_profile_when@ == spec_format_unix_ts(latest_ts(profiles@))
                &&& v.last_up_when@ == spec_when_or_empty(last_up_ts)
            },
            _ => false,
        },
{
    let (filter_pack, filter_filename) = parse_filter(filter);
    let targets = collect_blocks(profiles, false, filter_pack.as_str(), &filter_filename);
    let latest: u64 = if profiles.len() > 0 {
        profiles[0].unix_ts
    } else {
        0
    };
    let f = chars_of(filter);
    let ft = trim_chars(f.as_slice());
    ProbeResult::ShellInitFilter(
        ShellInitFilterView {
            profiling_enabled,
            profiles_dir: String::from_str(profiles_dir),
            filter: string_of(ft.as_slice()),
            filter_pack,
            filter_filename,
            runs_examined: profiles.len() as u64,
            targets,
            stale: is_stale(latest, last_up_ts),
            latest_profile_when: format_unix_ts(latest),
            last_up_when: when_or_empty(last_up_ts),
        },
    )
}

/// Failure order: more failures first, then key order.
pub open spec fn fail_lt(a: ShellInitFilterTarget, b: ShellInitFilterTarget) -> bool {
    a.failure_count > b.failure_count || (a.failure_count == b.failure_count && key_lt(
        target_key(a),
        target_key(b),
    ))
}

/// Blocks strictly in failure order.
pub open spec fn fail_sorted(ts: Seq<ShellInitFilterTarget>) -> bool {
    forall|i: int, j: int| 0 <= i < j < ts.len() ==> fail_lt(#[trigger] ts[i], #[trigger] ts[j])
}

/// `ts` are the blocks of the selected runs `all`, most failures first.
pub open spec fn failure_blocks_of(ts: Seq<ShellInitFilterTarget>, all: Seq<(TargetKey, RunView)>) -> bool {
    &&& fail_sorted(ts)
    &&& forall|i: int| 0 <= i < ts.len() ==> bucket_ok(#[trigger] ts[i], all)
    &&& covers(ts, all)
}

proof fn lemma_fail_total(a: ShellInitFilterTarget, b: ShellInitFilterTarget)
    ensures
        target_key(a) != target_key(b) ==> fail_lt(a, b) || fail_lt(b, a),
        !(fail_lt(a, b) && fail_lt(b, a)),
        !fail_lt(a, a),
{
    lemma_key_total(target_key(a), target_key(b));
    lemma_key_total(target_key(a), target_key(a));
}

proof fn lemma_fail_transitive(a: ShellInitFilterTarget, b: ShellInitFilterTarget, c: ShellInitFilterTarget)
    requires
        fail_lt(a, b),
        fail_lt(b, c),
    ensures
        fail_lt(a, c),
{
    if a.failure_count == b.failure_count && b.failure_count == c.failure_count {
        lemma_key_transitive(target_key(a), target_key(b), target_key(c));
    }
}

fn fail_less(a: &ShellInitFilterTarget, b: &ShellInitFilterTarget) -> (r: bool)
    ensures
        r == fail_lt(*a, *b),
{
    if a.failure_count != b.failure_count {
        return a.failure_count > b.failure_count;
    }
    if str_lt(&a.pack, &b.pack) {
        return true;
    }
    if !str_eq(&a.pack, &b.pack) {
        return false;
    }
    if str_lt(&a.handler, &b.handler) {
        return true;
    }
    if !str_eq(&a.handler, &b.handler) {
        return false;
    }
    str_lt(&a.target, &b.target)
}

proof fn lemma_insert_fail_sorted(old_out: Seq<ShellInitFilterTarget>, b: ShellInitFilterTarget, idx: int)
    requires
        fail_sorted(old_out),
        0 <= idx <= old_out.len(),
        forall|x: int| 0 <= x < idx ==> fail_lt(#[trigger] old_out[x], b),
        idx < old_out.len() ==> fail_lt(b, old_out[idx]),
    ensures
        fail_sorted(old_out.insert(idx, b)),
{
    let o = old_out.insert(idx, b);
    assert forall|i: int, j: int| 0 <= i < j < o.len() implies fail_lt(#[trigger] o[i], #[trigger] o[j]) by {
        if j < idx {
            assert(o[i] == old_out[i] && o[j] == old_out[j]);
        } else if j == idx {
            assert(o[i] == old_out[i]);
        } else {
            assert(o[j] == old_out[j - 1]);
            if j - 1 > idx {
                assert(fail_lt(old_out[idx], old_out[j - 1]));
                lemma_fail_transitive(b, old_out[idx], old_out[j - 1]);
            }
            if i < idx {
                assert(o[i] == old_out[i]);
                lemma_fail_transitive(old_out[i], b, old_out[j - 1]);
            } else if i > idx {
                assert(o[i] == old_out[i - 1]);
            }
        }
    }
}

/// The blocks reordered by failures, most first.
fn order_by_failures(blocks: Vec<ShellInitFilterTarget>, Ghost(all): Ghost<Seq<(TargetKey, RunView)>>) -> (r:
    Vec<ShellInitFilterTarget>)
    requires
        blocks_of(blocks@, all),
    ensures
        failure_blocks_of(r@, all),
{
    let ghost bs = blocks@;
    let mut rest = blocks;
    let mut out: Vec<ShellInitFilterTarget> = Vec::new();
    let mut n: usize = 0;
    // where each placed block came from, and where each block went
    let ghost mut from: Seq<int> = Seq::empty();
    let ghost mut to: Seq<int> = Seq::empty();
    let total = rest.len();
    proof {
        assert(total == bs.len());
        assert(rest@ =~= bs.subrange(0, bs.len() as int));
    }
    while rest.len() > 0
        invariant
            n + rest@.len() == bs.len(),
            bs.len() <= usize::MAX,
            rest@ == bs.subrange(n as int, bs.len() as int),
            key_sorted(bs),
            fail_sorted(out@),
            from.len() == out@.len(),
            forall|m: int| 0 <= m < out@.len() ==> 0 <= #[trigger] from[m] < n && out@[m] == bs[from[m]],
            to.len() == n,
            forall|j: int| 0 <= j < n ==> 0 <= #[trigger] to[j] < out@.len() && out@[to[j]] == bs[j],
        decreases rest.len(),
    {
        let b = rest.remove(0);
        proof {
            assert(b == bs[n as int]);
            assert(rest@ =~= bs.subrange(n + 1, bs.len() as int));
        }
        let ghost old_out = out@;
        let mut idx: usize = 0;
        while idx < out.len() && fail_less(&out[idx], &b)
            invariant
                idx <= out@.len(),
                out@ == old_out,
                forall|x: int| 0 <= x < idx ==> fail_lt(#[trigger] out@[x], b),
            decreases out.len() - idx,
        {
            idx = idx + 1;
        }
        proof {
            if idx < old_out.len() {
                let x = idx as int;
                assert(0 <= from[x] < n);
                lemma_sorted_distinct(bs, from[x], n as int);
                lemma_fail_total(old_out[x], b);
                assert(fail_lt(b, old_out[x]));
            }
            lemma_insert_fail_sorted(old_out, b, idx as int);
        }
        out.insert(idx, b);
        proof {
            assert(out@ =~= old_out.insert(idx as int, b));
            let old_from = from;
            let old_to = to;
            from = old_from.insert(idx as int, n as int);
            to = Seq::new(
                (n + 1) as nat,
                |j: int|
                    if j == n {
                        idx as int
                    } else if old_to[j] >= idx {
                        old_to[j] + 1
                    } else {
                        old_to[j]
                    },
            );
            assert forall|m: int| 0 <= m < out@.len() implies 0 <= #[trigger] from[m] < n + 1
                && out@[m] == bs[from[m]] by {
                if m < idx {
                    assert(from[m] == old_from[m]);
                } else if m > idx {
                    assert(from[m] == old_from[m - 1]);
                }
            }
            assert forall|j: int| 0 <= j < n + 1 implies 0 <= #[trigger] to[j] < out@.len()
                && out@[to[j]] == bs[j] by {
                if j < n {
                    assert(0 <= old_to[j] < old_out.len());
                }
            }
        }
        n = n + 1;
    }
    proof {
        let o = out@;
        assert forall|i: int| 0 <= i < o.len() implies bucket_ok(#[trigger] o[i], all) by {
            assert(bucket_ok(bs[from[i]], all));
        }
        assert forall|m: int| 0 <= m < all.len() implies has_key(o, (#[trigger] all[m]).0) by {
            assert(has_key(bs, all[m].0));
            let j = choose|j: int| 0 <= j < bs.len() && target_key(#[trigger] bs[j]) == all[m].0;
            assert(0 <= to[j] < o.len());
            assert(target_key(o[to[j]]) == all[m].0);
        }
    }
    out
}

/// The failures across recent profiles (newest first): one block per
/// (pack, handler, target) that exited non-zero in some run, with those
/// runs in profile order, most failures first and then in key order.
pub fn shell_init_errors(
    profiling_enabled: bool,
    profiles_dir: &str,
    last_up_ts: Option<u64>,
    profiles: &[Profile],
) -> (r: ProbeResult)
    ensures
        match r {
            ProbeResult::ShellInitErrors(v) => {
                &&& v.profiling_enabled == profiling_enabled
                &&& v.profiles_dir@ == profiles_dir@
                &&& v.runs_examined == profiles@.len()
                &&& failure_blocks_of(v.targets@, selected_runs(profiles@, Selection::Failures))
                &&& v.stale == spec_is_stale(latest_ts(profiles@), last_up_ts)
                &&& v.latest_profile_when@ == spec_format_unix_ts(latest_ts(profiles@))
                &&& v.last_up_when@ == spec_when_or_empty(last_up_ts)
            },
            _ => false,
        },
{
    let none: Option<String> = None;
    let blocks = collect_blocks(profiles, true, "", &none);
    let ghost all = selected_runs(profiles@, Selection::Failures);
    let targets = order_by_failures(blocks, Ghost(all));
    let latest: u64 = if profiles.len() > 0 {
        profiles[0].unix_ts
    } else {
        0
    };
    ProbeResult::ShellInitErrors(
        ShellInitErrorsView {
            profiling_enabled,
            profiles_dir: String::from_str(profiles_dir),
            runs_examined: profiles.len() as u64,
            targets,
            stale: is_stale(latest, last_up_ts),
            latest_profile_when: format_unix_ts(latest),
            last_up_when: when_or_empty(last_up_ts),
        },
    )
}

} // verus!
