//! The decisions of `dodot adopt`: which pack a run lands in, where each
//! source goes inside it, which entries refuse the run or stay where
//! they are, which entries overlap, and what the run reports.
//!
//! The command itself alternates filesystem work (reading directories,
//! copying, renaming, replacing sources with symlinks) with these
//! decisions; the filesystem work happens around this module.

use vstd::prelude::*;
use crate::classify::{spec_reported, spec_short, SkipRule, SkipRuleView};
use crate::display::{DisplayFile, DisplayNote, DisplayPack, PackStatusResult};
use crate::gates::{spec_lookup, GateTable};
use crate::infer::{opt_view, InferredTarget, InferredView, SourceRoot};
use crate::paths::{
    components, components_of, is_absolute, is_absolute_exec, path_join, path_join_exec,
    path_starts_with, same_path,
};
use crate::text::{
    chars_eq, chars_of, decimal, insert_sorted, join_strings, join_with, lemma_sorted_unique,
    push_chars, push_decimal, push_str, sorted_distinct, string_of,
};

verus! {

// ── `--only-os` ─────────────────────────────────────────────────────

/// The refusal for an `--only-os` label no gate table defines.
pub open spec fn spec_only_os_error(label: Seq<char>, gates: Seq<(Seq<char>, crate::gates::PredicateView)>) -> Option<
    Seq<char>,
> {
    if spec_lookup(gates, label) is Some {
        None
    } else {
        Some(
            "unknown gate label `"@ + label
                + "` for --only-os: not in the built-in seed and not defined in [gates]. Built-ins: darwin, linux, macos, arm64, aarch64, x86_64."@,
        )
    }
}

/// The refusal for an `--only-os` label, when no gate table entry
/// defines it.
pub fn only_os_error(label: &str, gates: &GateTable) -> (r: Option<String>)
    ensures
        opt_view(r) == spec_only_os_error(label@, gates@),
{
    if gates.contains(label) {
        None
    } else {
        let mut v = chars_of("unknown gate label `");
        push_str(&mut v, label);
        push_str(
            &mut v,
            "` for --only-os: not in the built-in seed and not defined in [gates]. Built-ins: darwin, linux, macos, arm64, aarch64, x86_64.",
        );
        Some(string_of(v.as_slice()))
    }
}

/// The checks before any planning: an `--only-os` label must be
/// defined, then there must be something to adopt.
pub fn check_adopt_request(only_os: Option<&str>, gates: &GateTable, source_count: usize) -> (r: Result<
    (),
    String,
>)
    ensures
        match only_os {
            Some(l) if spec_only_os_error(l@, gates@) is Some => r matches Err(m) && Some(m@)
                == spec_only_os_error(l@, gates@),
            _ => if source_count == 0 {
                r matches Err(m) && m@ == "no files specified"@
            } else {
                r is Ok
            },
        },
{
    match only_os {
        Some(l) => match only_os_error(l, gates) {
            Some(m) => return Err(m),
            None => {},
        },
        None => {},
    }
    if source_count == 0 {
        return Err(String::from_str("no files specified"));
    }
    Ok(())
}

// ── Which pack ──────────────────────────────────────────────────────

/// The pack names inference found, as a set.
pub open spec fn candidates(natural: Seq<Option<String>>) -> Set<Seq<char>> {
    Set::new(|n: Seq<char>| exists|i: int| 0 <= i < natural.len() && opt_view(natural[i]) == Some(n))
}

/// The sources inference declined to name a pack for.
pub open spec fn declined(natural: Seq<Option<String>>) -> nat
    decreases natural.len(),
{
    if natural.len() == 0 {
        0
    } else {
        declined(natural.drop_last()) + if natural.last() is None {
            1nat
        } else {
            0nat
        }
    }
}

/// The candidate names, sorted.
pub open spec fn sorted_names(natural: Seq<Option<String>>) -> Seq<Seq<char>> {
    choose|s: Seq<Seq<char>>| sorted_distinct(s) && s.to_set() == candidates(natural)
}

/// A run without `--into` lands in the one pack every naming source
/// agrees on; none, or several, is a refusal.
pub open spec fn spec_resolve_inferred(natural: Seq<Option<String>>) -> Result<Seq<char>, Seq<char>> {
    let names = sorted_names(natural);
    if names.len() == 0 {
        Err(
            "could not infer a pack name for "@ + decimal(declined(natural))
                + " source(s); pass --into <pack>"@,
        )
    } else if names.len() == 1 {
        Ok(names[0])
    } else {
        Err(
            "sources infer different packs ("@ + join_with(names, ", "@)
                + "); split into separate adopt invocations or pass --into <pack> to force a single destination"@,
        )
    }
}

pub open spec fn result_seq(r: Result<String, String>) -> Result<Seq<char>, Seq<char>> {
    match r {
        Ok(s) => Ok(s@),
        Err(e) => Err(e@),
    }
}

/// The pack a run without `--into` lands in, from the natural pack each
/// source's inference named (`None` where it named none).
pub fn resolve_inferred_pack(natural: &[Option<String>]) -> (r: Result<String, String>)
    requires
        natural@.len() < u64::MAX,
    ensures
        result_seq(r) == spec_resolve_inferred(natural@),
{
    let mut names: Vec<String> = Vec::new();
    let mut none_count: u64 = 0;
    let mut i: usize = 0;
    proof {
        assert(names@.map_values(|x: String| x@) =~= Seq::<Seq<char>>::empty());
        assert(Seq::<Seq<char>>::empty().to_set() =~= Set::<Seq<char>>::empty());
        assert(natural@.take(0) =~= Seq::<Option<String>>::empty());
        assert(candidates(natural@.take(0)) =~= Set::<Seq<char>>::empty());
    }
    while i < natural.len()
        invariant
            i <= natural@.len(),
            natural@.len() < u64::MAX,
            none_count == declined(natural@.take(i as int)),
            none_count <= i,
            sorted_distinct(names@.map_values(|x: String| x@)),
            names@.map_values(|x: String| x@).to_set() == candidates(natural@.take(i as int)),
        decreases natural.len() - i,
    {
        proof {
            assert(natural@.take(i + 1).drop_last() =~= natural@.take(i as int));
        }
        match &natural[i] {
            Some(n) => {
                insert_sorted(&mut names, n.clone());
                proof {
                    assert(candidates(natural@.take(i + 1)) =~= candidates(natural@.take(i as int)).insert(
                        n@,
                    )) by {
                        let t = natural@.take(i + 1);
                        assert forall|x: Seq<char>| candidates(t).contains(x) implies candidates(
                            natural@.take(i as int),
                        ).insert(n@).contains(x) by {
                            let k = choose|k: int| 0 <= k < t.len() && opt_view(t[k]) == Some(x);
                            if k < i {
                                assert(natural@.take(i as int)[k] == t[k]);
                            }
                        }
                        assert forall|x: Seq<char>| candidates(natural@.take(i as int)).insert(
                            n@,
                        ).contains(x) implies candidates(t).contains(x) by {
                            if x == n@ {
                                assert(opt_view(t[i as int]) == Some(x));
                            } else {
                                let k = choose|k: int|
                                    0 <= k < i && opt_view(natural@.take(i as int)[k]) == Some(x)
                                        && true;
                                assert(opt_view(t[k]) == Some(x));
                            }
                        }
                    }
                }
            },
            None => {
                none_count = none_count + 1;
                proof {
                    assert(candidates(natural@.take(i + 1)) =~= candidates(natural@.take(i as int))) by {
                        let t = natural@.take(i + 1);
                        assert forall|x: Seq<char>| candidates(t).contains(x) implies candidates(
                            natural@.take(i as int),
                        ).contains(x) by {
                            let k = choose|k: int| 0 <= k < t.len() && opt_view(t[k]) == Some(x);
                            assert(k != i);
                            assert(natural@.take(i as int)[k] == t[k]);
                        }
                        assert forall|x: Seq<char>| candidates(natural@.take(i as int)).contains(
                            x,
                        ) implies candidates(t).contains(x) by {
                            let k = choose|k: int|
                                0 <= k < i && opt_view(natural@.take(i as int)[k]) == Some(x);
                            assert(opt_view(t[k]) == Some(x));
                        }
                    }
                }
            },
        }
        i = i + 1;
    }
    let ghost nv = names@.map_values(|x: String| x@);
    proof {
        assert(natural@.take(natural@.len() as int) =~= natural@);
        let s = sorted_names(natural@);
        assert(sorted_distinct(nv) && nv.to_set() == candidates(natural@));
        lemma_sorted_unique(s, nv);
    }
    if names.len() == 0 {
        let mut v = chars_of("could not infer a pack name for ");
        push_decimal(&mut v, none_count);
        push_str(&mut v, " source(s); pass --into <pack>");
        Err(string_of(v.as_slice()))
    } else if names.len() == 1 {
        proof {
            assert(nv[0] == names@[0]@);
        }
        Ok(names[0].clone())
    } else {
        let joined = join_strings(names.as_slice(), ", ");
        proof {
            assert(Seq::new(names@.len(), |i: int| names@[i]@) =~= nv);
        }
        let mut v = chars_of("sources infer different packs (");
        push_chars(&mut v, joined.as_slice());
        push_str(
            &mut v,
            "); split into separate adopt invocations or pass --into <pack> to force a single destination",
        );
        Err(string_of(v.as_slice()))
    }
}

// ── Where each source goes ──────────────────────────────────────────

/// `--into` names a pack other than the one the source's path names.
pub open spec fn override_differs(natural: Option<Seq<char>>, over: Option<Seq<char>>) -> bool {
    match (natural, over) {
        (Some(n), Some(o)) => n != o,
        _ => false,
    }
}

/// An in-pack path wrapped in the `_<label>/` gate directory of
/// `--only-os`, when given.
pub open spec fn spec_gate_wrap(only_os: Option<Seq<char>>, in_pack: Seq<char>) -> Seq<char> {
    match only_os {
        Some(label) => path_join("_"@ + label, in_pack),
        None => in_pack,
    }
}

/// The in-pack path of a source: the override-aware encoding when
/// `--into` rerouted it, wrapped for `--only-os`.
pub open spec fn spec_in_pack_for_source(
    t: InferredView,
    over: Option<Seq<char>>,
    only_os: Option<Seq<char>>,
) -> Seq<char> {
    let base = if override_differs(t.natural_pack, over) {
        t.in_pack_override
    } else {
        t.in_pack_natural
    };
    spec_gate_wrap(only_os, base)
}

pub open spec fn opt_str(o: Option<&str>) -> Option<Seq<char>> {
    match o {
        Some(s) => Some(s@),
        None => None,
    }
}

fn differs_exec(natural: &Option<String>, over: Option<&str>) -> (r: bool)
    ensures
        r == override_differs(opt_view(*natural), opt_str(over)),
{
    match (natural, over) {
        (Some(n), Some(o)) => {
            let a = chars_of(n.as_str());
            let b = chars_of(o);
            !chars_eq(a.as_slice(), b.as_slice())
        },
        _ => false,
    }
}

/// Wrap an in-pack path in the `--only-os` gate directory, when given.
pub fn gate_wrap(only_os: Option<&str>, in_pack: &str) -> (r: String)
    ensures
        r@ == spec_gate_wrap(opt_str(only_os), in_pack@),
{
    match only_os {
        Some(label) => {
            let mut d = chars_of("_");
            push_str(&mut d, label);
            let dir = string_of(d.as_slice());
            path_join_exec(dir.as_str(), in_pack)
        },
        None => String::from_str(in_pack),
    }
}

/// The in-pack path for a source adopted on its own.
pub fn in_pack_for_source(t: &InferredTarget, pack_override: Option<&str>, only_os: Option<&str>) -> (r:
    String)
    ensures
        r@ == spec_in_pack_for_source(t@, opt_str(pack_override), opt_str(only_os)),
{
    if differs_exec(&t.natural_pack, pack_override) {
        gate_wrap(only_os, t.in_pack_override.as_str())
    } else {
        gate_wrap(only_os, t.in_pack_natural.as_str())
    }
}

/// The in-pack path of one child of an expanded pack-root directory:
/// bare for an XDG directory adopted into its own pack, under the
/// directory's explicit-prefix path otherwise.
pub open spec fn spec_expand_child(parent: InferredView, child: Seq<char>, differs: bool) -> Seq<char> {
    match parent.source_root {
        SourceRoot::XdgConfig => if differs {
            path_join(parent.in_pack_override, child)
        } else {
            child
        },
        SourceRoot::AppSupport => path_join(parent.in_pack_override, child),
        SourceRoot::Home => child,
        SourceRoot::Library => path_join(parent.in_pack_override, child),
    }
}

/// The in-pack path of one child of an expanded pack-root directory.
pub fn expand_child_in_pack(parent: &InferredTarget, child_name: &str, override_differs: bool) -> (r:
    String)
    ensures
        r@ == spec_expand_child(parent@, child_name@, override_differs),
{
    match parent.source_root {
        SourceRoot::XdgConfig => if override_differs {
            path_join_exec(parent.in_pack_override.as_str(), child_name)
        } else {
            String::from_str(child_name)
        },
        SourceRoot::AppSupport => path_join_exec(parent.in_pack_override.as_str(), child_name),
        SourceRoot::Home => String::from_str(child_name),
        SourceRoot::Library => path_join_exec(parent.in_pack_override.as_str(), child_name),
    }
}

/// The in-pack path of one child of an expanded directory, with the
/// `--into` comparison and the `--only-os` wrap applied.
pub fn child_in_pack(
    parent: &InferredTarget,
    child_name: &str,
    pack_override: Option<&str>,
    only_os: Option<&str>,
) -> (r: String)
    ensures
        r@ == spec_gate_wrap(
            opt_str(only_os),
            spec_expand_child(
                parent@,
                child_name@,
                override_differs(parent@.natural_pack, opt_str(pack_override)),
            ),
        ),
{
    let differs = differs_exec(&parent.natural_pack, pack_override);
    let inner = expand_child_in_pack(parent, child_name, differs);
    gate_wrap(only_os, inner.as_str())
}

// ── Reports of unadoptable entries ──────────────────────────────────

/// `name` padded with spaces on the right to `width` characters.
pub open spec fn pad_right(name: Seq<char>, width: nat) -> Seq<char> {
    if name.len() >= width {
        name
    } else {
        name + Seq::new((width - name.len()) as nat, |i: int| ' ')
    }
}

/// The longest name's length, in characters.
pub open spec fn max_width(names: Seq<Seq<char>>) -> nat
    decreases names.len(),
{
    if names.len() == 0 {
        0
    } else {
        let rest = max_width(names.drop_last());
        if names.last().len() > rest {
            names.last().len()
        } else {
            rest
        }
    }
}

/// The listing lines for skipped children, one per child.
pub open spec fn child_lines(
    names: Seq<Seq<char>>,
    rules: Seq<SkipRuleView>,
    width: nat,
    pack: Seq<char>,
) -> Seq<char>
    decreases names.len(),
{
    if names.len() == 0 || rules.len() != names.len() {
        Seq::<char>::empty()
    } else {
        child_lines(names.drop_last(), rules.drop_last(), width, pack) + "\n  "@ + pad_right(
            names.last(),
            width,
        ) + "  "@ + spec_short(rules.last(), pack)
    }
}

/// The refusal for an expanded directory holding nothing a pack scan
/// would read: it lists every child with the rule that skips it.
pub open spec fn spec_no_adoptable_children(
    dir: Seq<char>,
    names: Seq<Seq<char>>,
    rules: Seq<SkipRuleView>,
    pack: Seq<char>,
) -> Seq<char> {
    if names.len() == 0 {
        "refusing to adopt "@ + dir
            + ": expanding this directory found no adoptable entries — it has no children."@
    } else {
        let headline = if names.len() == 1 {
            "its only child is skipped by a discovery rule:"@
        } else {
            "all "@ + decimal(names.len()) + " children are skipped by a discovery rule:"@
        };
        "refusing to adopt "@ + dir + ": expanding this directory found no adoptable entries, "@
            + headline + child_lines(names, rules, max_width(names), pack)
    }
}

/// An unadoptable entry: its name (or path) and the rule that skips it.
#[derive(Debug)]
pub struct Skipped {
    pub name: String,
    pub rule: SkipRule,
}

pub open spec fn skipped_names(v: Seq<Skipped>) -> Seq<Seq<char>> {
    Seq::new(v.len(), |i: int| v[i].name@)
}

pub open spec fn skipped_rules(v: Seq<Skipped>) -> Seq<SkipRuleView> {
    Seq::new(v.len(), |i: int| v[i].rule@)
}

fn char_count(s: &str) -> (r: usize)
    ensures
        r == s@.len(),
{
    let v = chars_of(s);
    v.len()
}

fn push_padded(v: &mut Vec<char>, name: &str, width: usize)
    ensures
        final(v)@ == old(v)@ + pad_right(name@, width as nat),
{
    let n = chars_of(name);
    let ghost start = old(v)@;
    push_chars(v, n.as_slice());
    if n.len() < width {
        let mut k: usize = n.len();
        while k < width
            invariant
                n.len() <= k <= width,
                n@ == name@,
                v@ == start + name@ + Seq::new((k - n.len()) as nat, |i: int| ' '),
            decreases width - k,
        {
            v.push(' ');
            k = k + 1;
            proof {
                assert(v@ =~= start + name@ + Seq::new((k - n.len()) as nat, |i: int| ' '));
            }
        }
    } else {
        proof {
            assert(pad_right(name@, width as nat) == name@);
        }
    }
}

/// The refusal for an expanded directory with no adoptable child.
/// `dir` is the directory as displayed.
pub fn no_adoptable_children(dir: &str, children: &[Skipped], pack: &str) -> (r: String)
    ensures
        r@ == spec_no_adoptable_children(
            dir@,
            skipped_names(children@),
            skipped_rules(children@),
            pack@,
        ),
{
    let ghost names = skipped_names(children@);
    let ghost rules = skipped_rules(children@);
    if children.len() == 0 {
        let mut v = chars_of("refusing to adopt ");
        push_str(&mut v, dir);
        push_str(
            &mut v,
            ": expanding this directory found no adoptable entries — it has no children.",
        );
        return string_of(v.as_slice());
    }
    let mut width: usize = 0;
    let mut i: usize = 0;
    proof {
        assert(names.take(0) =~= Seq::<Seq<char>>::empty());
    }
    while i < children.len()
        invariant
            i <= children@.len(),
            names == skipped_names(children@),
            width == max_width(names.take(i as int)),
        decreases children.len() - i,
    {
        proof {
            assert(names.take(i + 1).drop_last() =~= names.take(i as int));
            assert(names.take(i + 1).last() == children@[i as int].name@);
        }
        let c = char_count(children[i].name.as_str());
        if c > width {
            width = c;
        }
        i = i + 1;
    }
    proof {
        assert(names.take(names.len() as int) =~= names);
    }
    let mut v = chars_of("refusing to adopt ");
    push_str(&mut v, dir);
    push_str(&mut v, ": expanding this directory found no adoptable entries, ");
    if children.len() == 1 {
        push_str(&mut v, "its only child is skipped by a discovery rule:");
    } else {
        push_str(&mut v, "all ");
        push_decimal(&mut v, children.len() as u64);
        push_str(&mut v, " children are skipped by a discovery rule:");
    }
    let ghost head = v@;
    let mut k: usize = 0;
    proof {
        assert(names.take(0) =~= Seq::<Seq<char>>::empty());
        assert(rules.take(0) =~= Seq::<SkipRuleView>::empty());
        assert(v@ =~= head + child_lines(names.take(0), rules.take(0), width as nat, pack@));
    }
    while k < children.len()
        invariant
            k <= children@.len(),
            names == skipped_names(children@),
            rules == skipped_rules(children@),
            v@ == head + child_lines(names.take(k as int), rules.take(k as int), width as nat, pack@),
        decreases children.len() - k,
    {
        let short = children[k].rule.short(pack);
        push_str(&mut v, "\n  ");
        push_padded(&mut v, children[k].name.as_str(), width);
        push_str(&mut v, "  ");
        push_str(&mut v, short.as_str());
        proof {
            let nt = names.take(k + 1);
            let rt = rules.take(k + 1);
            assert(nt.drop_last() =~= names.take(k as int));
            assert(rt.drop_last() =~= rules.take(k as int));
            assert(nt.last() == children@[k as int].name@);
            assert(rt.last() == children@[k as int].rule@);
        }
        k = k + 1;
    }
    proof {
        assert(names.take(names.len() as int) =~= names);
        assert(rules.take(rules.len() as int) =~= rules);
    }
    string_of(v.as_slice())
}

/// The report line for one child left where it was.
pub open spec fn spec_left_in_place(path: Seq<char>, rule: SkipRuleView, pack: Seq<char>) -> Seq<char> {
    "left in place: "@ + path + " — "@ + spec_reported(rule, pack)
}

/// The report lines for the children left where they were, one each, in
/// order. `name` is each child's path as displayed.
pub fn left_in_place_warnings(left: &[Skipped], pack: &str) -> (r: Vec<String>)
    ensures
        r@.len() == left@.len(),
        forall|i: int|
            0 <= i < left@.len() ==> (#[trigger] r@[i])@ == spec_left_in_place(
                left@[i].name@,
                left@[i].rule@,
                pack@,
            ),
{
    let mut out: Vec<String> = Vec::new();
    let mut i: usize = 0;
    while i < left.len()
        invariant
            i <= left@.len(),
            out@.len() == i,
            forall|j: int|
                0 <= j < i ==> (#[trigger] out@[j])@ == spec_left_in_place(
                    left@[j].name@,
                    left@[j].rule@,
                    pack@,
                ),
        decreases left.len() - i,
    {
        let reported = left[i].rule.reported(pack);
        let mut v = chars_of("left in place: ");
        push_str(&mut v, left[i].name.as_str());
        push_str(&mut v, " — ");
        push_str(&mut v, reported.as_str());
        out.push(string_of(v.as_slice()));
        i = i + 1;
    }
    out
}

// ── Entries against each other ──────────────────────────────────────

/// One planned entry: the source (as displayed) and its in-pack path.
#[derive(Debug)]
pub struct PlannedEntry {
    pub source: String,
    pub in_pack: String,
}

/// The refusal for two planned entries, `a` before `b`, one of which
/// contains the other by source path, or else by in-pack path.
pub open spec fn spec_pair_overlap(
    a_src: Seq<char>,
    a_in: Seq<char>,
    b_src: Seq<char>,
    b_in: Seq<char>,
) -> Option<Seq<char>> {
    let source_msg = |outer: Seq<char>, inner: Seq<char>|
        outer + " contains "@ + inner
            + "; adopt the outer one alone — adopting a directory already carries its contents"@;
    let pack_msg = |os: Seq<char>, is: Seq<char>, oi: Seq<char>, ii: Seq<char>|
        os + " and "@ + is + " would land at "@ + oi + " and "@ + ii
            + " in the pack, one inside the other; adopt them in one run only if their pack paths don't nest, or adopt them separately"@;
    if path_starts_with(b_src, a_src) {
        Some(source_msg(a_src, b_src))
    } else if path_starts_with(a_src, b_src) {
        Some(source_msg(b_src, a_src))
    } else if path_starts_with(b_in, a_in) {
        Some(pack_msg(a_src, b_src, a_in, b_in))
    } else if path_starts_with(a_in, b_in) {
        Some(pack_msg(b_src, a_src, b_in, a_in))
    } else {
        None
    }
}

/// The first overlapping pair at or after `(i, j)`, in the order
/// `(0, 1), (0, 2), .., (1, 2), ..`.
pub open spec fn spec_overlaps_from(plans: Seq<PlannedEntry>, i: int, j: int) -> Option<Seq<char>>
    decreases plans.len() - i, plans.len() + 1 - j,
{
    if i < 0 || i >= plans.len() {
        None
    } else if j <= i || j >= plans.len() {
        spec_overlaps_from(plans, i + 1, i + 2)
    } else {
        match spec_pair_overlap(plans[i].source@, plans[i].in_pack@, plans[j].source@, plans[j].in_pack@) {
            Some(m) => Some(m),
            None => spec_overlaps_from(plans, i, j + 1),
        }
    }
}

/// Two entries nest: one contains the other, by source or in-pack path.
pub open spec fn nests(a: PlannedEntry, b: PlannedEntry) -> bool {
    path_starts_with(b.source@, a.source@) || path_starts_with(a.source@, b.source@)
        || path_starts_with(b.in_pack@, a.in_pack@) || path_starts_with(a.in_pack@, b.in_pack@)
}

fn starts_with_path(p: &str, base: &str) -> (r: bool)
    ensures
        r == path_starts_with(p@, base@),
{
    let pv = chars_of(p);
    let bv = chars_of(base);
    let pc = components_of(pv.as_slice());
    let bc = components_of(bv.as_slice());
    is_absolute_exec(pv.as_slice()) == is_absolute_exec(bv.as_slice()) && crate::paths::comps_prefix(
        &bc,
        &pc,
    )
}

fn pair_overlap(a: &PlannedEntry, b: &PlannedEntry) -> (r: Option<String>)
    ensures
        opt_view(r) == spec_pair_overlap(a.source@, a.in_pack@, b.source@, b.in_pack@),
{
    let (outer, inner, by_source) = if starts_with_path(b.source.as_str(), a.source.as_str()) {
        (a, b, true)
    } else if starts_with_path(a.source.as_str(), b.source.as_str()) {
        (b, a, true)
    } else if starts_with_path(b.in_pack.as_str(), a.in_pack.as_str()) {
        (a, b, false)
    } else if starts_with_path(a.in_pack.as_str(), b.in_pack.as_str()) {
        (b, a, false)
    } else {
        return None;
    };
    let mut v = chars_of(outer.source.as_str());
    if by_source {
        push_str(&mut v, " contains ");
        push_str(&mut v, inner.source.as_str());
        push_str(
            &mut v,
            "; adopt the outer one alone — adopting a directory already carries its contents",
        );
    } else {
        push_str(&mut v, " and ");
        push_str(&mut v, inner.source.as_str());
        push_str(&mut v, " would land at ");
        push_str(&mut v, outer.in_pack.as_str());
        push_str(&mut v, " and ");
        push_str(&mut v, inner.in_pack.as_str());
        push_str(
            &mut v,
            " in the pack, one inside the other; adopt them in one run only if their pack paths don't nest, or adopt them separately",
        );
    }
    Some(string_of(v.as_slice()))
}

/// Refuse a plan set in which one entry contains another, by source
/// path or by in-pack path; the first such pair decides the message.
pub fn check_overlaps(plans: &[PlannedEntry]) -> (r: Result<(), String>)
    ensures
        match r {
            Ok(()) => spec_overlaps_from(plans@, 0, 1) is None,
            Err(m) => spec_overlaps_from(plans@, 0, 1) == Some(m@),
        },
{
    let n = plans.len();
    let mut i: usize = 0;
    while i < n
        invariant
            n == plans@.len(),
            i <= n,
            spec_overlaps_from(plans@, 0, 1) == spec_overlaps_from(plans@, i as int, i + 1),
        decreases n - i,
    {
        let mut j: usize = i + 1;
        while j < n
            invariant
                n == plans@.len(),
                i < n,
                i + 1 <= j <= n,
                spec_overlaps_from(plans@, 0, 1) == spec_overlaps_from(plans@, i as int, j as int),
            decreases n - j,
        {
            match pair_overlap(&plans[i], &plans[j]) {
                Some(m) => {
                    return Err(m);
                },
                None => {},
            }
            j = j + 1;
        }
        i = i + 1;
    }
    Ok(())
}

/// No two entries of a plan set `check_overlaps` accepts nest, on
/// either side of the adoption.
pub proof fn law_accepted_plans_do_not_nest(plans: Seq<PlannedEntry>, i: int, j: int)
    requires
        spec_overlaps_from(plans, 0, 1) is None,
        0 <= i < j < plans.len(),
    ensures
        !nests(plans[i], plans[j]),
{
    lemma_overlaps_none(plans, 0, 1, i, j);
}

proof fn lemma_overlaps_none(plans: Seq<PlannedEntry>, a: int, b: int, i: int, j: int)
    requires
        spec_overlaps_from(plans, a, b) is None,
        0 <= a,
        a < b,
        0 <= i < j < plans.len(),
        a < i || (a == i && b <= j),
    ensures
        !nests(plans[i], plans[j]),
    decreases plans.len() - a, plans.len() + 1 - b,
{
    if a >= plans.len() {
    } else if b >= plans.len() {
        lemma_overlaps_none(plans, a + 1, a + 2, i, j);
    } else if a == i && b == j {
    } else {
        lemma_overlaps_none(plans, a, b + 1, i, j);
    }
}

// ── One planned entry ───────────────────────────────────────────────

/// Why one entry cannot join the plan.
#[derive(Debug)]
pub enum EntryRefusal {
    /// Something is already at the destination and `--force` was not given.
    DestinationOccupied { path: String },
    /// Another entry of this run lands at the same pack path.
    SamePackPath { message: String },
}

pub enum EntryRefusalView {
    DestinationOccupied(Seq<char>),
    SamePackPath(Seq<char>),
}

pub open spec fn refusal_view(o: Option<EntryRefusal>) -> Option<EntryRefusalView> {
    match o {
        Some(EntryRefusal::DestinationOccupied { path }) => Some(EntryRefusalView::DestinationOccupied(path@)),
        Some(EntryRefusal::SamePackPath { message }) => Some(EntryRefusalView::SamePackPath(message@)),
        None => None,
    }
}

/// An entry landing at `pack_dest` (in-pack path `in_pack`) is refused
/// when the destination is occupied without `--force`, or when an entry
/// already planned lands at the same path.
pub open spec fn spec_entry_refusal(
    planned_dests: Seq<Seq<char>>,
    pack_dest: Seq<char>,
    in_pack: Seq<char>,
    dest_exists: bool,
    force: bool,
) -> Option<EntryRefusalView> {
    if dest_exists && !force {
        Some(EntryRefusalView::DestinationOccupied(pack_dest))
    } else if exists|k: int| 0 <= k < planned_dests.len() && same_path(planned_dests[k], pack_dest) {
        Some(
            EntryRefusalView::SamePackPath(
                "two sources produce the same pack path '"@ + in_pack
                    + "'; adopt them separately"@,
            ),
        )
    } else {
        None
    }
}

fn same_path_exec(a: &str, b: &str) -> (r: bool)
    ensures
        r == same_path(a@, b@),
{
    let av = chars_of(a);
    let bv = chars_of(b);
    let ac = components_of(av.as_slice());
    let bc = components_of(bv.as_slice());
    is_absolute_exec(av.as_slice()) == is_absolute_exec(bv.as_slice()) && crate::paths::comps_eq(
        &ac,
        &bc,
    )
}

/// Whether one more entry may join the plan.
pub fn entry_refusal(
    planned_dests: &[String],
    pack_dest: &str,
    in_pack: &str,
    dest_exists: bool,
    force: bool,
) -> (r: Option<EntryRefusal>)
    ensures
        refusal_view(r) == spec_entry_refusal(
            crate::infer::strings_view(planned_dests@),
            pack_dest@,
            in_pack@,
            dest_exists,
            force,
        ),
{
    if dest_exists && !force {
        return Some(EntryRefusal::DestinationOccupied { path: String::from_str(pack_dest) });
    }
    let ghost dests = crate::infer::strings_view(planned_dests@);
    let mut k: usize = 0;
    while k < planned_dests.len()
        invariant
            k <= planned_dests@.len(),
            dests == crate::infer::strings_view(planned_dests@),
            !(dest_exists && !force),
            forall|m: int| 0 <= m < k ==> !same_path(dests[m], pack_dest@),
        decreases planned_dests.len() - k,
    {
        if same_path_exec(planned_dests[k].as_str(), pack_dest) {
            proof {
                assert(dests[k as int] == planned_dests@[k as int]@);
                assert(same_path(dests[k as int], pack_dest@));
                assert(exists|m: int| 0 <= m < dests.len() && same_path(dests[m], pack_dest@));
            }
            let mut v = chars_of("two sources produce the same pack path '");
            push_str(&mut v, in_pack);
            push_str(&mut v, "'; adopt them separately");
            return Some(EntryRefusal::SamePackPath { message: string_of(v.as_slice()) });
        }
        k = k + 1;
    }
    None
}

// ── Expanding a pack-root directory ─────────────────────────────────

/// One child of an expanded directory: its name and kind as the
/// directory read gave them, and whether something already exists at
/// the child's destination in the pack.
#[derive(Debug)]
pub struct ChildFacts {
    pub name: String,
    pub is_dir: bool,
    pub dest_exists: bool,
}

pub open spec fn children_view(cs: Seq<ChildFacts>) -> Seq<(Seq<char>, bool, bool)> {
    Seq::new(cs.len(), |i: int| (cs[i].name@, cs[i].is_dir, cs[i].dest_exists))
}

/// Why planning refuses the whole run.
#[derive(Debug)]
pub enum PlanRefusal {
    /// Something is already at this destination and `--force` was not given.
    Conflict { path: String },
    /// Any other refusal, by its message.
    Refused { message: String },
}

pub enum PlanRefusalView {
    Conflict(Seq<char>),
    Refused(Seq<char>),
}

impl View for PlanRefusal {
    type V = PlanRefusalView;

    open spec fn view(&self) -> PlanRefusalView {
        match self {
            PlanRefusal::Conflict { path } => PlanRefusalView::Conflict(path@),
            PlanRefusal::Refused { message } => PlanRefusalView::Refused(message@),
        }
    }
}

/// Everything the expansion of one directory depends on besides its
/// children and the entries already planned.
pub struct ExpandView {
    pub parent: InferredView,
    /// The directory, as displayed.
    pub dir: Seq<char>,
    pub pack_override: Option<Seq<char>>,
    pub only_os: Option<Seq<char>>,
    pub patterns: Seq<Seq<char>>,
    pub layer: crate::classify::IgnoreLayer,
    pub gates: Seq<(Seq<char>, crate::gates::PredicateView)>,
    pub host: crate::gates::HostView,
    pub pack: Seq<char>,
    pub pack_path: Seq<char>,
    pub force: bool,
}

/// A planned entry as `(source, in-pack path)`.
pub open spec fn plans_view(v: Seq<PlannedEntry>) -> Seq<(Seq<char>, Seq<char>)> {
    Seq::new(v.len(), |i: int| (v[i].source@, v[i].in_pack@))
}

/// Where planned entries land on disk.
pub open spec fn plan_dests(plans: Seq<(Seq<char>, Seq<char>)>, pack_path: Seq<char>) -> Seq<Seq<char>> {
    Seq::new(plans.len(), |i: int| path_join(pack_path, plans[i].1))
}

/// An unadoptable entry as `(name or path, rule)`.
pub open spec fn skipped_view(v: Seq<Skipped>) -> Seq<(Seq<char>, SkipRuleView)> {
    Seq::new(v.len(), |i: int| (v[i].name@, v[i].rule@))
}

/// The in-pack path of the child `name` of the expanded directory.
pub open spec fn expanded_in_pack(e: ExpandView, name: Seq<char>) -> Seq<char> {
    spec_gate_wrap(
        e.only_os,
        spec_expand_child(e.parent, name, override_differs(e.parent.natural_pack, e.pack_override)),
    )
}

/// One child's turn: a reserved name refuses the run; any other
/// discovery rule leaves the child where it is; an adoptable child joins
/// the plan unless its destination is taken.
pub open spec fn spec_child_step(
    e: ExpandView,
    st: (Seq<(Seq<char>, Seq<char>)>, Seq<(Seq<char>, SkipRuleView)>),
    c: (Seq<char>, bool, bool),
) -> Result<(Seq<(Seq<char>, Seq<char>)>, Seq<(Seq<char>, SkipRuleView)>), PlanRefusalView> {
    let ip = expanded_in_pack(e, c.0);
    let src = path_join(e.dir, c.0);
    match crate::classify::spec_classify(ip, c.1, e.patterns, e.layer, e.gates, e.host) {
        Some(SkipRuleView::Reserved(n)) => Err(
            PlanRefusalView::Refused(
                crate::classify::spec_refusal(SkipRuleView::Reserved(n), src, ip, e.pack),
            ),
        ),
        Some(rule) => Ok((st.0, st.1.push((c.0, rule)))),
        None => match spec_entry_refusal(
            plan_dests(st.0, e.pack_path),
            path_join(e.pack_path, ip),
            ip,
            c.2,
            e.force,
        ) {
            Some(EntryRefusalView::DestinationOccupied(p)) => Err(PlanRefusalView::Conflict(p)),
            Some(EntryRefusalView::SamePackPath(m)) => Err(PlanRefusalView::Refused(m)),
            None => Ok((st.0.push((src, ip)), st.1)),
        },
    }
}

/// The children taken in order, from the entries planned so far.
pub open spec fn spec_children_fold(
    e: ExpandView,
    init: Seq<(Seq<char>, Seq<char>)>,
    cs: Seq<(Seq<char>, bool, bool)>,
) -> Result<(Seq<(Seq<char>, Seq<char>)>, Seq<(Seq<char>, SkipRuleView)>), PlanRefusalView>
    decreases cs.len(),
{
    if cs.len() == 0 {
        Ok((init, Seq::empty()))
    } else {
        match spec_children_fold(e, init, cs.drop_last()) {
            Err(x) => Err(x),
            Ok(st) => spec_child_step(e, st, cs.last()),
        }
    }
}

/// The expansion of a directory: the plan with its adoptable children
/// added and the children left in place, or the refusal. A directory
/// none of whose children joins the plan is refused, listing them.
pub open spec fn spec_expand(
    e: ExpandView,
    init: Seq<(Seq<char>, Seq<char>)>,
    cs: Seq<(Seq<char>, bool, bool)>,
) -> Result<(Seq<(Seq<char>, Seq<char>)>, Seq<(Seq<char>, SkipRuleView)>), PlanRefusalView> {
    match spec_children_fold(e, init, cs) {
        Err(x) => Err(x),
        Ok(st) => if st.0.len() == init.len() {
            Err(
                PlanRefusalView::Refused(
                    spec_no_adoptable_children(
                        e.dir,
                        Seq::new(st.1.len(), |k: int| st.1[k].0),
                        Seq::new(st.1.len(), |k: int| st.1[k].1),
                        e.pack,
                    ),
                ),
            )
        } else {
            Ok(st)
        },
    }
}

/// Once a prefix of the children refuses the run, so do all of them.
proof fn lemma_fold_refusal_sticks(
    e: ExpandView,
    init: Seq<(Seq<char>, Seq<char>)>,
    cs: Seq<(Seq<char>, bool, bool)>,
    i: int,
)
    requires
        0 <= i <= cs.len(),
        spec_children_fold(e, init, cs.take(i)) is Err,
    ensures
        spec_children_fold(e, init, cs) == spec_children_fold(e, init, cs.take(i)),
    decreases cs.len() - i,
{
    if i < cs.len() {
        assert(cs.take(i + 1).drop_last() =~= cs.take(i));
        lemma_fold_refusal_sticks(e, init, cs, i + 1);
    } else {
        assert(cs.take(i) =~= cs);
    }
}

/// The rule a pack scan applies to the child `c` at its in-pack path.
pub open spec fn child_rule(e: ExpandView, c: (Seq<char>, bool, bool)) -> Option<SkipRuleView> {
    crate::classify::spec_classify(expanded_in_pack(e, c.0), c.1, e.patterns, e.layer, e.gates, e.host)
}

/// No two of the destinations name the same path.
pub open spec fn dests_distinct(d: Seq<Seq<char>>) -> bool {
    forall|a: int, b: int| 0 <= a < b < d.len() ==> !same_path(#[trigger] d[a], #[trigger] d[b])
}

/// What every successful prefix of the fold keeps: the earlier plan
/// comes first unchanged, each added entry is a child a pack scan reads,
/// at its own in-pack path, each child left behind carries the
/// non-reserved rule that skips it, and no two destinations coincide.
proof fn lemma_fold_ok(
    e: ExpandView,
    init: Seq<(Seq<char>, Seq<char>)>,
    cs: Seq<(Seq<char>, bool, bool)>,
)
    requires
        spec_children_fold(e, init, cs) is Ok,
    ensures
        ({
            let st = spec_children_fold(e, init, cs)->Ok_0;
            &&& st.0.len() >= init.len()
            &&& st.0.take(init.len() as int) == init
            &&& forall|k: int|
                init.len() <= k < st.0.len() ==> exists|j: int|
                    0 <= j < cs.len() && #[trigger] st.0[k] == (
                        path_join(e.dir, cs[j].0),
                        expanded_in_pack(e, cs[j].0),
                    ) && child_rule(e, cs[j]) is None
            &&& forall|k: int|
                0 <= k < st.1.len() ==> exists|j: int|
                    0 <= j < cs.len() && (#[trigger] st.1[k]).0 == cs[j].0 && child_rule(e, cs[j])
                        == Some(st.1[k].1) && !(st.1[k].1 is Reserved)
            &&& dests_distinct(plan_dests(init, e.pack_path)) ==> dests_distinct(
                plan_dests(st.0, e.pack_path),
            )
        }),
    decreases cs.len(),
{
    if cs.len() == 0 {
        assert(init.take(init.len() as int) =~= init);
    } else {
        let prev = cs.drop_last();
        lemma_fold_ok(e, init, prev);
        let st0 = spec_children_fold(e, init, prev)->Ok_0;
        let c = cs.last();
        let st = spec_children_fold(e, init, cs)->Ok_0;
        let last = cs.len() - 1;
        assert(cs[last] == c);
        assert forall|j: int| 0 <= j < prev.len() implies #[trigger] prev[j] == cs[j] by {}
        match child_rule(e, c) {
            Some(rule) => {
                assert(st.0 == st0.0);
                assert(st.1 == st0.1.push((c.0, rule)));
                assert forall|k: int| init.len() <= k < st.0.len() implies exists|j: int|
                    0 <= j < cs.len() && #[trigger] st.0[k] == (
                        path_join(e.dir, cs[j].0),
                        expanded_in_pack(e, cs[j].0),
                    ) && child_rule(e, cs[j]) is None by {
                    let j = choose|j: int|
                        0 <= j < prev.len() && #[trigger] st0.0[k] == (
                            path_join(e.dir, prev[j].0),
                            expanded_in_pack(e, prev[j].0),
                        ) && child_rule(e, prev[j]) is None;
                    assert(prev[j] == cs[j]);
                }
                assert forall|k: int| 0 <= k < st.1.len() implies exists|j: int|
                    0 <= j < cs.len() && (#[trigger] st.1[k]).0 == cs[j].0 && child_rule(e, cs[j])
                        == Some(st.1[k].1) && !(st.1[k].1 is Reserved) by {
                    if k < st0.1.len() {
                        assert(st.1[k] == st0.1[k]);
                        let j = choose|j: int|
                            0 <= j < prev.len() && (#[trigger] st0.1[k]).0 == prev[j].0 && child_rule(
                                e,
                                prev[j],
                            ) == Some(st0.1[k].1) && !(st0.1[k].1 is Reserved);
                        assert(prev[j] == cs[j]);
                    } else {
                        assert(st.1[k] == (c.0, rule));
                        assert(cs[last] == c);
                    }
                }
            },
            None => {
                let ip = expanded_in_pack(e, c.0);
                let dests0 = plan_dests(st0.0, e.pack_path);
                assert(spec_entry_refusal(dests0, path_join(e.pack_path, ip), ip, c.2, e.force) is None);
                assert(st.0 == st0.0.push((path_join(e.dir, c.0), ip)));
                assert(st.1 == st0.1);
                assert(st.0.take(init.len() as int) =~= st0.0.take(init.len() as int));
                assert forall|k: int| init.len() <= k < st.0.len() implies exists|j: int|
                    0 <= j < cs.len() && #[trigger] st.0[k] == (
                        path_join(e.dir, cs[j].0),
                        expanded_in_pack(e, cs[j].0),
                    ) && child_rule(e, cs[j]) is None by {
                    if k < st0.0.len() {
                        assert(st.0[k] == st0.0[k]);
                        let j = choose|j: int|
                            0 <= j < prev.len() && #[trigger] st0.0[k] == (
                                path_join(e.dir, prev[j].0),
                                expanded_in_pack(e, prev[j].0),
                            ) && child_rule(e, prev[j]) is None;
                        assert(prev[j] == cs[j]);
                    } else {
                        assert(st.0[k] == (path_join(e.dir, c.0), ip));
                        assert(cs[last] == c);
                    }
                }
                assert forall|k: int| 0 <= k < st.1.len() implies exists|j: int|
                    0 <= j < cs.len() && (#[trigger] st.1[k]).0 == cs[j].0 && child_rule(e, cs[j])
                        == Some(st.1[k].1) && !(st.1[k].1 is Reserved) by {
                    let j = choose|j: int|
                        0 <= j < prev.len() && (#[trigger] st0.1[k]).0 == prev[j].0 && child_rule(
                            e,
                            prev[j],
                        ) == Some(st0.1[k].1) && !(st0.1[k].1 is Reserved);
                    assert(prev[j] == cs[j]);
                }
                if dests_distinct(plan_dests(init, e.pack_path)) {
                    let d = plan_dests(st.0, e.pack_path);
                    assert(dests_distinct(dests0));
                    assert forall|a: int, b: int| 0 <= a < b < d.len() implies !same_path(
                        #[trigger] d[a],
                        #[trigger] d[b],
                    ) by {
                        if b < dests0.len() {
                            assert(d[a] == dests0[a]);
                            assert(d[b] == dests0[b]);
                        } else {
                            assert(d[a] == dests0[a]);
                            assert(d[b] == path_join(e.pack_path, ip));
                            if same_path(dests0[a], path_join(e.pack_path, ip)) {
                                assert(exists|m: int|
                                    0 <= m < dests0.len() && same_path(
                                        dests0[m],
                                        path_join(e.pack_path, ip),
                                    ));
                            }
                        }
                    }
                }
            },
        }
    }
}

/// An expansion that succeeds adds only children a pack scan reads, each
/// from the directory to its own in-pack path, leaves behind only
/// children a discovery rule other than a reserved name skips, and lands
/// no two entries at the same destination when the earlier ones did not.
pub proof fn law_expansion_adds_only_scanned_children(
    e: ExpandView,
    init: Seq<(Seq<char>, Seq<char>)>,
    cs: Seq<(Seq<char>, bool, bool)>,
)
    requires
        spec_expand(e, init, cs) is Ok,
    ensures
        ({
            let st = spec_expand(e, init, cs)->Ok_0;
            &&& st.0.len() > init.len()
            &&& st.0.take(init.len() as int) == init
            &&& forall|k: int|
                init.len() <= k < st.0.len() ==> exists|j: int|
                    0 <= j < cs.len() && #[trigger] st.0[k] == (
                        path_join(e.dir, cs[j].0),
                        expanded_in_pack(e, cs[j].0),
                    ) && child_rule(e, cs[j]) is None
            &&& forall|k: int|
                0 <= k < st.1.len() ==> exists|j: int|
                    0 <= j < cs.len() && (#[trigger] st.1[k]).0 == cs[j].0 && child_rule(e, cs[j])
                        == Some(st.1[k].1) && !(st.1[k].1 is Reserved)
            &&& dests_distinct(plan_dests(init, e.pack_path)) ==> dests_distinct(
                plan_dests(st.0, e.pack_path),
            )
        }),
{
    lemma_fold_ok(e, init, cs);
}

/// Where already-planned entries land on disk.
fn plan_dest_list(plans: &[PlannedEntry], pack_path: &str) -> (r: Vec<String>)
    ensures
        crate::infer::strings_view(r@) == plan_dests(plans_view(plans@), pack_path@),
{
    let mut out: Vec<String> = Vec::new();
    let mut i: usize = 0;
    while i < plans.len()
        invariant
            i <= plans@.len(),
            crate::infer::strings_view(out@) == plan_dests(plans_view(plans@).take(i as int), pack_path@),
        decreases plans.len() - i,
    {
        let d = path_join_exec(pack_path, plans[i].in_pack.as_str());
        let ghost before = out@;
        out.push(d);
        proof {
            let pv = plans_view(plans@);
            let want = plan_dests(pv.take(i + 1), pack_path@);
            let had = plan_dests(pv.take(i as int), pack_path@);
            assert(crate::infer::strings_view(before) == had);
            assert(out@ == before.push(d));
            assert(had.len() == i);
            assert(before.len() == i);
            assert forall|k: int| 0 <= k < i + 1 implies #[trigger] crate::infer::strings_view(out@)[k]
                == want[k] by {
                if k < i {
                    assert(crate::infer::strings_view(before)[k] == had[k]);
                    assert(out@[k] == before[k]);
                } else {
                    assert(out@[k] == d);
                }
            }
            assert(crate::infer::strings_view(out@) =~= want);
        }
        i = i + 1;
    }
    proof {
        assert(plans_view(plans@).take(plans@.len() as int) =~= plans_view(plans@));
    }
    out
}

/// Plan the children of a source that is a pack-root directory, in the
/// order the directory read gave them, after the entries of `plans`.
/// On success the adoptable children have joined `plans` and the result
/// lists the children left in place, by path; `dir` is the directory as
/// displayed and `pack_path` the pack's directory.
pub fn plan_children(
    plans: &mut Vec<PlannedEntry>,
    parent: &InferredTarget,
    dir: &str,
    children: &[ChildFacts],
    pack_override: Option<&str>,
    only_os: Option<&str>,
    ignore: &crate::classify::EffectiveIgnore,
    gates: &GateTable,
    host: &crate::gates::HostFacts,
    pack: &str,
    pack_path: &str,
    force: bool,
) -> (r: Result<Vec<Skipped>, PlanRefusal>)
    ensures
        ({
            let e = ExpandView {
                parent: parent@,
                dir: dir@,
                pack_override: opt_str(pack_override),
                only_os: opt_str(only_os),
                patterns: crate::infer::strings_view(ignore.patterns@),
                layer: ignore.layer,
                gates: gates@,
                host: host@,
                pack: pack@,
                pack_path: pack_path@,
                force,
            };
            match (r, spec_expand(e, plans_view(old(plans)@), children_view(children@))) {
                (Ok(left), Ok(st)) => {
                    &&& plans_view(final(plans)@) == st.0
                    &&& skipped_view(left@) == Seq::new(
                        st.1.len(),
                        |k: int| (path_join(dir@, st.1[k].0), st.1[k].1),
                    )
                },
                (Err(x), Err(y)) => x@ == y,
                _ => false,
            }
        }),
{
    let ghost e = ExpandView {
        parent: parent@,
        dir: dir@,
        pack_override: opt_str(pack_override),
        only_os: opt_str(only_os),
        patterns: crate::infer::strings_view(ignore.patterns@),
        layer: ignore.layer,
        gates: gates@,
        host: host@,
        pack: pack@,
        pack_path: pack_path@,
        force,
    };
    let ghost init = plans_view(plans@);
    let ghost cs = children_view(children@);
    let init_len = plans.len();
    let mut dests = plan_dest_list(plans.as_slice(), pack_path);
    let mut unadoptable: Vec<Skipped> = Vec::new();
    let mut left: Vec<Skipped> = Vec::new();
    let mut i: usize = 0;
    proof {
        assert(cs.take(0) =~= Seq::<(Seq<char>, bool, bool)>::empty());
        assert(skipped_view(unadoptable@) =~= Seq::<(Seq<char>, SkipRuleView)>::empty());
    }
    while i < children.len()
        invariant
            i <= children@.len(),
            cs == children_view(children@),
            init_len == init.len(),
            init == plans_view(old(plans)@),
            left@.len() == unadoptable@.len(),
            e.parent == parent@ && e.dir == dir@ && e.pack_override == opt_str(pack_override)
                && e.only_os == opt_str(only_os) && e.patterns == crate::infer::strings_view(
                ignore.patterns@,
            ) && e.layer == ignore.layer && e.gates == gates@ && e.host == host@ && e.pack == pack@
                && e.pack_path == pack_path@ && e.force == force,
            spec_children_fold(e, init, cs.take(i as int)) == Ok::<
                (Seq<(Seq<char>, Seq<char>)>, Seq<(Seq<char>, SkipRuleView)>),
                PlanRefusalView,
            >((plans_view(plans@), skipped_view(unadoptable@))),
            crate::infer::strings_view(dests@) == plan_dests(plans_view(plans@), pack_path@),
            skipped_view(left@) == Seq::new(
                unadoptable@.len(),
                |k: int| (path_join(dir@, unadoptable@[k].name@), unadoptable@[k].rule@),
            ),
        decreases children.len() - i,
    {
        let c = &children[i];
        proof {
            assert(cs.take(i + 1).drop_last() =~= cs.take(i as int));
            assert(cs.take(i + 1).last() == (c.name@, c.is_dir, c.dest_exists));
        }
        let ghost st = (plans_view(plans@), skipped_view(unadoptable@));
        let ip = child_in_pack(parent, c.name.as_str(), pack_override, only_os);
        let src = path_join_exec(dir, c.name.as_str());
        match crate::classify::classify(ip.as_str(), c.is_dir, ignore, gates, host) {
            Some(rule) => {
                match &rule {
                    SkipRule::Reserved { .. } => {
                        let m = rule.refusal(src.as_str(), ip.as_str(), pack);
                        proof {
                            let step = spec_child_step(e, st, (c.name@, c.is_dir, c.dest_exists));
                            assert(step == Err::<
                                (Seq<(Seq<char>, Seq<char>)>, Seq<(Seq<char>, SkipRuleView)>),
                                PlanRefusalView,
                            >(PlanRefusalView::Refused(m@)));
                            assert(spec_children_fold(e, init, cs.take(i + 1)) == step);
                            lemma_fold_refusal_sticks(e, init, cs, i + 1);
                        }
                        return Err(PlanRefusal::Refused { message: m });
                    },
                    _ => {},
                }
                let second = rule.duplicate();
                let ghost left0 = left@;
                let ghost unad0 = unadoptable@;
                let ghost rv = rule@;
                left.push(Skipped { name: src, rule: second });
                unadoptable.push(Skipped { name: c.name.clone(), rule });
                proof {
                    assert(left@.len() == unadoptable@.len());
                    assert(left0.len() == unad0.len());
                    assert forall|k: int| 0 <= k < unadoptable@.len() implies #[trigger] skipped_view(
                        left@,
                    )[k] == (path_join(dir@, unadoptable@[k].name@), unadoptable@[k].rule@) by {
                        if k < unad0.len() {
                            assert(left@[k] == left0[k]);
                            assert(unadoptable@[k] == unad0[k]);
                            assert(skipped_view(left0)[k] == (
                                path_join(dir@, unad0[k].name@),
                                unad0[k].rule@,
                            ));
                        }
                    }
                    assert(skipped_view(unadoptable@) =~= st.1.push(
                        (c.name@, unadoptable@.last().rule@),
                    ));
                    assert(skipped_view(left@) =~= Seq::new(
                        unadoptable@.len(),
                        |k: int| (path_join(dir@, unadoptable@[k].name@), unadoptable@[k].rule@),
                    ));
                }
            },
            None => {
                let pack_dest = path_join_exec(pack_path, ip.as_str());
                match entry_refusal(dests.as_slice(), pack_dest.as_str(), ip.as_str(), c.dest_exists, force) {
                    Some(EntryRefusal::DestinationOccupied { path }) => {
                        proof {
                            lemma_fold_refusal_sticks(e, init, cs, i + 1);
                        }
                        return Err(PlanRefusal::Conflict { path });
                    },
                    Some(EntryRefusal::SamePackPath { message }) => {
                        proof {
                            lemma_fold_refusal_sticks(e, init, cs, i + 1);
                        }
                        return Err(PlanRefusal::Refused { message });
                    },
                    None => {},
                }
                let ghost plans0 = plans@;
                let ghost dests0 = dests@;
                let ghost ipv = ip@;
                let ghost dv = pack_dest@;
                plans.push(PlannedEntry { source: src, in_pack: ip });
                dests.push(pack_dest);
                proof {
                    assert(plans_view(plans@) =~= st.0.push((path_join(dir@, c.name@), ipv)));
                    let want = plan_dests(plans_view(plans@), pack_path@);
                    let had = plan_dests(plans_view(plans0), pack_path@);
                    assert(crate::infer::strings_view(dests0) == had);
                    assert(had.len() == plans0.len());
                    assert(dests0.len() == plans0.len());
                    assert forall|k: int| 0 <= k < plans@.len() implies #[trigger] crate::infer::strings_view(
                        dests@,
                    )[k] == want[k] by {
                        if k < plans0.len() {
                            assert(dests@[k] == dests0[k]);
                            assert(plans@[k] == plans0[k]);
                            assert(crate::infer::strings_view(dests0)[k] == had[k]);
                        } else {
                            assert(dests@[k]@ == dv);
                            assert(plans@[k].in_pack@ == ipv);
                        }
                    }
                    assert(crate::infer::strings_view(dests@) =~= want);
                }
            },
        }
        i = i + 1;
    }
    proof {
        assert(cs.take(children@.len() as int) =~= cs);
    }
    if plans.len() == init_len {
        let m = no_adoptable_children(dir, unadoptable.as_slice(), pack);
        proof {
            let u = skipped_view(unadoptable@);
            assert(skipped_names(unadoptable@) =~= Seq::new(u.len(), |k: int| u[k].0));
            assert(skipped_rules(unadoptable@) =~= Seq::new(u.len(), |k: int| u[k].1));
        }
        return Err(PlanRefusal::Refused { message: m });
    }
    Ok(left)
}

/// A source adopted on its own: refused when no pack scan would read it
/// at its in-pack path `in_pack`, or when its destination is taken;
/// otherwise it joins the plan as `(source, in_pack)`.
pub open spec fn spec_plan_source(
    plans: Seq<(Seq<char>, Seq<char>)>,
    source: Seq<char>,
    in_pack: Seq<char>,
    is_dir: bool,
    dest_exists: bool,
    patterns: Seq<Seq<char>>,
    layer: crate::classify::IgnoreLayer,
    gates: Seq<(Seq<char>, crate::gates::PredicateView)>,
    host: crate::gates::HostView,
    pack: Seq<char>,
    pack_path: Seq<char>,
    force: bool,
) -> Result<Seq<(Seq<char>, Seq<char>)>, PlanRefusalView> {
    match crate::classify::spec_classify(in_pack, is_dir, patterns, layer, gates, host) {
        Some(rule) => Err(
            PlanRefusalView::Refused(crate::classify::spec_refusal(rule, source, in_pack, pack)),
        ),
        None => match spec_entry_refusal(
            plan_dests(plans, pack_path),
            path_join(pack_path, in_pack),
            in_pack,
            dest_exists,
            force,
        ) {
            Some(EntryRefusalView::DestinationOccupied(p)) => Err(PlanRefusalView::Conflict(p)),
            Some(EntryRefusalView::SamePackPath(m)) => Err(PlanRefusalView::Refused(m)),
            None => Ok(plans.push((source, in_pack))),
        },
    }
}

/// Plan a source the user typed, landing at `in_pack` (see
/// `in_pack_for_source`); `source` is its path as displayed and
/// `dest_exists` whether something is already at its destination.
pub fn plan_source(
    plans: &mut Vec<PlannedEntry>,
    source: &str,
    in_pack: &str,
    is_dir: bool,
    dest_exists: bool,
    ignore: &crate::classify::EffectiveIgnore,
    gates: &GateTable,
    host: &crate::gates::HostFacts,
    pack: &str,
    pack_path: &str,
    force: bool,
) -> (r: Result<(), PlanRefusal>)
    ensures
        match (
            r,
            spec_plan_source(
                plans_view(old(plans)@),
                source@,
                in_pack@,
                is_dir,
                dest_exists,
                crate::infer::strings_view(ignore.patterns@),
                ignore.layer,
                gates@,
                host@,
                pack@,
                pack_path@,
                force,
            ),
        ) {
            (Ok(()), Ok(after)) => plans_view(final(plans)@) == after,
            (Err(x), Err(y)) => x@ == y && final(plans)@ == old(plans)@,
            _ => false,
        },
{
    match crate::classify::classify(in_pack, is_dir, ignore, gates, host) {
        Some(rule) => {
            return Err(PlanRefusal::Refused { message: rule.refusal(source, in_pack, pack) });
        },
        None => {},
    }
    let dests = plan_dest_list(plans.as_slice(), pack_path);
    let pack_dest = path_join_exec(pack_path, in_pack);
    match entry_refusal(dests.as_slice(), pack_dest.as_str(), in_pack, dest_exists, force) {
        Some(EntryRefusal::DestinationOccupied { path }) => {
            return Err(PlanRefusal::Conflict { path });
        },
        Some(EntryRefusal::SamePackPath { message }) => {
            return Err(PlanRefusal::Refused { message });
        },
        None => {},
    }
    let ghost before = plans@;
    plans.push(PlannedEntry { source: String::from_str(source), in_pack: String::from_str(in_pack) });
    proof {
        assert(plans_view(plans@) =~= plans_view(before).push((source@, in_pack@)));
    }
    Ok(())
}

/// Where each planned source's symlink points once its entry is
/// published: the entry's place in the pack.
pub fn symlink_targets(plans: &[PlannedEntry], pack_path: &str) -> (r: Vec<(String, String)>)
    ensures
        r@.len() == plans@.len(),
        forall|i: int|
            0 <= i < plans@.len() ==> (#[trigger] r@[i]).0@ == plans@[i].source@ && r@[i].1@
                == path_join(pack_path@, plans@[i].in_pack@),
{
    let mut out: Vec<(String, String)> = Vec::new();
    let mut i: usize = 0;
    while i < plans.len()
        invariant
            i <= plans@.len(),
            out@.len() == i,
            forall|k: int|
                0 <= k < i ==> (#[trigger] out@[k]).0@ == plans@[k].source@ && out@[k].1@
                    == path_join(pack_path@, plans@[k].in_pack@),
        decreases plans.len() - i,
    {
        out.push((plans[i].source.clone(), path_join_exec(pack_path, plans[i].in_pack.as_str())));
        i = i + 1;
    }
    out
}

// ── Sources already adopted ─────────────────────────────────────────

/// The skip message for a source that is a symlink into dodot's data
/// directory (fully managed) or straight into the dotfiles root (a
/// direct symlink `dodot up` upgrades); `None` for any other target.
/// `resolved` is the link's target resolved against its parent.
pub open spec fn spec_already_adopted(
    source: Seq<char>,
    raw_target: Seq<char>,
    resolved: Seq<char>,
    data_dir: Seq<char>,
    dotfiles_root: Seq<char>,
    pack: Seq<char>,
) -> Option<Seq<char>> {
    if path_starts_with(resolved, data_dir) {
        Some("skipped: "@ + source + " is already managed by dodot (-> "@ + raw_target + ")"@)
    } else if path_starts_with(resolved, dotfiles_root) {
        Some(
            "skipped: "@ + source + " is a direct symlink to pack source (-> "@ + raw_target
                + "); run `dodot up "@ + pack + "` to upgrade it to dodot's full chain"@,
        )
    } else {
        None
    }
}

/// The skip message for a source that is already adopted, if it is.
pub fn already_adopted_message(
    source: &str,
    raw_target: &str,
    resolved: &str,
    data_dir: &str,
    dotfiles_root: &str,
    pack: &str,
) -> (r: Option<String>)
    ensures
        opt_view(r) == spec_already_adopted(
            source@,
            raw_target@,
            resolved@,
            data_dir@,
            dotfiles_root@,
            pack@,
        ),
{
    if starts_with_path(resolved, data_dir) {
        let mut v = chars_of("skipped: ");
        push_str(&mut v, source);
        push_str(&mut v, " is already managed by dodot (-> ");
        push_str(&mut v, raw_target);
        push_str(&mut v, ")");
        Some(string_of(v.as_slice()))
    } else if starts_with_path(resolved, dotfiles_root) {
        let mut v = chars_of("skipped: ");
        push_str(&mut v, source);
        push_str(&mut v, " is a direct symlink to pack source (-> ");
        push_str(&mut v, raw_target);
        push_str(&mut v, "); run `dodot up ");
        push_str(&mut v, pack);
        push_str(&mut v, "` to upgrade it to dodot's full chain");
        Some(string_of(v.as_slice()))
    } else {
        None
    }
}

// ── What the run reports ────────────────────────────────────────────

/// The row a dry run shows for a planned entry when the pack is not on
/// disk yet.
pub open spec fn planned_row_ok(row: DisplayFile, p: PlannedEntry) -> bool {
    &&& row.name@ == p.in_pack@
    &&& row.symbol@ == "+"@
    &&& row.description@ == "would adopt "@ + p.source@
    &&& row.status@ == "pending"@
    &&& row.status_label@ == "planned"@
    &&& row.handler@ == Seq::<char>::empty()
    &&& row.note_ref is None
}

/// The rows listing what a run would adopt into a pack not yet on disk.
pub fn planned_rows(plans: &[PlannedEntry]) -> (r: Vec<DisplayFile>)
    ensures
        r@.len() == plans@.len(),
        forall|i: int| 0 <= i < plans@.len() ==> planned_row_ok(#[trigger] r@[i], plans@[i]),
{
    let mut out: Vec<DisplayFile> = Vec::new();
    let mut i: usize = 0;
    while i < plans.len()
        invariant
            i <= plans@.len(),
            out@.len() == i,
            forall|j: int| 0 <= j < i ==> planned_row_ok(#[trigger] out@[j], plans@[j]),
        decreases plans.len() - i,
    {
        let mut d = chars_of("would adopt ");
        push_str(&mut d, plans[i].source.as_str());
        let handler = String::new();
        proof {
            assert(handler@ =~= Seq::<char>::empty());
        }
        out.push(
            DisplayFile {
                name: plans[i].in_pack.clone(),
                symbol: String::from_str("+"),
                description: string_of(d.as_slice()),
                status: String::from_str("pending"),
                status_label: String::from_str("planned"),
                handler,
                note_ref: None,
            },
        );
        i = i + 1;
    }
    out
}

/// An entry a rollback could not put back, and where its content is.
#[derive(Debug)]
pub struct StrandedEntry {
    pub in_pack: String,
    pub at: String,
}

/// The note for a source that could not be replaced.
pub open spec fn spec_failure_note(source: Seq<char>, reason: Seq<char>, stranded: bool) -> Seq<char> {
    "adopt failed: "@ + source + ": "@ + reason + " — "@ + if stranded {
        "putting the pack back the way it was failed too"@
    } else {
        "its pack entry was taken back out"@
    }
}

/// The note for a source that could not be replaced; what it may claim
/// depends on whether the recovery left anything stranded.
pub fn failure_note(source: &str, reason: &str, stranded: bool) -> (r: String)
    ensures
        r@ == spec_failure_note(source@, reason@, stranded),
{
    let mut v = chars_of("adopt failed: ");
    push_str(&mut v, source);
    push_str(&mut v, ": ");
    push_str(&mut v, reason);
    push_str(&mut v, " — ");
    if stranded {
        push_str(&mut v, "putting the pack back the way it was failed too");
    } else {
        push_str(&mut v, "its pack entry was taken back out");
    }
    string_of(v.as_slice())
}

/// The note naming where a stranded entry's content is.
pub open spec fn spec_stranded_note(in_pack: Seq<char>, at: Seq<char>, staging: Seq<char>) -> Seq<char> {
    "adopt could not put back the pack's pre-adopt state for "@ + in_pack
        + ": the content it could not move is at "@ + at
        + ". Nothing was deleted to get past that, and the staging directory "@ + staging
        + " is kept rather than discarded — move what you need back by hand, then remove that directory."@
}

/// The note naming where a stranded entry's content is.
pub fn stranded_note(entry: &StrandedEntry, staging: &str) -> (r: String)
    ensures
        r@ == spec_stranded_note(entry.in_pack@, entry.at@, staging@),
{
    let mut v = chars_of("adopt could not put back the pack's pre-adopt state for ");
    push_str(&mut v, entry.in_pack.as_str());
    push_str(&mut v, ": the content it could not move is at ");
    push_str(&mut v, entry.at.as_str());
    push_str(&mut v, ". Nothing was deleted to get past that, and the staging directory ");
    push_str(&mut v, staging);
    push_str(
        &mut v,
        " is kept rather than discarded — move what you need back by hand, then remove that directory.",
    );
    string_of(v.as_slice())
}

// ── Undoing a publication ───────────────────────────────────────────

/// One entry a publication into an existing pack reached.
#[derive(Debug)]
pub struct PublishedEntry {
    pub in_pack: String,
    pub final_path: String,
    /// Where `--force` moved the destination's earlier content, if it did.
    pub displaced: Option<String>,
    /// Whether the rename into `final_path` succeeded.
    pub published: bool,
}

/// What undoing one entry achieved.
#[derive(Debug)]
pub enum UndoVerdict {
    /// The in-pack path holds its pre-adopt state again.
    Restored(String),
    /// Content could not be put back; it is at the given place.
    Stranded(StrandedEntry),
    /// The entry changed nothing, so there was nothing to undo.
    Untouched,
}

pub enum UndoVerdictView {
    Restored(Seq<char>),
    Stranded(Seq<char>, Seq<char>),
    Untouched,
}

pub open spec fn verdict_view(v: UndoVerdict) -> UndoVerdictView {
    match v {
        UndoVerdict::Restored(p) => UndoVerdictView::Restored(p@),
        UndoVerdict::Stranded(e) => UndoVerdictView::Stranded(e.in_pack@, e.at@),
        UndoVerdict::Untouched => UndoVerdictView::Untouched,
    }
}

/// An entry is restored only once its final path holds its pre-adopt
/// state: displaced content back, or, when nothing was displaced, the
/// published entry gone. `final_path_free` says whether the published
/// entry (if any) was moved out; `displaced_back` whether displaced
/// content was renamed back (only tried when the path was free).
pub open spec fn spec_undo_verdict(
    e: PublishedEntry,
    final_path_free: bool,
    displaced_back: bool,
) -> UndoVerdictView {
    match e.displaced {
        Some(d) => if final_path_free && displaced_back {
            UndoVerdictView::Restored(e.in_pack@)
        } else {
            UndoVerdictView::Stranded(e.in_pack@, d@)
        },
        None => if e.published {
            if final_path_free {
                UndoVerdictView::Restored(e.in_pack@)
            } else {
                UndoVerdictView::Stranded(e.in_pack@, e.final_path@)
            }
        } else {
            UndoVerdictView::Untouched
        },
    }
}

/// Whether undoing `e` must first move its published content out.
pub fn needs_vacate(e: &PublishedEntry) -> (r: bool)
    ensures
        r == e.published,
{
    e.published
}

/// Whether undoing `e` renames displaced content back, given whether the
/// final path is free.
pub fn restores_displaced(e: &PublishedEntry, final_path_free: bool) -> (r: bool)
    ensures
        r == (e.displaced is Some && final_path_free),
{
    e.displaced.is_some() && final_path_free
}

/// What undoing one entry achieved.
pub fn undo_verdict(e: &PublishedEntry, final_path_free: bool, displaced_back: bool) -> (r:
    UndoVerdict)
    ensures
        verdict_view(r) == spec_undo_verdict(*e, final_path_free, displaced_back),
{
    match &e.displaced {
        Some(d) => if final_path_free && displaced_back {
            UndoVerdict::Restored(e.in_pack.clone())
        } else {
            UndoVerdict::Stranded(StrandedEntry { in_pack: e.in_pack.clone(), at: d.clone() })
        },
        None => if e.published {
            if final_path_free {
                UndoVerdict::Restored(e.in_pack.clone())
            } else {
                UndoVerdict::Stranded(
                    StrandedEntry { in_pack: e.in_pack.clone(), at: e.final_path.clone() },
                )
            }
        } else {
            UndoVerdict::Untouched
        },
    }
}

/// The outcome of undoing a publication: the in-pack paths put back,
/// and the entries that could not be, each in plan order.
pub fn undo_outcome(verdicts: &[UndoVerdict]) -> (r: (Vec<String>, Vec<StrandedEntry>))
    ensures
        r.0@.map_values(|s: String| s@) == verdicts@.filter(|v: UndoVerdict| v is Restored).map_values(
            |v: UndoVerdict| v->Restored_0@,
        ),
        r.1@.map_values(|e: StrandedEntry| (e.in_pack@, e.at@)) == verdicts@.filter(
            |v: UndoVerdict| v is Stranded,
        ).map_values(|v: UndoVerdict| (v->Stranded_0.in_pack@, v->Stranded_0.at@)),
{
    let ghost all = verdicts@;
    let ghost is_r = |v: UndoVerdict| v is Restored;
    let ghost is_s = |v: UndoVerdict| v is Stranded;
    let mut restored: Vec<String> = Vec::new();
    let mut stranded: Vec<StrandedEntry> = Vec::new();
    let mut i: usize = 0;
    let n = verdicts.len();
    proof {
        assert(all.take(0) =~= Seq::<UndoVerdict>::empty());
        assert(restored@.map_values(|s: String| s@) =~= all.take(0).filter(is_r).map_values(
            |v: UndoVerdict| v->Restored_0@,
        ));
        assert(stranded@.map_values(|e: StrandedEntry| (e.in_pack@, e.at@)) =~= all.take(0).filter(
            is_s,
        ).map_values(|v: UndoVerdict| (v->Stranded_0.in_pack@, v->Stranded_0.at@)));
    }
    while i < n
        invariant
            n == all.len(),
            all == verdicts@,
            i <= n,
            is_r == (|v: UndoVerdict| v is Restored),
            is_s == (|v: UndoVerdict| v is Stranded),
            restored@.map_values(|s: String| s@) == all.take(i as int).filter(is_r).map_values(
                |v: UndoVerdict| v->Restored_0@,
            ),
            stranded@.map_values(|e: StrandedEntry| (e.in_pack@, e.at@)) == all.take(
                i as int,
            ).filter(is_s).map_values(|v: UndoVerdict| (v->Stranded_0.in_pack@, v->Stranded_0.at@)),
        decreases n - i,
    {
        let v = &verdicts[i];
        proof {
            assert(all.take(i + 1) =~= all.take(i as int).push(*v));
            all.take(i as int).lemma_filter_push(*v, is_r);
            all.take(i as int).lemma_filter_push(*v, is_s);
        }
        match v {
            UndoVerdict::Restored(p) => {
                let ghost old_r = restored@;
                restored.push(p.clone());
                proof {
                    assert(restored@.map_values(|s: String| s@) =~= old_r.map_values(|s: String| s@).push(
                        p@,
                    ));
                }
            },
            UndoVerdict::Stranded(e) => {
                let ghost old_s = stranded@;
                stranded.push(StrandedEntry { in_pack: e.in_pack.clone(), at: e.at.clone() });
                proof {
                    assert(stranded@.map_values(|e: StrandedEntry| (e.in_pack@, e.at@)) =~= old_s.map_values(
                        |e: StrandedEntry| (e.in_pack@, e.at@),
                    ).push((e.in_pack@, e.at@)));
                }
            },
            UndoVerdict::Untouched => {},
        }
        i = i + 1;
    }
    proof {
        assert(all.take(n as int) =~= all);
    }
    (restored, stranded)
}

// ── Advice after a run ──────────────────────────────────────────────

/// The lower-case mapping of a character, as Unicode defines it.
pub uninterp spec fn unicode_lowercase(c: char) -> Seq<char>;

/// `char::to_lowercase`, collected; the contract names its result.
#[verifier::external_body]
fn to_lowercase(c: char) -> (r: Vec<char>)
    ensures
        r@ == unicode_lowercase(c),
{
    c.to_lowercase().collect()
}

/// A name with whitespace removed and the rest lower-cased.
pub open spec fn squashed_lower(s: Seq<char>) -> Seq<char>
    decreases s.len(),
{
    if s.len() == 0 {
        Seq::<char>::empty()
    } else {
        squashed_lower(s.drop_last()) + if crate::text::unicode_whitespace(s.last()) {
            Seq::<char>::empty()
        } else {
            unicode_lowercase(s.last())
        }
    }
}

fn squash_lower(s: &str) -> (r: Vec<char>)
    ensures
        r@ == squashed_lower(s@),
{
    let v = chars_of(s);
    let mut out: Vec<char> = Vec::new();
    let mut i: usize = 0;
    proof {
        assert(v@.take(0) =~= Seq::<char>::empty());
    }
    while i < v.len()
        invariant
            i <= v@.len(),
            v@ == s@,
            out@ == squashed_lower(v@.take(i as int)),
        decreases v.len() - i,
    {
        proof {
            assert(v@.take(i + 1).drop_last() =~= v@.take(i as int));
        }
        if !crate::text::is_whitespace(v[i]) {
            let l = to_lowercase(v[i]);
            push_chars(&mut out, l.as_slice());
        } else {
            proof {
                assert(out@ + Seq::<char>::empty() =~= out@);
            }
        }
        i = i + 1;
    }
    proof {
        assert(v@.take(v@.len() as int) =~= v@);
    }
    out
}

/// The rename tip for a pack that looks like a macOS GUI-app folder: the
/// suggested alias is the matching Homebrew cask's token when there is
/// one, else the name without whitespace, lower-cased. Given only
/// without `--into`, for an Application Support source, when the alias
/// is a different, non-empty name.
pub open spec fn spec_gui_app_tip(
    pack: Seq<char>,
    token: Option<Seq<char>>,
    into_given: bool,
    any_app_support: bool,
) -> Option<Seq<char>> {
    let alias = match token {
        Some(t) => t,
        None => squashed_lower(pack),
    };
    let credit = match token {
        Some(t) => " (matches homebrew cask `"@ + t + "`)"@,
        None => Seq::<char>::empty(),
    };
    if !into_given && crate::infer::spec_is_gui_app_folder(pack) && any_app_support && alias.len() > 0
        && alias != pack {
        Some(
            "tip: pack `"@ + pack + "` looks like a macOS GUI-app folder"@ + credit
                + ". Consider renaming the pack to `"@ + alias
                + "` and adding\n  [symlink.app_aliases]\n  "@ + alias + " = \""@ + pack
                + "\"\nto your .dodot.toml so future files can use bare paths instead of `_app/"@
                + pack + "/...`."@,
        )
    } else {
        None
    }
}

/// The rename tip for a pack that looks like a macOS GUI-app folder.
pub fn gui_app_tip(pack: &str, token: Option<&str>, into_given: bool, any_app_support: bool) -> (r:
    Option<String>)
    ensures
        opt_view(r) == spec_gui_app_tip(pack@, opt_str(token), into_given, any_app_support),
{
    if into_given || !any_app_support || !crate::infer::is_gui_app_folder(pack) {
        return None;
    }
    let alias: Vec<char> = match token {
        Some(t) => chars_of(t),
        None => squash_lower(pack),
    };
    let p = chars_of(pack);
    if alias.len() == 0 || chars_eq(alias.as_slice(), p.as_slice()) {
        return None;
    }
    let mut v = chars_of("tip: pack `");
    push_str(&mut v, pack);
    push_str(&mut v, "` looks like a macOS GUI-app folder");
    match token {
        Some(t) => {
            push_str(&mut v, " (matches homebrew cask `");
            push_str(&mut v, t);
            push_str(&mut v, "`)");
        },
        None => {
            proof {
                assert(v@ + Seq::<char>::empty() =~= v@);
            }
        },
    }
    push_str(&mut v, ". Consider renaming the pack to `");
    push_chars(&mut v, alias.as_slice());
    push_str(&mut v, "` and adding\n  [symlink.app_aliases]\n  ");
    push_chars(&mut v, alias.as_slice());
    push_str(&mut v, " = \"");
    push_str(&mut v, pack);
    push_str(&mut v, "\"\nto your .dodot.toml so future files can use bare paths instead of `_app/");
    push_str(&mut v, pack);
    push_str(&mut v, "/...`.");
    Some(string_of(v.as_slice()))
}

/// The line confirming a pack through the Homebrew cask it matched.
pub fn cask_confirmation(token: &str, pack: &str) -> (r: String)
    ensures
        r@ == "homebrew cask `"@ + token@ + "` confirms this is the app-support directory for pack `"@
            + pack@ + "`."@,
{
    let mut v = chars_of("homebrew cask `");
    push_str(&mut v, token);
    push_str(&mut v, "` confirms this is the app-support directory for pack `");
    push_str(&mut v, pack);
    push_str(&mut v, "`.");
    string_of(v.as_slice())
}

/// What follows the last `/` of a path (all of it when there is none).
pub open spec fn leaf(p: Seq<char>) -> Seq<char> {
    match crate::text::last_occurrence(p, seq!['/'], p.len() as int) {
        Some(i) => p.skip(i + 1),
        None => p,
    }
}

/// The non-empty leaves of `paths`, in order.
pub open spec fn leaves(paths: Seq<Seq<char>>) -> Seq<Seq<char>>
    decreases paths.len(),
{
    if paths.len() == 0 {
        Seq::<Seq<char>>::empty()
    } else {
        let l = leaf(paths.last());
        if l.len() > 0 {
            leaves(paths.drop_last()).push(l)
        } else {
            leaves(paths.drop_last())
        }
    }
}

/// The suggestion to adopt the preference files Homebrew reports for a
/// cask, when it reports any with a file name.
pub open spec fn spec_sibling_plists_tip(token: Seq<char>, pack: Seq<char>, plists: Seq<Seq<char>>) -> Option<
    Seq<char>,
> {
    let names = leaves(plists);
    if names.len() == 0 {
        None
    } else {
        Some(
            "homebrew also reports preferences for cask `"@ + token + "`: "@ + join_with(
                names,
                ", "@,
            ) + ". Adopt them too with `dodot adopt ~/Library/Preferences/<file> --into "@ + pack
                + "`."@,
        )
    }
}

/// The suggestion to adopt the preference files Homebrew reports.
pub fn sibling_plists_tip(token: &str, pack: &str, plists: &[String]) -> (r: Option<String>)
    ensures
        opt_view(r) == spec_sibling_plists_tip(token@, pack@, crate::infer::strings_view(plists@)),
{
    let ghost ps = crate::infer::strings_view(plists@);
    let mut names: Vec<String> = Vec::new();
    let slash = chars_of("/");
    proof {
        reveal_strlit("/");
        assert(ps.take(0) =~= Seq::<Seq<char>>::empty());
        assert(Seq::new(names@.len(), |i: int| names@[i]@) =~= leaves(ps.take(0)));
    }
    let mut i: usize = 0;
    while i < plists.len()
        invariant
            i <= plists@.len(),
            ps == crate::infer::strings_view(plists@),
            slash@ == seq!['/'],
            Seq::new(names@.len(), |i: int| names@[i]@) == leaves(ps.take(i as int)),
        decreases plists.len() - i,
    {
        let p = chars_of(plists[i].as_str());
        proof {
            assert(ps.take(i + 1).drop_last() =~= ps.take(i as int));
            assert(ps.take(i + 1).last() == p@);
        }
        let pl = p.len();
        let l: Vec<char> = match crate::text::rfind_chars(p.as_slice(), slash.as_slice()) {
            Some(k) => {
                assert(k + 1 <= pl);
                crate::text::copy_range(p.as_slice(), k + 1, pl)
            },
            None => crate::text::copy_chars(p.as_slice()),
        };
        proof {
            assert(l@ =~= leaf(p@));
        }
        if l.len() > 0 {
            let ghost before = Seq::new(names@.len(), |i: int| names@[i]@);
            names.push(string_of(l.as_slice()));
            proof {
                assert(Seq::new(names@.len(), |i: int| names@[i]@) =~= before.push(l@));
            }
        }
        i = i + 1;
    }
    proof {
        assert(ps.take(ps.len() as int) =~= ps);
    }
    if names.len() == 0 {
        return None;
    }
    let joined = join_strings(names.as_slice(), ", ");
    let mut v = chars_of("homebrew also reports preferences for cask `");
    push_str(&mut v, token);
    push_str(&mut v, "`: ");
    push_chars(&mut v, joined.as_slice());
    push_str(&mut v, ". Adopt them too with `dodot adopt ~/Library/Preferences/<file> --into ");
    push_str(&mut v, pack);
    push_str(&mut v, "`.");
    Some(string_of(v.as_slice()))
}

/// `Path::extension`: what follows the last `.` of the file name, unless
/// the only `.` leads the name (or there is none, or no file name).
pub open spec fn extension(p: Seq<char>) -> Option<Seq<char>> {
    match crate::paths::file_name(p) {
        None => None,
        Some(n) => match crate::text::last_occurrence(n, seq!['.'], n.len() as int) {
            Some(k) => if k == 0 {
                None
            } else {
                Some(n.skip(k + 1))
            },
            None => None,
        },
    }
}

/// The path's extension is `plist`, in any ASCII case.
pub open spec fn spec_is_plist(p: Seq<char>) -> bool {
    match extension(p) {
        Some(e) => crate::text::lowercase(e) == "plist"@,
        None => false,
    }
}

/// `Path::extension` of a path given as text: what follows the last
/// `.` of the file name, unless the name has no `.` or only a leading
/// one.
pub fn extension_of(p: &str) -> (r: Option<Vec<char>>)
    ensures
        match r {
            Some(e) => extension(p@) == Some(e@),
            None => extension(p@) is None,
        },
{
    let name = match crate::paths::file_name_of(p) {
        Some(n) => n,
        None => return None,
    };
    let n = chars_of(name.as_str());
    let dot = chars_of(".");
    proof {
        reveal_strlit(".");
        assert(dot@ =~= seq!['.']);
    }
    let nl = n.len();
    match crate::text::rfind_chars(n.as_slice(), dot.as_slice()) {
        Some(k) => {
            if k == 0 {
                return None;
            }
            assert(k + 1 <= nl);
            let e = crate::text::copy_range(n.as_slice(), k + 1, nl);
            proof {
                assert(e@ =~= n@.skip(k + 1));
            }
            Some(e)
        },
        None => None,
    }
}

/// Whether a path names a `.plist` file (extension compared ignoring
/// ASCII case).
pub fn is_plist_path(p: &str) -> (r: bool)
    ensures
        r == spec_is_plist(p@),
{
    match extension_of(p) {
        Some(e) => crate::text::lower_equals(e.as_slice(), "plist"),
        None => false,
    }
}

/// The tip to install the plist filters, after a run that adopted a
/// `.plist` file while the filters are not installed (an unknown
/// install state counts as installed).
pub fn plist_filters_tip(adopted_any_plist: bool, filters_installed: Option<bool>) -> (r: Option<
    String,
>)
    ensures
        r is Some <==> (adopted_any_plist && filters_installed == Some(false)),
        match r {
            Some(t) => t@
                == "tip: pack now contains a .plist file. Run `dodot git-install-filters` to enable canonical XML diffs (binary plists become diffable in `git status`/`git diff`)."@,
            None => true,
        },
{
    match filters_installed {
        Some(false) => if adopted_any_plist {
            Some(
                String::from_str(
                    "tip: pack now contains a .plist file. Run `dodot git-install-filters` to enable canonical XML diffs (binary plists become diffable in `git status`/`git diff`).",
                ),
            )
        } else {
            None
        },
        _ => None,
    }
}

// ── The report ──────────────────────────────────────────────────────

/// A planned source whose replacement failed.
#[derive(Debug)]
pub struct AdoptFailure {
    /// The source path, as displayed.
    pub source: String,
    pub reason: String,
    /// What the recovery could not put back, if anything.
    pub stranded: Option<StrandedEntry>,
}

/// The notes a failure adds: its failure note, then, when the recovery
/// stranded something, where that is.
pub open spec fn failure_notes(f: AdoptFailure, staging: Seq<char>) -> Seq<Seq<char>> {
    match f.stranded {
        None => seq![spec_failure_note(f.source@, f.reason@, false)],
        Some(e) => seq![
            spec_failure_note(f.source@, f.reason@, true),
            spec_stranded_note(e.in_pack@, e.at@, staging),
        ],
    }
}

/// The notes all failures add, in order.
pub open spec fn all_failure_notes(fs: Seq<AdoptFailure>, staging: Seq<char>) -> Seq<Seq<char>>
    decreases fs.len(),
{
    if fs.len() == 0 {
        Seq::<Seq<char>>::empty()
    } else {
        all_failure_notes(fs.drop_last(), staging) + failure_notes(fs.last(), staging)
    }
}

/// The row name of a failed source: its file name, or the whole path
/// when it has none.
pub open spec fn failed_row_name(source: Seq<char>) -> Seq<char> {
    match crate::paths::file_name(source) {
        Some(n) => n,
        None => source,
    }
}

/// The row of the `k`-th failure: its name, the failure mark, and a
/// reference to its failure note (1-based, after the `base` notes
/// already present).
pub open spec fn failure_row_ok(row: DisplayFile, fs: Seq<AdoptFailure>, k: int, base: nat, staging: Seq<char>) -> bool {
    &&& row.name@ == failed_row_name(fs[k].source@)
    &&& row.symbol@ == "×"@
    &&& row.description@ == "adopt failed"@
    &&& row.status@ == "error"@
    &&& row.status_label@ == "error"@
    &&& row.handler@ == ""@
    &&& row.note_ref == Some((base + all_failure_notes(fs.take(k), staging).len() + 1) as u32)
}

pub open spec fn notes_view(v: Seq<DisplayNote>) -> Seq<(Seq<char>, Option<Seq<char>>)> {
    Seq::new(
        v.len(),
        |i: int|
            (
                v[i].body@,
                match v[i].hint {
                    Some(h) => Some(h@),
                    None => None,
                },
            ),
    )
}

proof fn lemma_notes_len(fs: Seq<AdoptFailure>, staging: Seq<char>)
    ensures
        all_failure_notes(fs, staging).len() <= 2 * fs.len(),
    decreases fs.len(),
{
    if fs.len() > 0 {
        lemma_notes_len(fs.drop_last(), staging);
    }
}

/// The finished report of an adopt run, from the pack's status as it
/// stands (or the bare listing when no pack can be read): the warnings
/// gain the already-adopted skips, the left-in-place lines and the
/// post-run tips, in that order; each failed source adds its notes and
/// an error row, under the pack's row (created at the end when the
/// listing has none); and the run counts as failed exactly when some
/// source failed. `staging` is the kept preparation directory.
pub fn adopt(
    result: PackStatusResult,
    pack: &str,
    dry_run: bool,
    skipped_already_adopted: Vec<String>,
    left_in_place: &[Skipped],
    tips: Vec<String>,
    failures: &[AdoptFailure],
    staging: &str,
) -> (r: PackStatusResult)
    requires
        result.notes@.len() + 2 * failures@.len() <= u32::MAX,
    ensures
        r.message == result.message,
        r.dry_run == dry_run,
        r.conflicts == result.conflicts,
        r.ignored_packs == result.ignored_packs,
        r.failed == (failures@.len() > 0),
        crate::infer::strings_view(r.warnings@) == crate::infer::strings_view(result.warnings@)
            + crate::infer::strings_view(skipped_already_adopted@) + Seq::new(
            left_in_place@.len(),
            |i: int| spec_left_in_place(left_in_place@[i].name@, left_in_place@[i].rule@, pack@),
        ) + crate::infer::strings_view(tips@),
        notes_view(r.notes@) == notes_view(result.notes@) + all_failure_notes(failures@, staging@).map_values(
            |b: Seq<char>| (b, None::<Seq<char>>),
        ),
        failures@.len() == 0 ==> r.packs == result.packs,
        failures@.len() > 0 ==> {
            let base = result.notes@.len();
            let rows_ok = |files: Seq<DisplayFile>, start: int|
                files.len() == start + failures@.len() && forall|k: int|
                    0 <= k < failures@.len() ==> failure_row_ok(
                        #[trigger] files[start + k],
                        failures@,
                        k,
                        base,
                        staging@,
                    );
            if exists|i: int| 0 <= i < result.packs@.len() && result.packs@[i].name@ == pack@ {
                let i = choose|i: int|
                    0 <= i < result.packs@.len() && result.packs@[i].name@ == pack@ && forall|j: int|
                        0 <= j < i ==> result.packs@[j].name@ != pack@;
                &&& r.packs@.len() == result.packs@.len()
                &&& forall|j: int| 0 <= j < r.packs@.len() && j != i ==> r.packs@[j] == result.packs@[j]
                &&& r.packs@[i].name == result.packs@[i].name
                &&& r.packs@[i].files@.take(result.packs@[i].files@.len() as int)
                    == result.packs@[i].files@
                &&& rows_ok(r.packs@[i].files@, result.packs@[i].files@.len() as int)
            } else {
                &&& r.packs@.len() == result.packs@.len() + 1
                &&& r.packs@.take(result.packs@.len() as int) == result.packs@
                &&& r.packs@.last().name@ == pack@
                &&& rows_ok(r.packs@.last().files@, 0)
            }
        },
{
    let ghost old_result = result;
    let PackStatusResult { message, dry_run: _, packs, warnings, notes, conflicts, ignored_packs, failed: _ } =
        result;
    let mut warnings = warnings;
    let mut notes = notes;
    // warnings: skips, left in place, tips
    let mut skipped = skipped_already_adopted;
    let ghost w0 = crate::infer::strings_view(warnings@);
    let ghost sk = crate::infer::strings_view(skipped@);
    warnings.append(&mut skipped);
    let mut left = left_in_place_warnings(left_in_place, pack);
    let ghost lv = crate::infer::strings_view(left@);
    warnings.append(&mut left);
    let mut t = tips;
    let ghost tv = crate::infer::strings_view(t@);
    warnings.append(&mut t);
    proof {
        assert(lv =~= Seq::new(
            left_in_place@.len(),
            |i: int| spec_left_in_place(left_in_place@[i].name@, left_in_place@[i].rule@, pack@),
        ));
        assert(crate::infer::strings_view(warnings@) =~= w0 + sk + lv + tv);
    }
    // notes and rows
    let ghost base = old_result.notes@.len();
    let ghost g = |b: Seq<char>| (b, None::<Seq<char>>);
    let mut rows: Vec<DisplayFile> = Vec::new();
    let mut k: usize = 0;
    proof {
        reveal_strlit("");
        assert(failures@.take(0) =~= Seq::<AdoptFailure>::empty());
        assert(notes_view(notes@) =~= notes_view(old_result.notes@) + all_failure_notes(
            failures@.take(0),
            staging@,
        ).map_values(g));
    }
    while k < failures.len()
        invariant
            k <= failures@.len(),
            base == old_result.notes@.len(),
            base + 2 * failures@.len() <= u32::MAX,
            g == (|b: Seq<char>| (b, None::<Seq<char>>)),
            ""@ == Seq::<char>::empty(),
            notes_view(notes@) == notes_view(old_result.notes@) + all_failure_notes(
                failures@.take(k as int),
                staging@,
            ).map_values(g),
            rows@.len() == k,
            forall|j: int|
                0 <= j < k ==> failure_row_ok(#[trigger] rows@[j], failures@, j, base, staging@),
        decreases failures.len() - k,
    {
        let f = &failures[k];
        let ghost before = notes_view(notes@);
        let ghost done = all_failure_notes(failures@.take(k as int), staging@);
        let ghost fnotes = failure_notes(failures@[k as int], staging@);
        proof {
            assert(failures@.take(k + 1).drop_last() =~= failures@.take(k as int));
            assert(failures@.take(k + 1).last() == failures@[k as int]);
            assert(all_failure_notes(failures@.take(k + 1), staging@) == done + fnotes);
            lemma_notes_len(failures@.take(k as int), staging@);
            assert(notes@.len() == before.len());
            assert(before.len() == base + done.len());
        }
        let note = failure_note(f.source.as_str(), f.reason.as_str(), f.stranded.is_some());
        notes.push(DisplayNote { body: note, hint: None });
        let note_ref = notes.len() as u32;
        match &f.stranded {
            Some(e) => {
                let sn = stranded_note(e, staging);
                notes.push(DisplayNote { body: sn, hint: None });
            },
            None => {},
        }
        proof {
            assert(notes_view(notes@) =~= before + fnotes.map_values(g));
            assert((done + fnotes).map_values(g) =~= done.map_values(g) + fnotes.map_values(g));
            assert(notes_view(notes@) =~= notes_view(old_result.notes@) + all_failure_notes(
                failures@.take(k + 1),
                staging@,
            ).map_values(g));
        }
        let name = match crate::paths::file_name_of(f.source.as_str()) {
            Some(n) => n,
            None => f.source.clone(),
        };
        let row = DisplayFile {
            name,
            symbol: String::from_str("×"),
            description: String::from_str("adopt failed"),
            status: String::from_str("error"),
            status_label: String::from_str("error"),
            handler: String::new(),
            note_ref: Some(note_ref),
        };
        proof {
            assert(failure_row_ok(row, failures@, k as int, base, staging@));
        }
        rows.push(row);
        k = k + 1;
    }
    proof {
        assert(failures@.take(failures@.len() as int) =~= failures@);
    }
    let mut packs = packs;
    if failures.len() == 0 {
        return PackStatusResult { message, dry_run, packs, warnings, notes, conflicts, ignored_packs, failed: false };
    }
    // attach the rows to the pack's row
    let mut i: usize = 0;
    let ghost packs0 = packs@;
    while i < packs.len()
        invariant
            i <= packs@.len(),
            packs@ == packs0,
            packs0 == old_result.packs@,
            forall|j: int| 0 <= j < i ==> packs0[j].name@ != pack@,
            rows@.len() == failures@.len(),
            base == old_result.notes@.len(),
            forall|j: int|
                0 <= j < failures@.len() ==> failure_row_ok(#[trigger] rows@[j], failures@, j, base, staging@),
        ensures
            i <= packs@.len(),
            packs@ == packs0,
            forall|j: int| 0 <= j < i ==> packs0[j].name@ != pack@,
            i < packs@.len() ==> packs0[i as int].name@ == pack@,
        decreases packs.len() - i,
    {
        let n = chars_of(packs[i].name.as_str());
        let pv = chars_of(pack);
        if chars_eq(n.as_slice(), pv.as_slice()) {
            break;
        }
        i = i + 1;
    }
    let ghost rows_v = rows@;
    if i < packs.len() {
        let mut p = packs.remove(i);
        let ghost f0 = p.files@;
        p.files.append(&mut rows);
        packs.insert(i, p);
        proof {
            assert(packs@ =~= packs0.update(i as int, p));
            assert(p.files@ =~= f0 + rows_v);
            assert(p.files@.take(f0.len() as int) =~= f0);
            assert(packs0[i as int].name@ == pack@);
            let c = choose|c: int|
                0 <= c < packs0.len() && packs0[c].name@ == pack@ && forall|j: int|
                    0 <= j < c ==> packs0[j].name@ != pack@;
            assert(c == i);
            assert forall|k: int| 0 <= k < failures@.len() implies failure_row_ok(
                #[trigger] p.files@[f0.len() + k],
                failures@,
                k,
                base,
                staging@,
            ) by {
                assert(p.files@[f0.len() + k] == rows_v[k]);
            }
        }
    } else {
        packs.push(DisplayPack { name: String::from_str(pack), files: rows });
        proof {
            assert(packs@.take(packs0.len() as int) =~= packs0);
            assert(!exists|j: int| 0 <= j < packs0.len() && packs0[j].name@ == pack@);
        }
    }
    PackStatusResult { message, dry_run, packs, warnings, notes, conflicts, ignored_packs, failed: true }
}

} // verus!
