//! The decisions of `dodot down`: which packs and which orphaned state a
//! run removes, what a dry run lists, and what the run reports.
//!
//! Orphaned state belongs to packs deleted from the dotfiles root since
//! they were deployed; a pack is named by its directory or by its
//! display name (ordering prefix stripped).

use vstd::prelude::*;
use crate::display::{spec_handler_symbol, DisplayFile, DisplayPack, PackStatusResult};
use crate::infer::strings_view;
use crate::rules::{display_name_for, spec_display_name};
use crate::text::{chars_eq, chars_of, join_with, push_chars, push_str, string_of};

verus! {

/// `name` names the pack in directory `dir`, by directory or display name.
pub open spec fn names_pack(name: Seq<char>, dir: Seq<char>) -> bool {
    name == dir || name == spec_display_name(dir)
}

fn names_pack_exec(name: &str, dir: &str) -> (r: bool)
    ensures
        r == names_pack(name@, dir@),
{
    let n = chars_of(name);
    let d = chars_of(dir);
    let disp = display_name_for(dir);
    let dv = chars_of(disp.as_str());
    chars_eq(n.as_slice(), d.as_slice()) || chars_eq(n.as_slice(), dv.as_slice())
}

/// `name` names one of the orphaned pack directories.
pub open spec fn names_orphan(name: Seq<char>, orphans: Seq<Seq<char>>) -> bool {
    exists|k: int| 0 <= k < orphans.len() && names_pack(name, #[trigger] orphans[k])
}

fn names_any(name: &str, dirs: &[String]) -> (r: bool)
    ensures
        r == names_orphan(name@, strings_view(dirs@)),
{
    let mut k: usize = 0;
    while k < dirs.len()
        invariant
            k <= dirs@.len(),
            forall|m: int| 0 <= m < k ==> !names_pack(name@, #[trigger] strings_view(dirs@)[m]),
        decreases dirs.len() - k,
    {
        if names_pack_exec(name, dirs[k].as_str()) {
            proof {
                assert(names_pack(name@, strings_view(dirs@)[k as int]));
            }
            return true;
        }
        k = k + 1;
    }
    false
}

/// The elements of `v` that satisfy `keep`, in order.
pub open spec fn keep_where(v: Seq<Seq<char>>, keep: spec_fn(Seq<char>) -> bool) -> Seq<Seq<char>> {
    v.filter(keep)
}

/// The filter names that must name packs in the repository: those that
/// name no orphaned pack.
pub fn repo_filter_names(names: &[String], orphans: &[String]) -> (r: Vec<String>)
    ensures
        strings_view(r@) == strings_view(names@).filter(
            |n: Seq<char>| !names_orphan(n, strings_view(orphans@)),
        ),
{
    let ghost keep = |n: Seq<char>| !names_orphan(n, strings_view(orphans@));
    let ghost all = strings_view(names@);
    let mut out: Vec<String> = Vec::new();
    let mut i: usize = 0;
    proof {
        assert(all.take(0) =~= Seq::<Seq<char>>::empty());
        assert(strings_view(out@) =~= Seq::<Seq<char>>::empty());
    }
    while i < names.len()
        invariant
            i <= names@.len(),
            all == strings_view(names@),
            keep == (|n: Seq<char>| !names_orphan(n, strings_view(orphans@))),
            strings_view(out@) == all.take(i as int).filter(keep),
        decreases names.len() - i,
    {
        let ghost before = strings_view(out@);
        proof {
            assert(all.take(i + 1) =~= all.take(i as int).push(all[i as int]));
            all.take(i as int).lemma_filter_push(all[i as int], keep);
        }
        if !names_any(names[i].as_str(), orphans) {
            out.push(names[i].clone());
            proof {
                assert(strings_view(out@) =~= before.push(all[i as int]));
            }
        }
        i = i + 1;
    }
    proof {
        assert(all.take(all.len() as int) =~= all);
    }
    out
}

/// The orphaned pack directories a run removes: all of them without a
/// filter, else the ones a filter name names.
pub open spec fn spec_selected_orphans(filter: Option<Seq<Seq<char>>>, orphans: Seq<Seq<char>>) -> Seq<
    Seq<char>,
> {
    match filter {
        None => orphans,
        Some(names) => orphans.filter(
            |d: Seq<char>| exists|k: int| 0 <= k < names.len() && names_pack(#[trigger] names[k], d),
        ),
    }
}

fn named_by_any(dir: &str, names: &[String]) -> (r: bool)
    ensures
        r == exists|k: int| 0 <= k < names@.len() && names_pack(#[trigger] strings_view(names@)[k], dir@),
{
    let mut k: usize = 0;
    while k < names.len()
        invariant
            k <= names@.len(),
            forall|m: int| 0 <= m < k ==> !names_pack(#[trigger] strings_view(names@)[m], dir@),
        decreases names.len() - k,
    {
        if names_pack_exec(names[k].as_str(), dir) {
            proof {
                assert(names_pack(strings_view(names@)[k as int], dir@));
            }
            return true;
        }
        k = k + 1;
    }
    false
}

/// The orphaned pack directories a run removes.
pub fn selected_orphans(filter: Option<&[String]>, orphans: &[String]) -> (r: Vec<String>)
    ensures
        strings_view(r@) == spec_selected_orphans(
            match filter {
                Some(f) => Some(strings_view(f@)),
                None => None,
            },
            strings_view(orphans@),
        ),
{
    let ghost all = strings_view(orphans@);
    let mut out: Vec<String> = Vec::new();
    let mut i: usize = 0;
    match filter {
        None => {
            while i < orphans.len()
                invariant
                    i <= orphans@.len(),
                    all == strings_view(orphans@),
                    strings_view(out@) == all.take(i as int),
                decreases orphans.len() - i,
            {
                let ghost before = strings_view(out@);
                let c = orphans[i].clone();
                out.push(c);
                proof {
                    assert(strings_view(out@) =~= before.push(c@));
                    assert(all.take(i + 1) =~= all.take(i as int).push(all[i as int]));
                    assert(strings_view(out@) =~= all.take(i + 1));
                }
                i = i + 1;
            }
            proof {
                assert(all.take(all.len() as int) =~= all);
            }
            out
        },
        Some(names) => {
            let ghost nv = strings_view(names@);
            let ghost keep = |d: Seq<char>|
                exists|k: int| 0 <= k < nv.len() && names_pack(#[trigger] nv[k], d);
            proof {
                assert(all.take(0) =~= Seq::<Seq<char>>::empty());
                assert(strings_view(out@) =~= Seq::<Seq<char>>::empty());
            }
            while i < orphans.len()
                invariant
                    i <= orphans@.len(),
                    all == strings_view(orphans@),
                    nv == strings_view(names@),
                    keep == (|d: Seq<char>|
                        exists|k: int| 0 <= k < nv.len() && names_pack(#[trigger] nv[k], d)),
                    strings_view(out@) == all.take(i as int).filter(keep),
                decreases orphans.len() - i,
            {
                let ghost before = strings_view(out@);
                proof {
                    assert(all.take(i + 1) =~= all.take(i as int).push(all[i as int]));
                    all.take(i as int).lemma_filter_push(all[i as int], keep);
                }
                if named_by_any(orphans[i].as_str(), names) {
                    out.push(orphans[i].clone());
                    proof {
                        assert(strings_view(out@) =~= before.push(all[i as int]));
                    }
                }
                i = i + 1;
            }
            proof {
                assert(all.take(all.len() as int) =~= all);
            }
            out
        },
    }
}

/// The orphaned pack directories a run leaves: those not selected.
pub fn remaining_orphans(orphans: &[String], selected: &[String]) -> (r: Vec<String>)
    ensures
        strings_view(r@) == strings_view(orphans@).filter(
            |d: Seq<char>| !strings_view(selected@).contains(d),
        ),
{
    let ghost all = strings_view(orphans@);
    let ghost sel = strings_view(selected@);
    let ghost keep = |d: Seq<char>| !sel.contains(d);
    let mut out: Vec<String> = Vec::new();
    let mut i: usize = 0;
    proof {
        assert(all.take(0) =~= Seq::<Seq<char>>::empty());
        assert(strings_view(out@) =~= Seq::<Seq<char>>::empty());
    }
    while i < orphans.len()
        invariant
            i <= orphans@.len(),
            all == strings_view(orphans@),
            sel == strings_view(selected@),
            keep == (|d: Seq<char>| !sel.contains(d)),
            strings_view(out@) == all.take(i as int).filter(keep),
        decreases orphans.len() - i,
    {
        let ghost before = strings_view(out@);
        proof {
            assert(all.take(i + 1) =~= all.take(i as int).push(all[i as int]));
            all.take(i as int).lemma_filter_push(all[i as int], keep);
        }
        let d = chars_of(orphans[i].as_str());
        let mut found = false;
        let mut k: usize = 0;
        while k < selected.len()
            invariant
                k <= selected@.len(),
                sel == strings_view(selected@),
                d@ == all[i as int],
                found == exists|m: int| 0 <= m < k && sel[m] == d@,
            decreases selected.len() - k,
        {
            let s = chars_of(selected[k].as_str());
            if chars_eq(s.as_slice(), d.as_slice()) {
                found = true;
                proof {
                    assert(sel[k as int] == d@);
                }
            }
            k = k + 1;
        }
        proof {
            if sel.contains(d@) {
                let m = choose|m: int| 0 <= m < sel.len() && sel[m] == d@;
                assert(found);
            }
        }
        if !found {
            out.push(orphans[i].clone());
            proof {
                assert(strings_view(out@) =~= before.push(all[i as int]));
            }
        }
        i = i + 1;
    }
    proof {
        assert(all.take(all.len() as int) =~= all);
    }
    out
}

/// The display names of pack directories.
pub open spec fn display_names_of(dirs: Seq<Seq<char>>) -> Seq<Seq<char>> {
    Seq::new(dirs.len(), |i: int| spec_display_name(dirs[i]))
}

/// The warning for the orphaned packs a real run removed.
pub open spec fn spec_orphans_removed(dirs: Seq<Seq<char>>, root: Seq<char>) -> Seq<char> {
    "removed state for "@ + (if dirs.len() == 1 {
        "pack"@
    } else {
        "packs"@
    }) + " no longer in "@ + root + ": "@ + join_with(display_names_of(dirs), ", "@)
}

/// The warning for the orphaned packs a real run removed; `root` is the
/// dotfiles root as displayed.
pub fn orphans_removed_warning(dirs: &[String], root: &str) -> (r: String)
    ensures
        r@ == spec_orphans_removed(strings_view(dirs@), root@),
{
    let mut names: Vec<String> = Vec::new();
    let mut i: usize = 0;
    while i < dirs.len()
        invariant
            i <= dirs@.len(),
            names@.len() == i,
            forall|j: int|
                0 <= j < i ==> (#[trigger] names@[j])@ == spec_display_name(dirs@[j]@),
        decreases dirs.len() - i,
    {
        names.push(display_name_for(dirs[i].as_str()));
        i = i + 1;
    }
    let joined = crate::text::join_strings(names.as_slice(), ", ");
    proof {
        assert(Seq::new(names@.len(), |i: int| names@[i]@) =~= display_names_of(strings_view(dirs@)));
    }
    let mut v = chars_of("removed state for ");
    if dirs.len() == 1 {
        push_str(&mut v, "pack");
    } else {
        push_str(&mut v, "packs");
    }
    push_str(&mut v, " no longer in ");
    push_str(&mut v, root);
    push_str(&mut v, ": ");
    push_chars(&mut v, joined.as_slice());
    string_of(v.as_slice())
}

/// A dry-run row: one state entry that would be removed.
pub open spec fn dry_row_ok(row: DisplayFile, name: Seq<char>, handler: Seq<char>) -> bool {
    &&& row.name@ == name
    &&& row.symbol@ == spec_handler_symbol(handler)
    &&& row.description@ == "state would be removed"@
    &&& row.status@ == "pending"@
    &&& row.status_label@ == "[dry-run] would remove"@
    &&& row.handler@ == handler
    &&& row.note_ref is None
}

/// A pack's deployed state, for a dry run: each handler with state, and
/// for the symlink handler the names of its data-link entries.
#[derive(Debug)]
pub struct HandlerState {
    pub handler: String,
    /// The entries of the handler's data directory (read for the
    /// symlink handler only).
    pub entries: Vec<String>,
}

/// The rows a handler contributes to a dry run, as (name, handler):
/// one per data-link entry for the symlink handler, one for the handler
/// itself otherwise.
pub open spec fn handler_rows(h: HandlerState) -> Seq<(Seq<char>, Seq<char>)> {
    if h.handler@ == "symlink"@ {
        Seq::new(h.entries@.len(), |k: int| (h.entries@[k]@, h.handler@))
    } else {
        seq![(h.handler@, h.handler@)]
    }
}

/// All the rows of a dry run for one pack, handler by handler.
pub open spec fn dry_rows(hs: Seq<HandlerState>) -> Seq<(Seq<char>, Seq<char>)>
    decreases hs.len(),
{
    if hs.len() == 0 {
        Seq::<(Seq<char>, Seq<char>)>::empty()
    } else {
        dry_rows(hs.drop_last()) + handler_rows(hs.last())
    }
}

fn dry_row(name: &str, handler: &str) -> (r: DisplayFile)
    ensures
        dry_row_ok(r, name@, handler@),
{
    DisplayFile {
        name: String::from_str(name),
        symbol: String::from_str(crate::display::handler_symbol(handler)),
        description: String::from_str("state would be removed"),
        status: String::from_str("pending"),
        status_label: String::from_str("[dry-run] would remove"),
        handler: String::from_str(handler),
        note_ref: None,
    }
}

/// What a dry run lists for one pack: what would be removed, handler by
/// handler.
pub fn build_dry_run_display(display_name: &str, handlers: &[HandlerState]) -> (r: DisplayPack)
    ensures
        r.name@ == display_name@,
        r.files@.len() == dry_rows(handlers@).len(),
        forall|j: int|
            0 <= j < r.files@.len() ==> dry_row_ok(
                #[trigger] r.files@[j],
                dry_rows(handlers@)[j].0,
                dry_rows(handlers@)[j].1,
            ),
{
    let mut files: Vec<DisplayFile> = Vec::new();
    let mut i: usize = 0;
    let symlink = chars_of("symlink");
    proof {
        assert(handlers@.take(0) =~= Seq::<HandlerState>::empty());
    }
    while i < handlers.len()
        invariant
            i <= handlers@.len(),
            symlink@ == "symlink"@,
            files@.len() == dry_rows(handlers@.take(i as int)).len(),
            forall|j: int|
                0 <= j < files@.len() ==> dry_row_ok(
                    #[trigger] files@[j],
                    dry_rows(handlers@.take(i as int))[j].0,
                    dry_rows(handlers@.take(i as int))[j].1,
                ),
        decreases handlers.len() - i,
    {
        let h = &handlers[i];
        let ghost before = dry_rows(handlers@.take(i as int));
        let ghost added = handler_rows(*h);
        proof {
            assert(handlers@.take(i + 1).drop_last() =~= handlers@.take(i as int));
            assert(handlers@.take(i + 1).last() == *h);
        }
        let hc = chars_of(h.handler.as_str());
        if chars_eq(hc.as_slice(), symlink.as_slice()) {
            let mut k: usize = 0;
            let ghost start = files@.len();
            while k < h.entries.len()
                invariant
                    k <= h.entries@.len(),
                    start == before.len(),
                    h.handler@ == "symlink"@,
                    added == handler_rows(*h),
                    files@.len() == start + k,
                    forall|j: int|
                        0 <= j < files@.len() ==> dry_row_ok(
                            #[trigger] files@[j],
                            (before + added)[j].0,
                            (before + added)[j].1,
                        ),
                decreases h.entries.len() - k,
            {
                files.push(dry_row(h.entries[k].as_str(), h.handler.as_str()));
                k = k + 1;
            }
        } else {
            files.push(dry_row(h.handler.as_str(), h.handler.as_str()));
        }
        i = i + 1;
    }
    proof {
        assert(handlers@.take(handlers@.len() as int) =~= handlers@);
    }
    DisplayPack { name: String::from_str(display_name), files }
}

/// The message of a run: whether anything was deactivated.
pub fn down_message(any_removed: bool) -> (r: String)
    ensures
        r@ == (if any_removed {
            "Packs deactivated."@
        } else {
            "Nothing to deactivate."@
        }),
{
    if any_removed {
        String::from_str("Packs deactivated.")
    } else {
        String::from_str("Nothing to deactivate.")
    }
}

/// Whether a run deactivates anything: some selected pack has state,
/// some orphaned pack's state is selected for removal, or some ignored
/// pack left state behind (which the run sweeps). A dry run answers as
/// the real run would.
pub open spec fn spec_any_removed(
    pack_has_state: Seq<bool>,
    selected_orphans: nat,
    ignored_with_state: nat,
) -> bool {
    (exists|i: int| 0 <= i < pack_has_state.len() && pack_has_state[i]) || selected_orphans > 0
        || ignored_with_state > 0
}

/// The result of a run: the message, the rows (a dry run's listing or
/// the status after removal), the warnings, and the ignored packs.
/// `pack_has_state` says, for each selected pack, whether the datastore
/// holds state for it; `selected_orphans` counts the orphaned packs the
/// run removes (see `selected_orphans`); `ignored_with_state` counts the
/// ignored packs with state left behind.
pub fn down(
    dry_run: bool,
    pack_has_state: &[bool],
    selected_orphans: usize,
    ignored_with_state: usize,
    packs: Vec<DisplayPack>,
    warnings: Vec<String>,
    ignored_packs: Vec<String>,
) -> (r: PackStatusResult)
    ensures
        r.message is Some,
        r.message.unwrap()@ == spec_down_message(
            pack_has_state@,
            selected_orphans as nat,
            ignored_with_state as nat,
        ),
        r.dry_run == dry_run,
        r.packs@ == packs@,
        r.warnings@ == warnings@,
        r.notes@.len() == 0,
        r.conflicts@.len() == 0,
        r.ignored_packs@ == ignored_packs@,
        !r.failed,
{
    let mut any = selected_orphans > 0 || ignored_with_state > 0;
    let mut i: usize = 0;
    while i < pack_has_state.len()
        invariant
            i <= pack_has_state@.len(),
            any == ((exists|j: int| 0 <= j < i && pack_has_state@[j]) || selected_orphans > 0
                || ignored_with_state > 0),
        decreases pack_has_state.len() - i,
    {
        if pack_has_state[i] {
            any = true;
        }
        i = i + 1;
    }
    PackStatusResult {
        message: Some(down_message(any)),
        dry_run,
        packs,
        warnings,
        notes: Vec::new(),
        conflicts: Vec::new(),
        ignored_packs,
        failed: false,
    }
}

/// The message of a run, from what it finds: the same for a dry run as
/// for the real run.
pub open spec fn spec_down_message(pack_has_state: Seq<bool>, selected_orphans: nat, ignored_with_state: nat) -> Seq<char> {
    if spec_any_removed(pack_has_state, selected_orphans, ignored_with_state) {
        "Packs deactivated."@
    } else {
        "Nothing to deactivate."@
    }
}

/// What a run writes.
#[derive(Debug, Clone, Copy, PartialEq, Eq, Structural)]
pub struct DownWrites {
    /// Remove the selected packs' live user symlinks and datastore state.
    pub remove_pack_state: bool,
    /// Remove the selected orphaned packs' state.
    pub sweep_orphans: bool,
    /// Remove the state ignored packs left behind.
    pub sweep_ignored: bool,
    /// Regenerate the shell init script.
    pub rewrite_init_script: bool,
    /// Rewrite the deployment map.
    pub write_deployment_map: bool,
}

/// A real run removes the selected packs' state, the selected orphans'
/// state (when there are any) and the ignored packs' leftovers, and
/// rewrites the init script and the deployment map; a dry run writes
/// nothing.
pub open spec fn spec_down_writes(dry_run: bool, selected_orphans: nat) -> DownWrites {
    DownWrites {
        remove_pack_state: !dry_run,
        sweep_orphans: !dry_run && selected_orphans > 0,
        sweep_ignored: !dry_run,
        rewrite_init_script: !dry_run,
        write_deployment_map: !dry_run,
    }
}

/// What a run of `down` writes.
pub fn down_writes(dry_run: bool, selected_orphans: usize) -> (r: DownWrites)
    ensures
        r == spec_down_writes(dry_run, selected_orphans as nat),
{
    DownWrites {
        remove_pack_state: !dry_run,
        sweep_orphans: !dry_run && selected_orphans > 0,
        sweep_ignored: !dry_run,
        rewrite_init_script: !dry_run,
        write_deployment_map: !dry_run,
    }
}

/// The row shape of a dry run: every row says its state would be
/// removed.
pub open spec fn dry_run_row(row: DisplayFile) -> bool {
    &&& row.description@ == "state would be removed"@
    &&& row.status@ == "pending"@
    &&& row.status_label@ == "[dry-run] would remove"@
}

/// One pack of a dry run: its display name and the handlers with state.
#[derive(Debug)]
pub struct DryRunPack {
    pub display_name: String,
    pub handlers: Vec<HandlerState>,
}

/// The result of `down --dry-run`: the listing of every pack with state
/// (selected packs, then selected orphans) and the message the real run
/// would give.
pub fn down_dry_run(
    listing: &[DryRunPack],
    pack_has_state: &[bool],
    selected_orphans: usize,
    ignored_with_state: usize,
    warnings: Vec<String>,
    ignored_packs: Vec<String>,
) -> (r: PackStatusResult)
    ensures
        r.dry_run,
        r.message matches Some(m) && m@ == spec_down_message(
            pack_has_state@,
            selected_orphans as nat,
            ignored_with_state as nat,
        ),
        r.packs@.len() == listing@.len(),
        forall|i: int|
            0 <= i < listing@.len() ==> (#[trigger] r.packs@[i]).name@ == listing@[i].display_name@
                && r.packs@[i].files@.len() == dry_rows(listing@[i].handlers@).len() && forall|j: int|
                0 <= j < r.packs@[i].files@.len() ==> dry_row_ok(
                    #[trigger] r.packs@[i].files@[j],
                    dry_rows(listing@[i].handlers@)[j].0,
                    dry_rows(listing@[i].handlers@)[j].1,
                ),
        forall|i: int, j: int|
            0 <= i < r.packs@.len() && 0 <= j < r.packs@[i].files@.len() ==> dry_run_row(
                #[trigger] r.packs@[i].files@[j],
            ),
        r.warnings@ == warnings@,
        r.ignored_packs@ == ignored_packs@,
{
    let mut packs: Vec<DisplayPack> = Vec::new();
    let mut i: usize = 0;
    while i < listing.len()
        invariant
            i <= listing@.len(),
            packs@.len() == i,
            forall|k: int|
                0 <= k < i ==> (#[trigger] packs@[k]).name@ == listing@[k].display_name@
                    && packs@[k].files@.len() == dry_rows(listing@[k].handlers@).len() && forall|j: int|
                    0 <= j < packs@[k].files@.len() ==> dry_row_ok(
                        #[trigger] packs@[k].files@[j],
                        dry_rows(listing@[k].handlers@)[j].0,
                        dry_rows(listing@[k].handlers@)[j].1,
                    ),
        decreases listing.len() - i,
    {
        let p = build_dry_run_display(listing[i].display_name.as_str(), listing[i].handlers.as_slice());
        packs.push(p);
        i = i + 1;
    }
    let r = down(true, pack_has_state, selected_orphans, ignored_with_state, packs, warnings, ignored_packs);
    proof {
        assert forall|i: int, j: int|
            0 <= i < r.packs@.len() && 0 <= j < r.packs@[i].files@.len() implies dry_run_row(
            #[trigger] r.packs@[i].files@[j],
        ) by {
            assert(dry_row_ok(
                r.packs@[i].files@[j],
                dry_rows(listing@[i].handlers@)[j].0,
                dry_rows(listing@[i].handlers@)[j].1,
            ));
        }
    }
    r
}

/// A dry run of `down` writes nothing where the real run removes state
/// and rewrites the init script and the deployment map, and both give
/// the message below from the same state (see `down` and
/// `down_dry_run`, whose rows all read "[dry-run] would remove").
pub proof fn law_down_dry_run_writes_nothing(
    pack_has_state: Seq<bool>,
    selected_orphans: nat,
    ignored_with_state: nat,
)
    ensures
        ({
            let w = spec_down_writes(true, selected_orphans);
            !w.remove_pack_state && !w.sweep_orphans && !w.sweep_ignored && !w.rewrite_init_script
                && !w.write_deployment_map
        }),
        ({
            let w = spec_down_writes(false, selected_orphans);
            w.remove_pack_state && w.sweep_ignored && w.rewrite_init_script && w.write_deployment_map
                && w.sweep_orphans == (selected_orphans > 0)
        }),
        spec_down_message(pack_has_state, selected_orphans, ignored_with_state) == (if spec_any_removed(
            pack_has_state,
            selected_orphans,
            ignored_with_state,
        ) {
            "Packs deactivated."@
        } else {
            "Nothing to deactivate."@
        }),
{
}

} // verus!
