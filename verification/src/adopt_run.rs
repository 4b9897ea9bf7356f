//! The course of one `dodot adopt` run, as a step function: from the
//! run's state and what the last filesystem step found, the next state
//! and the actions to perform. The steps keep the order the command
//! promises: check the request, resolve the pack, plan, prepare,
//! validate, publish, replace the sources, finish. No final pack path is
//! written before planning and validation succeeded, a refusal before
//! publication discards the preparation, a dry run stops after
//! validation, and the preparation is kept only when something is
//! stranded in it.
//!
//! Performing the actions (reading directories, copying, renaming,
//! replacing sources with symlinks) happens around this module.

use vstd::prelude::*;
use crate::adopt::{
    check_adopt_request, resolve_inferred_pack, result_seq, spec_only_os_error,
    spec_resolve_inferred, PlanRefusal, PlanRefusalView,
};
use crate::gates::GateTable;
use crate::infer::{opt_view, InferenceError, InferredTarget};
use crate::paths::same_path;
use crate::rules::{display_name_for, spec_display_name};
use crate::text::{chars_eq, chars_of, push_str, string_of};

verus! {

// ── Which pack ──────────────────────────────────────────────────────

/// A pack directory of the dotfiles root, by its on-disk name.
#[derive(Debug)]
pub struct PackEntry {
    pub dir: String,
}

pub open spec fn pack_dirs(packs: Seq<PackEntry>) -> Seq<Seq<char>> {
    Seq::new(packs.len(), |i: int| packs[i].dir@)
}

/// The first pack at or after `i` whose directory is named `name`.
pub open spec fn find_dir(dirs: Seq<Seq<char>>, name: Seq<char>, i: int) -> Option<int>
    decreases dirs.len() - i,
{
    if i < 0 || i >= dirs.len() {
        None
    } else if dirs[i] == name {
        Some(i)
    } else {
        find_dir(dirs, name, i + 1)
    }
}

/// The first pack at or after `i` whose display name is `name`.
pub open spec fn find_display(dirs: Seq<Seq<char>>, name: Seq<char>, i: int) -> Option<int>
    decreases dirs.len() - i,
{
    if i < 0 || i >= dirs.len() {
        None
    } else if spec_display_name(dirs[i]) == name {
        Some(i)
    } else {
        find_display(dirs, name, i + 1)
    }
}

/// The pack a name picks: the one whose directory is named so, else
/// the one whose display name is (`nvim` picks `010-nvim`).
pub open spec fn spec_resolve_into(dirs: Seq<Seq<char>>, name: Seq<char>) -> Option<int> {
    match find_dir(dirs, name, 0) {
        Some(i) => Some(i),
        None => find_display(dirs, name, 0),
    }
}

/// The refusal for a name no pack answers to.
pub open spec fn spec_pack_not_found(name: Seq<char>) -> Seq<char> {
    "pack not found: "@ + name
}

proof fn lemma_find_dir(dirs: Seq<Seq<char>>, name: Seq<char>, i: int)
    requires
        0 <= i,
    ensures
        match find_dir(dirs, name, i) {
            Some(k) => i <= k < dirs.len() && dirs[k] == name,
            None => forall|k: int| i <= k < dirs.len() ==> dirs[k] != name,
        },
    decreases dirs.len() - i,
{
    if i < dirs.len() && dirs[i] != name {
        lemma_find_dir(dirs, name, i + 1);
    }
}

proof fn lemma_find_display(dirs: Seq<Seq<char>>, name: Seq<char>, i: int)
    requires
        0 <= i,
    ensures
        match find_display(dirs, name, i) {
            Some(k) => i <= k < dirs.len() && spec_display_name(dirs[k]) == name,
            None => forall|k: int| i <= k < dirs.len() ==> spec_display_name(dirs[k]) != name,
        },
    decreases dirs.len() - i,
{
    if i < dirs.len() && spec_display_name(dirs[i]) != name {
        lemma_find_display(dirs, name, i + 1);
    }
}

/// Resolve an explicit `--into` name against the existing packs: the
/// index of the pack it names, by directory name first and display name
/// second, or the refusal when none answers to it.
pub fn resolve_into(packs: &[PackEntry], name: &str) -> (r: Result<usize, String>)
    ensures
        match r {
            Ok(i) => spec_resolve_into(pack_dirs(packs@), name@) == Some(i as int),
            Err(m) => spec_resolve_into(pack_dirs(packs@), name@) is None && m@
                == spec_pack_not_found(name@),
        },
        r is Ok <==> exists|i: int|
            0 <= i < packs@.len() && (packs@[i].dir@ == name@ || spec_display_name(packs@[i].dir@)
                == name@),
        r matches Ok(i) ==> i < packs@.len() && (packs@[i as int].dir@ == name@ || spec_display_name(
            packs@[i as int].dir@,
        ) == name@),
{
    let ghost dirs = pack_dirs(packs@);
    let n = chars_of(name);
    let mut i: usize = 0;
    while i < packs.len()
        invariant
            i <= packs@.len(),
            dirs == pack_dirs(packs@),
            n@ == name@,
            find_dir(dirs, name@, 0) == find_dir(dirs, name@, i as int),
        decreases packs.len() - i,
    {
        let d = chars_of(packs[i].dir.as_str());
        if chars_eq(d.as_slice(), n.as_slice()) {
            proof {
                assert(dirs[i as int] == name@);
                lemma_find_dir(dirs, name@, 0);
            }
            return Ok(i);
        }
        i = i + 1;
    }
    proof {
        lemma_find_dir(dirs, name@, 0);
    }
    let mut j: usize = 0;
    while j < packs.len()
        invariant
            j <= packs@.len(),
            dirs == pack_dirs(packs@),
            n@ == name@,
            find_dir(dirs, name@, 0) is None,
            forall|k: int| 0 <= k < dirs.len() ==> dirs[k] != name@,
            find_display(dirs, name@, 0) == find_display(dirs, name@, j as int),
        decreases packs.len() - j,
    {
        let shown = display_name_for(packs[j].dir.as_str());
        let s = chars_of(shown.as_str());
        if chars_eq(s.as_slice(), n.as_slice()) {
            proof {
                assert(spec_display_name(dirs[j as int]) == name@);
                lemma_find_display(dirs, name@, 0);
            }
            return Ok(j);
        }
        j = j + 1;
    }
    proof {
        lemma_find_display(dirs, name@, 0);
        assert forall|i: int|
            0 <= i < packs@.len() implies !(packs@[i].dir@ == name@ || spec_display_name(
                packs@[i].dir@,
            ) == name@) by {
            assert(dirs[i] == packs@[i].dir@);
        }
    }
    let mut v = chars_of("pack not found: ");
    push_str(&mut v, name);
    Err(string_of(v.as_slice()))
}

/// The pack a run lands in: its on-disk directory name and its display
/// name.
#[derive(Debug)]
pub struct ResolvedPack {
    pub dir: String,
    pub display: String,
}

/// With `--into`, the existing pack it names, refused when none does;
/// without, the one name the sources' inference agrees on, taken as the
/// existing pack it names when there is one and as a new directory of
/// that name otherwise.
pub open spec fn spec_resolve_pack(
    dirs: Seq<Seq<char>>,
    pack_override: Option<Seq<char>>,
    natural: Seq<Option<String>>,
) -> Result<Seq<char>, Seq<char>> {
    match pack_override {
        Some(name) => match spec_resolve_into(dirs, name) {
            Some(i) => Ok(dirs[i]),
            None => Err(spec_pack_not_found(name)),
        },
        None => match spec_resolve_inferred(natural) {
            Err(m) => Err(m),
            Ok(n) => match spec_resolve_into(dirs, n) {
                Some(i) => Ok(dirs[i]),
                None => Ok(n),
            },
        },
    }
}

/// Which pack the run lands in.
pub fn resolve_pack(packs: &[PackEntry], pack_override: Option<&str>, natural: &[Option<String>]) -> (r:
    Result<ResolvedPack, String>)
    requires
        natural@.len() < u64::MAX,
    ensures
        match (r, spec_resolve_pack(pack_dirs(packs@), crate::adopt::opt_str(pack_override), natural@)) {
            (Ok(p), Ok(d)) => p.dir@ == d && p.display@ == spec_display_name(d),
            (Err(m), Err(e)) => m@ == e,
            _ => false,
        },
{
    let name = match pack_override {
        Some(o) => String::from_str(o),
        None => match resolve_inferred_pack(natural) {
            Ok(n) => n,
            Err(m) => return Err(m),
        },
    };
    match resolve_into(packs, name.as_str()) {
        Ok(i) => {
            let dir = packs[i].dir.clone();
            let display = display_name_for(dir.as_str());
            Ok(ResolvedPack { dir, display })
        },
        Err(m) => match pack_override {
            Some(_) => Err(m),
            None => {
                let display = display_name_for(name.as_str());
                Ok(ResolvedPack { dir: name, display })
            },
        },
    }
}

/// One source as the run sees it before planning: its absolute path (as
/// displayed) and what inference made of it.
pub type SourceInference = (String, Result<InferredTarget, InferenceError>);

/// The refusal for the first source at or after `i` whose pack
/// inference failed.
pub open spec fn first_inference_refusal(inf: Seq<SourceInference>, i: int) -> Option<Seq<char>>
    decreases inf.len() - i,
{
    if i < 0 || i >= inf.len() {
        None
    } else {
        match inf[i].1 {
            Err(e) => Some(
                "refusing to adopt "@ + inf[i].0@ + ": "@ + crate::infer::spec_inference_message(e@),
            ),
            Ok(_) => first_inference_refusal(inf, i + 1),
        }
    }
}

/// The natural pack each source names (none for a failed inference).
pub open spec fn natural_of(inf: Seq<SourceInference>) -> Seq<Option<String>> {
    Seq::new(
        inf.len(),
        |i: int|
            match inf[i].1 {
                Ok(t) => t.natural_pack,
                Err(_) => None,
            },
    )
}

/// The natural packs of the sources, or the refusal for the first
/// source whose inference failed.
pub fn natural_packs(inferred: &[SourceInference]) -> (r: Result<Vec<Option<String>>, String>)
    ensures
        match r {
            Ok(v) => first_inference_refusal(inferred@, 0) is None && v@.len() == inferred@.len()
                && forall|i: int|
                0 <= i < v@.len() ==> opt_view(#[trigger] v@[i]) == opt_view(natural_of(inferred@)[i]),
            Err(m) => first_inference_refusal(inferred@, 0) == Some(m@),
        },
{
    let mut out: Vec<Option<String>> = Vec::new();
    let mut i: usize = 0;
    while i < inferred.len()
        invariant
            i <= inferred@.len(),
            out@.len() == i,
            first_inference_refusal(inferred@, 0) == first_inference_refusal(inferred@, i as int),
            forall|k: int|
                0 <= k < i ==> opt_view(#[trigger] out@[k]) == opt_view(natural_of(inferred@)[k]),
        decreases inferred.len() - i,
    {
        match &inferred[i].1 {
            Err(e) => {
                let mut v = chars_of("refusing to adopt ");
                push_str(&mut v, inferred[i].0.as_str());
                push_str(&mut v, ": ");
                let m = e.message();
                push_str(&mut v, m.as_str());
                return Err(string_of(v.as_slice()));
            },
            Ok(t) => {
                let n = match &t.natural_pack {
                    Some(x) => Some(x.clone()),
                    None => None,
                };
                out.push(n);
            },
        }
        i = i + 1;
    }
    Ok(out)
}

proof fn lemma_declined_views(a: Seq<Option<String>>, b: Seq<Option<String>>)
    requires
        a.len() == b.len(),
        forall|i: int| 0 <= i < a.len() ==> opt_view(#[trigger] a[i]) == opt_view(b[i]),
    ensures
        crate::adopt::declined(a) == crate::adopt::declined(b),
    decreases a.len(),
{
    if a.len() > 0 {
        assert(opt_view(a[a.len() - 1]) == opt_view(b[b.len() - 1]));
        lemma_declined_views(a.drop_last(), b.drop_last());
    }
}

/// Inference's agreement depends on the names alone.
proof fn lemma_resolve_inferred_views(a: Seq<Option<String>>, b: Seq<Option<String>>)
    requires
        a.len() == b.len(),
        forall|i: int| 0 <= i < a.len() ==> opt_view(#[trigger] a[i]) == opt_view(b[i]),
    ensures
        spec_resolve_inferred(a) == spec_resolve_inferred(b),
{
    assert(crate::adopt::candidates(a) =~= crate::adopt::candidates(b)) by {
        assert forall|n: Seq<char>| crate::adopt::candidates(a).contains(n) implies crate::adopt::candidates(
            b,
        ).contains(n) by {
            let i = choose|i: int| 0 <= i < a.len() && opt_view(a[i]) == Some(n);
            assert(opt_view(b[i]) == Some(n));
        }
        assert forall|n: Seq<char>| crate::adopt::candidates(b).contains(n) implies crate::adopt::candidates(
            a,
        ).contains(n) by {
            let i = choose|i: int| 0 <= i < b.len() && opt_view(b[i]) == Some(n);
            assert(opt_view(a[i]) == Some(n));
        }
    }
    lemma_declined_views(a, b);
}

/// The pack a run lands in, from the sources' inference: with `--into`,
/// the existing pack it names (inference is not consulted); without,
/// the refusal for the first source whose inference failed, else the
/// pack the natural names agree on (see `spec_resolve_pack`).
pub open spec fn spec_resolve_for_sources(
    dirs: Seq<Seq<char>>,
    pack_override: Option<Seq<char>>,
    inf: Seq<SourceInference>,
) -> Result<Seq<char>, Seq<char>> {
    match pack_override {
        Some(_) => spec_resolve_pack(dirs, pack_override, Seq::empty()),
        None => match first_inference_refusal(inf, 0) {
            Some(m) => Err(m),
            None => spec_resolve_pack(dirs, None, natural_of(inf)),
        },
    }
}

/// Which pack the run lands in, from the pack directories, `--into` and
/// each source's inference.
pub fn resolve_pack_for_sources(
    packs: &[PackEntry],
    pack_override: Option<&str>,
    inferred: &[SourceInference],
) -> (r: Result<ResolvedPack, String>)
    requires
        inferred@.len() < u64::MAX,
    ensures
        match (r, spec_resolve_for_sources(pack_dirs(packs@), crate::adopt::opt_str(pack_override), inferred@)) {
            (Ok(p), Ok(d)) => p.dir@ == d && p.display@ == spec_display_name(d),
            (Err(m), Err(e)) => m@ == e,
            _ => false,
        },
{
    match pack_override {
        Some(_) => {
            let none: Vec<Option<String>> = Vec::new();
            proof {
                assert(none@ =~= Seq::<Option<String>>::empty());
            }
            resolve_pack(packs, pack_override, none.as_slice())
        },
        None => {
            let natural = match natural_packs(inferred) {
                Ok(v) => v,
                Err(m) => return Err(m),
            };
            proof {
                lemma_resolve_inferred_views(natural@, natural_of(inferred@));
            }
            resolve_pack(packs, None, natural.as_slice())
        },
    }
}

// ── Planning, one source at a time ──────────────────────────────────

/// What the filesystem and inference say of one source before it is
/// planned.
pub struct SourceFacts {
    /// The absolute source path, as displayed.
    pub abs: String,
    /// For a symlink source whose target could be read: the raw target
    /// and that target resolved against the link's parent.
    pub link: Option<(String, String)>,
    /// Whether the source counts as a directory (a symlink under
    /// `--no-follow` does not).
    pub is_dir: bool,
    pub inferred: Result<InferredTarget, InferenceError>,
    /// The children of a source whose inference expands it (read only
    /// then), with whether each one's destination is taken.
    pub children: Vec<crate::adopt::ChildFacts>,
    /// For a source planned as one entry: whether its destination is taken.
    pub dest_exists: bool,
}

/// What every source of a run is planned against.
pub struct PlanContext {
    pub pack_override: Option<String>,
    pub only_os: Option<String>,
    pub ignore: crate::classify::EffectiveIgnore,
    pub gates: GateTable,
    pub host: crate::gates::HostFacts,
    /// The pack's display name.
    pub pack: String,
    /// The pack's directory.
    pub pack_path: String,
    pub force: bool,
    pub data_dir: String,
    pub dotfiles_root: String,
}

/// The plan so far: the planned entries, the skip messages of sources
/// already adopted, and the children left in place.
pub struct PlanState {
    pub plans: Vec<crate::adopt::PlannedEntry>,
    pub skipped: Vec<String>,
    pub left: Vec<crate::adopt::Skipped>,
}

pub struct PlanStateView {
    pub plans: Seq<(Seq<char>, Seq<char>)>,
    pub skipped: Seq<Seq<char>>,
    pub left: Seq<(Seq<char>, crate::classify::SkipRuleView)>,
}

impl View for PlanState {
    type V = PlanStateView;

    open spec fn view(&self) -> PlanStateView {
        PlanStateView {
            plans: crate::adopt::plans_view(self.plans@),
            skipped: crate::infer::strings_view(self.skipped@),
            left: crate::adopt::skipped_view(self.left@),
        }
    }
}

/// The expansion context of a source with inferred target `t`.
pub open spec fn expand_view(cx: PlanContext, t: InferredTarget, abs: Seq<char>) -> crate::adopt::ExpandView {
    crate::adopt::ExpandView {
        parent: t@,
        dir: abs,
        pack_override: opt_view(cx.pack_override),
        only_os: opt_view(cx.only_os),
        patterns: crate::infer::strings_view(cx.ignore.patterns@),
        layer: cx.ignore.layer,
        gates: cx.gates@,
        host: cx.host@,
        pack: cx.pack@,
        pack_path: cx.pack_path@,
        force: cx.force,
    }
}

/// One source's turn, in the order the planning takes: a symlink into
/// dodot's data directory or the dotfiles root is skipped with its
/// message; otherwise a failed inference refuses the whole plan; a
/// pack-root directory is expanded into its children; anything else is
/// planned as one entry at its in-pack path.
pub open spec fn spec_plan_step(st: PlanStateView, cx: PlanContext, src: SourceFacts) -> Result<
    PlanStateView,
    PlanRefusalView,
> {
    let skip = match src.link {
        Some((raw, resolved)) => crate::adopt::spec_already_adopted(
            src.abs@,
            raw@,
            resolved@,
            cx.data_dir@,
            cx.dotfiles_root@,
            cx.pack@,
        ),
        None => None,
    };
    match skip {
        Some(m) => Ok(PlanStateView { skipped: st.skipped.push(m), ..st }),
        None => match src.inferred {
            Err(e) => Err(
                PlanRefusalView::Refused(
                    "refusing to adopt "@ + src.abs@ + ": "@ + crate::infer::spec_inference_message(e@),
                ),
            ),
            Ok(t) => if t.expand_children {
                match crate::adopt::spec_expand(
                    expand_view(cx, t, src.abs@),
                    st.plans,
                    crate::adopt::children_view(src.children@),
                ) {
                    Err(x) => Err(x),
                    Ok(e) => Ok(
                        PlanStateView {
                            plans: e.0,
                            left: st.left + Seq::new(
                                e.1.len(),
                                |k: int| (crate::paths::path_join(src.abs@, e.1[k].0), e.1[k].1),
                            ),
                            ..st
                        },
                    ),
                }
            } else {
                match crate::adopt::spec_plan_source(
                    st.plans,
                    src.abs@,
                    crate::adopt::spec_in_pack_for_source(
                        t@,
                        opt_view(cx.pack_override),
                        opt_view(cx.only_os),
                    ),
                    src.is_dir,
                    src.dest_exists,
                    crate::infer::strings_view(cx.ignore.patterns@),
                    cx.ignore.layer,
                    cx.gates@,
                    cx.host@,
                    cx.pack@,
                    cx.pack_path@,
                    cx.force,
                ) {
                    Err(x) => Err(x),
                    Ok(p) => Ok(PlanStateView { plans: p, ..st }),
                }
            },
        },
    }
}

fn as_opt_str(o: &Option<String>) -> (r: Option<&str>)
    ensures
        crate::adopt::opt_str(r) == opt_view(*o),
{
    match o {
        Some(s) => Some(s.as_str()),
        None => None,
    }
}

/// Plan one source into the plan so far, as `spec_plan_step` says;
/// after a refusal the plan is abandoned.
pub fn plan_step(st: &mut PlanState, cx: &PlanContext, src: &SourceFacts) -> (r: Result<(), PlanRefusal>)
    ensures
        match (r, spec_plan_step(old(st)@, *cx, *src)) {
            (Ok(()), Ok(v)) => final(st)@ == v,
            (Err(x), Err(y)) => x@ == y,
            _ => false,
        },
{
    if let Some((raw, resolved)) = &src.link {
        if let Some(m) = crate::adopt::already_adopted_message(
            src.abs.as_str(),
            raw.as_str(),
            resolved.as_str(),
            cx.data_dir.as_str(),
            cx.dotfiles_root.as_str(),
            cx.pack.as_str(),
        ) {
            let ghost before = st.skipped@;
            st.skipped.push(m);
            proof {
                assert(crate::infer::strings_view(st.skipped@) =~= crate::infer::strings_view(before).push(
                    st.skipped@.last()@,
                ));
            }
            return Ok(());
        }
    }
    let t = match &src.inferred {
        Err(e) => {
            let mut v = chars_of("refusing to adopt ");
            push_str(&mut v, src.abs.as_str());
            push_str(&mut v, ": ");
            let m = e.message();
            push_str(&mut v, m.as_str());
            return Err(PlanRefusal::Refused { message: string_of(v.as_slice()) });
        },
        Ok(t) => t,
    };
    let over = as_opt_str(&cx.pack_override);
    let only = as_opt_str(&cx.only_os);
    if t.expand_children {
        let mut left = crate::adopt::plan_children(
            &mut st.plans,
            t,
            src.abs.as_str(),
            src.children.as_slice(),
            over,
            only,
            &cx.ignore,
            &cx.gates,
            &cx.host,
            cx.pack.as_str(),
            cx.pack_path.as_str(),
            cx.force,
        )?;
        let ghost before = st.left@;
        let ghost added = left@;
        st.left.append(&mut left);
        proof {
            assert(st.left@ == before + added);
            assert(crate::adopt::skipped_view(st.left@) =~= crate::adopt::skipped_view(before)
                + crate::adopt::skipped_view(added));
        }
        Ok(())
    } else {
        let in_pack = crate::adopt::in_pack_for_source(t, over, only);
        crate::adopt::plan_source(
            &mut st.plans,
            src.abs.as_str(),
            in_pack.as_str(),
            src.is_dir,
            src.dest_exists,
            &cx.ignore,
            &cx.gates,
            &cx.host,
            cx.pack.as_str(),
            cx.pack_path.as_str(),
            cx.force,
        )
    }
}

// ── Deploy conflicts across packs ────────────────────────────────────

/// One deployment target a pack claims, after the run: the destination
/// pack as the prepared tree makes it, every other pack as it stands.
#[derive(Debug)]
pub struct Claim {
    pub pack: String,
    pub target: String,
}

/// Why validation refuses the run.
#[derive(Debug)]
pub enum DeployConflict {
    /// Some claims could not be resolved without deploying, so no answer
    /// about conflicts can be given; the paths are those claims' sources.
    Incomplete { paths: Vec<String> },
    /// Two packs would claim one target.
    CrossPack { target: String, first: String, second: String },
}

pub enum DeployConflictView {
    Incomplete(Seq<Seq<char>>),
    CrossPack(Seq<char>, Seq<char>, Seq<char>),
}

impl View for DeployConflict {
    type V = DeployConflictView;

    open spec fn view(&self) -> DeployConflictView {
        match self {
            DeployConflict::Incomplete { paths } => DeployConflictView::Incomplete(
                crate::infer::strings_view(paths@),
            ),
            DeployConflict::CrossPack { target, first, second } => DeployConflictView::CrossPack(
                target@,
                first@,
                second@,
            ),
        }
    }
}

/// Claims `a` and `b` name one target for two different packs.
pub open spec fn clash(a: Claim, b: Claim) -> bool {
    same_path(a.target@, b.target@) && a.pack@ != b.pack@
}

/// The first clashing pair at or after `(i, j)`, in the order
/// `(0, 1), (0, 2), .., (1, 2), ..`.
pub open spec fn first_clash(c: Seq<Claim>, i: int, j: int) -> Option<(int, int)>
    decreases c.len() - i, c.len() + 1 - j,
{
    if i < 0 || i >= c.len() {
        None
    } else if j <= i || j >= c.len() {
        first_clash(c, i + 1, i + 2)
    } else if clash(c[i], c[j]) {
        Some((i, j))
    } else {
        first_clash(c, i, j + 1)
    }
}

/// The verdict on the prospective tree: incomplete when any claim is
/// unresolved, else the first clash, else none. Nothing, `--force`
/// included, bypasses it.
pub open spec fn spec_deploy_check(c: Seq<Claim>, unresolved: Seq<Seq<char>>) -> Option<DeployConflictView> {
    if unresolved.len() > 0 {
        Some(DeployConflictView::Incomplete(unresolved))
    } else {
        match first_clash(c, 0, 1) {
            Some((i, j)) => Some(DeployConflictView::CrossPack(c[i].target@, c[i].pack@, c[j].pack@)),
            None => None,
        }
    }
}

fn same_path_exec(a: &str, b: &str) -> (r: bool)
    ensures
        r == same_path(a@, b@),
{
    let av = chars_of(a);
    let bv = chars_of(b);
    let ac = crate::paths::components_of(av.as_slice());
    let bc = crate::paths::components_of(bv.as_slice());
    crate::paths::is_absolute_exec(av.as_slice()) == crate::paths::is_absolute_exec(bv.as_slice())
        && crate::paths::comps_eq(&ac, &bc)
}

/// Check the prospective tree for deploy conflicts between packs.
pub fn check_deploy_conflicts(claims: &[Claim], unresolved: &[String]) -> (r: Result<(), DeployConflict>)
    ensures
        match r {
            Ok(()) => spec_deploy_check(claims@, crate::infer::strings_view(unresolved@)) is None,
            Err(x) => spec_deploy_check(claims@, crate::infer::strings_view(unresolved@)) == Some(x@),
        },
{
    if unresolved.len() > 0 {
        let mut paths: Vec<String> = Vec::new();
        let mut k: usize = 0;
        while k < unresolved.len()
            invariant
                k <= unresolved@.len(),
                crate::infer::strings_view(paths@) == crate::infer::strings_view(unresolved@).take(k as int),
            decreases unresolved.len() - k,
        {
            let ghost before = paths@;
            let c = unresolved[k].clone();
            paths.push(c);
            proof {
                assert(paths@ == before.push(c));
                assert(crate::infer::strings_view(before).len() == k);
                assert(crate::infer::strings_view(paths@) =~= crate::infer::strings_view(unresolved@).take(
                    k + 1,
                ));
            }
            k = k + 1;
        }
        proof {
            assert(crate::infer::strings_view(unresolved@).take(unresolved@.len() as int)
                =~= crate::infer::strings_view(unresolved@));
        }
        return Err(DeployConflict::Incomplete { paths });
    }
    let n = claims.len();
    let mut i: usize = 0;
    while i < n
        invariant
            n == claims@.len(),
            i <= n,
            unresolved@.len() == 0,
            first_clash(claims@, 0, 1) == first_clash(claims@, i as int, i + 1),
        decreases n - i,
    {
        let mut j: usize = i + 1;
        while j < n
            invariant
                n == claims@.len(),
                i < n,
                unresolved@.len() == 0,
                i + 1 <= j <= n,
                first_clash(claims@, 0, 1) == first_clash(claims@, i as int, j as int),
            decreases n - j,
        {
            let a = &claims[i];
            let b = &claims[j];
            if same_path_exec(a.target.as_str(), b.target.as_str()) {
                let pa = chars_of(a.pack.as_str());
                let pb = chars_of(b.pack.as_str());
                if !chars_eq(pa.as_slice(), pb.as_slice()) {
                    proof {
                        assert(clash(claims@[i as int], claims@[j as int]));
                        assert(first_clash(claims@, i as int, j as int) == Some((i as int, j as int)));
                    }
                    return Err(
                        DeployConflict::CrossPack {
                            target: a.target.clone(),
                            first: a.pack.clone(),
                            second: b.pack.clone(),
                        },
                    );
                }
            }
            j = j + 1;
        }
        i = i + 1;
    }
    Ok(())
}

// ── The run ─────────────────────────────────────────────────────────

/// Where a run stands: which step's outcome it waits for.
#[derive(Debug, Clone, Copy, PartialEq, Eq, Structural)]
pub enum AdoptPhase {
    /// The request's checks (`--only-os`, some sources).
    Request,
    /// The pack inventory and each source's inferred pack.
    Resolve,
    /// Whether the pack directory may be used and exists.
    CheckPack,
    /// Planning every source.
    Plan,
    /// Copying the planned entries into the preparation directory.
    Prepare,
    /// The deploy-conflict check on the prospective tree.
    Validate,
    /// Moving the prepared entries into the pack.
    Publish,
    /// Replacing each source with a symlink to its pack entry.
    Replace,
    /// Nothing more to do.
    Finished,
}

/// The state of a run.
#[derive(Debug)]
pub struct AdoptRun {
    pub phase: AdoptPhase,
    pub dry_run: bool,
    /// Planning succeeded with at least one entry.
    pub planned: bool,
    /// A preparation directory exists.
    pub prepared: bool,
    /// Validation accepted the prospective tree.
    pub validated: bool,
    /// Publication succeeded.
    pub published: bool,
    /// The destination pack was on disk when the run began.
    pub pack_exists: bool,
    pub pack_dir: String,
    pub pack_display: String,
}

/// The mathematical content of an [`AdoptRun`].
pub struct AdoptRunView {
    pub phase: AdoptPhase,
    pub dry_run: bool,
    pub planned: bool,
    pub prepared: bool,
    pub validated: bool,
    pub published: bool,
    pub pack_exists: bool,
    pub pack_dir: Seq<char>,
    pub pack_display: Seq<char>,
}

impl View for AdoptRun {
    type V = AdoptRunView;

    open spec fn view(&self) -> AdoptRunView {
        AdoptRunView {
            phase: self.phase,
            dry_run: self.dry_run,
            planned: self.planned,
            prepared: self.prepared,
            validated: self.validated,
            published: self.published,
            pack_exists: self.pack_exists,
            pack_dir: self.pack_dir@,
            pack_display: self.pack_display@,
        }
    }
}

/// What the last step found.
pub enum AdoptEvent {
    /// The request as given: the `--only-os` label, the root's gate
    /// table and how many sources were named.
    Requested { only_os: Option<String>, gates: GateTable, source_count: usize },
    /// The root's pack directories, `--into` if given, and each
    /// source's path and inference (empty with `--into`, which needs none).
    PacksRead { packs: Vec<PackEntry>, pack_override: Option<String>, inferred: Vec<SourceInference> },
    /// The root scan's refusal of the pack directory (see
    /// `classify::pack_dir_refusal`), whether the pack carries a
    /// `.dodotignore`, and whether it exists.
    PackChecked { dir_refusal: Option<String>, ignored: bool, exists: bool },
    /// Planning's outcome: how many entries were planned, or the refusal.
    Planned { result: Result<usize, PlanRefusal> },
    /// Copying into the preparation directory: done, or the error.
    Prepared { result: Result<(), String> },
    /// The deploy-conflict check.
    Validated { result: Result<(), DeployConflict> },
    /// Publication: done, or the error and whether its rollback left
    /// content in the preparation directory.
    Published { result: Result<(), String>, keep_preparation: bool },
    /// Source replacement: how many sources failed, and whether a failed
    /// recovery stranded content in the preparation directory.
    Replaced { failures: usize, stranded: bool },
}

/// Why a run is refused.
#[derive(Debug)]
pub enum AdoptRefusal {
    /// A refusal told in a message.
    Message { message: String },
    /// The pack carries a `.dodotignore`.
    PackIgnored { pack: String },
    /// Something is already at this destination and `--force` was not given.
    Conflict { path: String },
    /// The prospective tree fails the deploy-conflict check.
    Deploy { conflict: DeployConflict },
}

pub enum AdoptRefusalView {
    Message(Seq<char>),
    PackIgnored(Seq<char>),
    Conflict(Seq<char>),
    Deploy(DeployConflictView),
}

impl View for AdoptRefusal {
    type V = AdoptRefusalView;

    open spec fn view(&self) -> AdoptRefusalView {
        match self {
            AdoptRefusal::Message { message } => AdoptRefusalView::Message(message@),
            AdoptRefusal::PackIgnored { pack } => AdoptRefusalView::PackIgnored(pack@),
            AdoptRefusal::Conflict { path } => AdoptRefusalView::Conflict(path@),
            AdoptRefusal::Deploy { conflict } => AdoptRefusalView::Deploy(conflict@),
        }
    }
}

/// What to do next.
#[derive(Debug)]
pub enum AdoptAction {
    /// Read the pack directories and infer each source's pack.
    ResolvePack,
    /// Check the pack directory (its name, its `.dodotignore`, whether it exists).
    CheckPack { dir: String },
    /// Plan every source into the pack (see `plan_source`, `plan_children`).
    Plan,
    /// Copy the planned entries into a new preparation directory.
    Prepare,
    /// Run the deploy-conflict check on the prospective tree.
    Validate,
    /// Move the prepared entries into the pack.
    Publish,
    /// Replace each planned source with a symlink to its pack entry.
    ReplaceSources,
    /// Remove the preparation directory.
    DiscardPreparation,
    /// Report the pack's state; with `planned_rows`, list the planned
    /// entries (the pack is not on disk) instead of reading it.
    Report { dry_run: bool, planned_rows: bool },
    /// End the run with this refusal.
    Refuse { refusal: AdoptRefusal },
}

pub enum AdoptActionView {
    ResolvePack,
    CheckPack(Seq<char>),
    Plan,
    Prepare,
    Validate,
    Publish,
    ReplaceSources,
    DiscardPreparation,
    Report(bool, bool),
    Refuse(AdoptRefusalView),
}

impl View for AdoptAction {
    type V = AdoptActionView;

    open spec fn view(&self) -> AdoptActionView {
        match self {
            AdoptAction::ResolvePack => AdoptActionView::ResolvePack,
            AdoptAction::CheckPack { dir } => AdoptActionView::CheckPack(dir@),
            AdoptAction::Plan => AdoptActionView::Plan,
            AdoptAction::Prepare => AdoptActionView::Prepare,
            AdoptAction::Validate => AdoptActionView::Validate,
            AdoptAction::Publish => AdoptActionView::Publish,
            AdoptAction::ReplaceSources => AdoptActionView::ReplaceSources,
            AdoptAction::DiscardPreparation => AdoptActionView::DiscardPreparation,
            AdoptAction::Report { dry_run, planned_rows } => AdoptActionView::Report(*dry_run, *planned_rows),
            AdoptAction::Refuse { refusal } => AdoptActionView::Refuse(refusal@),
        }
    }
}

pub open spec fn actions_view(v: Seq<AdoptAction>) -> Seq<AdoptActionView> {
    Seq::new(v.len(), |i: int| v[i]@)
}

/// A run that has not started; the first action checks the request.
pub fn start(dry_run: bool) -> (r: AdoptRun)
    ensures
        wf(r@),
        r@ == (AdoptRunView {
            phase: AdoptPhase::Request,
            dry_run,
            planned: false,
            prepared: false,
            validated: false,
            published: false,
            pack_exists: false,
            pack_dir: Seq::empty(),
            pack_display: Seq::empty(),
        }),
{
    let r = AdoptRun {
        phase: AdoptPhase::Request,
        dry_run,
        planned: false,
        prepared: false,
        validated: false,
        published: false,
        pack_exists: false,
        pack_dir: String::new(),
        pack_display: String::new(),
    };
    proof {
        assert(r.pack_dir@ =~= Seq::<char>::empty());
        assert(r.pack_display@ =~= Seq::<char>::empty());
    }
    r
}

/// The flags a run's phase implies: from preparation on, planning
/// succeeded; validation and publication are reached only with a
/// preparation; from publication on, validation succeeded outside a
/// dry run.
pub open spec fn wf(st: AdoptRunView) -> bool {
    &&& (st.phase == AdoptPhase::Prepare || st.phase == AdoptPhase::Validate || st.phase
        == AdoptPhase::Publish || st.phase == AdoptPhase::Replace) ==> st.planned
    &&& (st.phase == AdoptPhase::Validate || st.phase == AdoptPhase::Publish) ==> st.prepared
        && !st.published
    &&& (st.phase == AdoptPhase::Publish || st.phase == AdoptPhase::Replace) ==> st.validated
        && !st.dry_run
    &&& (st.phase == AdoptPhase::Request || st.phase == AdoptPhase::Resolve || st.phase
        == AdoptPhase::CheckPack || st.phase == AdoptPhase::Plan || st.phase == AdoptPhase::Prepare)
        ==> !st.prepared && !st.published
}

/// `st` moved to `phase`.
pub open spec fn at(st: AdoptRunView, phase: AdoptPhase) -> AdoptRunView {
    AdoptRunView { phase, ..st }
}

/// The actions that end a refused run: the preparation, when there is
/// one, is discarded first.
pub open spec fn refuse(st: AdoptRunView, x: AdoptRefusalView) -> Seq<AdoptActionView> {
    if st.prepared {
        seq![AdoptActionView::DiscardPreparation, AdoptActionView::Refuse(x)]
    } else {
        seq![AdoptActionView::Refuse(x)]
    }
}

pub open spec fn plan_refusal(x: PlanRefusalView) -> AdoptRefusalView {
    match x {
        PlanRefusalView::Conflict(p) => AdoptRefusalView::Conflict(p),
        PlanRefusalView::Refused(m) => AdoptRefusalView::Message(m),
    }
}

/// One step of the run. An event that does not answer the step the run
/// waits for leaves the run as it is and asks for nothing.
pub open spec fn spec_adopt_step(st: AdoptRunView, ev: AdoptEvent) -> (AdoptRunView, Seq<AdoptActionView>) {
    let finished = AdoptRunView { phase: AdoptPhase::Finished, prepared: false, ..st };
    match (st.phase, ev) {
        (AdoptPhase::Request, AdoptEvent::Requested { only_os, gates, source_count }) => {
            let label_refusal = match only_os {
                Some(l) => spec_only_os_error(l@, gates@),
                None => None,
            };
            match label_refusal {
                Some(m) => (finished, refuse(st, AdoptRefusalView::Message(m))),
                None => if source_count == 0 {
                    (finished, refuse(st, AdoptRefusalView::Message("no files specified"@)))
                } else {
                    (at(st, AdoptPhase::Resolve), seq![AdoptActionView::ResolvePack])
                },
            }
        },
        (AdoptPhase::Resolve, AdoptEvent::PacksRead { packs, pack_override, inferred }) => {
            match spec_resolve_for_sources(pack_dirs(packs@), opt_view(pack_override), inferred@) {
                Err(m) => (finished, refuse(st, AdoptRefusalView::Message(m))),
                Ok(d) => (
                    AdoptRunView {
                        phase: AdoptPhase::CheckPack,
                        pack_dir: d,
                        pack_display: spec_display_name(d),
                        ..st
                    },
                    seq![AdoptActionView::CheckPack(d)],
                ),
            }
        },
        (AdoptPhase::CheckPack, AdoptEvent::PackChecked { dir_refusal, ignored, exists }) => {
            match dir_refusal {
                Some(m) => (finished, refuse(st, AdoptRefusalView::Message(m@))),
                None => if ignored {
                    (finished, refuse(st, AdoptRefusalView::PackIgnored(st.pack_display)))
                } else {
                    (
                        AdoptRunView { phase: AdoptPhase::Plan, pack_exists: exists, ..st },
                        seq![AdoptActionView::Plan],
                    )
                },
            }
        },
        (AdoptPhase::Plan, AdoptEvent::Planned { result }) => match result {
            Err(x) => (finished, refuse(st, plan_refusal(x@))),
            Ok(n) => if n == 0 {
                (finished, seq![AdoptActionView::Report(st.dry_run, !st.pack_exists)])
            } else {
                (
                    AdoptRunView { phase: AdoptPhase::Prepare, planned: true, ..st },
                    seq![AdoptActionView::Prepare],
                )
            },
        },
        (AdoptPhase::Prepare, AdoptEvent::Prepared { result }) => {
            let prepared = AdoptRunView { prepared: true, ..st };
            match result {
                Err(m) => (finished, refuse(prepared, AdoptRefusalView::Message(m@))),
                Ok(()) => (at(prepared, AdoptPhase::Validate), seq![AdoptActionView::Validate]),
            }
        },
        (AdoptPhase::Validate, AdoptEvent::Validated { result }) => match result {
            Err(x) => (finished, refuse(st, AdoptRefusalView::Deploy(x@))),
            Ok(()) => {
                let valid = AdoptRunView { validated: true, ..st };
                if st.dry_run {
                    (
                        AdoptRunView { phase: AdoptPhase::Finished, prepared: false, ..valid },
                        seq![
                            AdoptActionView::DiscardPreparation,
                            AdoptActionView::Report(true, !st.pack_exists),
                        ],
                    )
                } else {
                    (at(valid, AdoptPhase::Publish), seq![AdoptActionView::Publish])
                }
            },
        },
        (AdoptPhase::Publish, AdoptEvent::Published { result, keep_preparation }) => match result {
            Err(m) => if keep_preparation {
                (
                    at(st, AdoptPhase::Finished),
                    seq![AdoptActionView::Refuse(AdoptRefusalView::Message(m@))],
                )
            } else {
                (
                    AdoptRunView { phase: AdoptPhase::Finished, prepared: false, ..st },
                    refuse(st, AdoptRefusalView::Message(m@)),
                )
            },
            Ok(()) => (
                AdoptRunView { phase: AdoptPhase::Replace, published: true, ..st },
                seq![AdoptActionView::ReplaceSources],
            ),
        },
        (AdoptPhase::Replace, AdoptEvent::Replaced { failures, stranded }) => if stranded {
            (at(st, AdoptPhase::Finished), seq![AdoptActionView::Report(false, false)])
        } else {
            (
                AdoptRunView { phase: AdoptPhase::Finished, prepared: false, ..st },
                seq![AdoptActionView::DiscardPreparation, AdoptActionView::Report(false, false)],
            )
        },
        _ => (st, Seq::empty()),
    }
}

/// Whether an action writes to the final pack or the sources.
pub open spec fn writes_final(a: AdoptActionView) -> bool {
    a is Publish || a is ReplaceSources
}

/// What every step keeps, for a run `st` that receives `ev` and becomes
/// `st2` with the actions `acts`:
/// - a final write (publishing, replacing sources) comes only once
///   planning and validation succeeded, and never in a dry run;
/// - outside publication, a refusal of a prepared run discards the
///   preparation first and then refuses;
/// - a dry run's successful validation discards the preparation and
///   reports a dry run;
/// - after source replacement, the preparation is discarded exactly
///   when nothing is stranded in it.
pub open spec fn step_keeps(
    st: AdoptRunView,
    ev: AdoptEvent,
    st2: AdoptRunView,
    acts: Seq<AdoptActionView>,
) -> bool {
    &&& forall|k: int|
        0 <= k < acts.len() && writes_final(#[trigger] acts[k]) ==> st2.planned && st2.validated
            && !st2.dry_run
    &&& (st.phase != AdoptPhase::Publish && st.prepared && acts.len() > 0 && acts.last() is Refuse)
        ==> acts == seq![AdoptActionView::DiscardPreparation, acts.last()]
    &&& (st.dry_run && st.phase == AdoptPhase::Validate && ev matches AdoptEvent::Validated {
        result: Ok(()),
    }) ==> acts == seq![
        AdoptActionView::DiscardPreparation,
        AdoptActionView::Report(true, !st.pack_exists),
    ]
    &&& st.phase == AdoptPhase::Replace ==> (ev matches AdoptEvent::Replaced { stranded, .. } ==> ((
    exists|k: int| 0 <= k < acts.len() && acts[k] is DiscardPreparation) <==> !stranded))
}

proof fn lemma_step_keeps(st: AdoptRunView, ev: AdoptEvent)
    requires
        wf(st),
    ensures
        step_keeps(st, ev, spec_adopt_step(st, ev).0, spec_adopt_step(st, ev).1),
        wf(spec_adopt_step(st, ev).0),
{
    let (st2, acts) = spec_adopt_step(st, ev);
    if st.phase == AdoptPhase::Replace {
        match ev {
            AdoptEvent::Replaced { stranded, .. } => {
                if !stranded {
                    assert(acts[0] is DiscardPreparation);
                }
            },
            _ => {},
        }
    }
}

fn message(m: String) -> (r: AdoptAction)
    ensures
        r@ == AdoptActionView::Refuse(AdoptRefusalView::Message(m@)),
{
    AdoptAction::Refuse { refusal: AdoptRefusal::Message { message: m } }
}

fn refusal_actions(prepared: bool, x: AdoptRefusal) -> (r: Vec<AdoptAction>)
    ensures
        actions_view(r@) == (if prepared {
            seq![AdoptActionView::DiscardPreparation, AdoptActionView::Refuse(x@)]
        } else {
            seq![AdoptActionView::Refuse(x@)]
        }),
{
    let ghost xv = x@;
    let mut v: Vec<AdoptAction> = Vec::new();
    if prepared {
        v.push(AdoptAction::DiscardPreparation);
    }
    v.push(AdoptAction::Refuse { refusal: x });
    proof {
        if prepared {
            assert(actions_view(v@) =~= seq![
                AdoptActionView::DiscardPreparation,
                AdoptActionView::Refuse(xv),
            ]);
        } else {
            assert(actions_view(v@) =~= seq![AdoptActionView::Refuse(xv)]);
        }
    }
    v
}

fn one(a: AdoptAction) -> (r: Vec<AdoptAction>)
    ensures
        actions_view(r@) == seq![a@],
{
    let ghost av = a@;
    let v = vec![a];
    proof {
        assert(actions_view(v@) =~= seq![av]);
    }
    v
}

fn two(a: AdoptAction, b: AdoptAction) -> (r: Vec<AdoptAction>)
    ensures
        actions_view(r@) == seq![a@, b@],
{
    let ghost av = a@;
    let ghost bv = b@;
    let v = vec![a, b];
    proof {
        assert(actions_view(v@) =~= seq![av, bv]);
    }
    v
}

/// One step of an adopt run: the state after `event` and the actions to
/// perform, exactly as `spec_adopt_step` says. In every step: a final
/// write (publishing, replacing sources) is asked for only after
/// planning and validation succeeded and never in a dry run; a refusal
/// before publication discards an existing preparation and then
/// refuses; a dry run's validation ends the run with a dry-run report;
/// after source replacement the preparation is discarded exactly when
/// nothing is stranded in it.
pub fn adopt_step(run: AdoptRun, event: AdoptEvent) -> (r: (AdoptRun, Vec<AdoptAction>))
    requires
        wf(run@),
        match event {
            AdoptEvent::PacksRead { inferred, .. } => inferred@.len() < u64::MAX,
            _ => true,
        },
    ensures
        (r.0@, actions_view(r.1@)) == spec_adopt_step(run@, event),
        wf(r.0@),
        step_keeps(run@, event, r.0@, actions_view(r.1@)),
{
    let ghost st = run@;
    proof {
        lemma_step_keeps(run@, event);
    }
    let AdoptRun {
        phase,
        dry_run,
        planned,
        prepared,
        validated,
        published,
        pack_exists,
        pack_dir,
        pack_display,
    } = run;
    let mut next = AdoptRun {
        phase,
        dry_run,
        planned,
        prepared,
        validated,
        published,
        pack_exists,
        pack_dir,
        pack_display,
    };
    match (phase, event) {
        (AdoptPhase::Request, AdoptEvent::Requested { only_os, gates, source_count }) => {
            let checked = match &only_os {
                Some(l) => check_adopt_request(Some(l.as_str()), &gates, source_count),
                None => check_adopt_request(None, &gates, source_count),
            };
            match checked {
                Err(m) => {
                    next.phase = AdoptPhase::Finished;
                    next.prepared = false;
                    let acts = refusal_actions(prepared, AdoptRefusal::Message { message: m });
                    (next, acts)
                },
                Ok(()) => {
                    next.phase = AdoptPhase::Resolve;
                    (next, one(AdoptAction::ResolvePack))
                },
            }
        },
        (AdoptPhase::Resolve, AdoptEvent::PacksRead { packs, pack_override, inferred }) => {
            let over = match &pack_override {
                Some(o) => Some(o.as_str()),
                None => None,
            };
            proof {
                assert(crate::adopt::opt_str(over) == opt_view(pack_override));
            }
            match resolve_pack_for_sources(packs.as_slice(), over, inferred.as_slice()) {
                Err(m) => {
                    next.phase = AdoptPhase::Finished;
                    next.prepared = false;
                    let acts = refusal_actions(prepared, AdoptRefusal::Message { message: m });
                    (next, acts)
                },
                Ok(p) => {
                    let dir = p.dir.clone();
                    next.phase = AdoptPhase::CheckPack;
                    next.pack_dir = p.dir;
                    next.pack_display = p.display;
                    (next, one(AdoptAction::CheckPack { dir }))
                },
            }
        },
        (AdoptPhase::CheckPack, AdoptEvent::PackChecked { dir_refusal, ignored, exists }) => {
            match dir_refusal {
                Some(m) => {
                    next.phase = AdoptPhase::Finished;
                    next.prepared = false;
                    let acts = refusal_actions(prepared, AdoptRefusal::Message { message: m });
                    (next, acts)
                },
                None => if ignored {
                    let pack = next.pack_display.clone();
                    next.phase = AdoptPhase::Finished;
                    next.prepared = false;
                    let acts = refusal_actions(prepared, AdoptRefusal::PackIgnored { pack });
                    (next, acts)
                } else {
                    next.phase = AdoptPhase::Plan;
                    next.pack_exists = exists;
                    (next, one(AdoptAction::Plan))
                },
            }
        },
        (AdoptPhase::Plan, AdoptEvent::Planned { result }) => match result {
            Err(x) => {
                let refusal = match x {
                    PlanRefusal::Conflict { path } => AdoptRefusal::Conflict { path },
                    PlanRefusal::Refused { message } => AdoptRefusal::Message { message },
                };
                next.phase = AdoptPhase::Finished;
                next.prepared = false;
                let acts = refusal_actions(prepared, refusal);
                (next, acts)
            },
            Ok(n) => if n == 0 {
                next.phase = AdoptPhase::Finished;
                next.prepared = false;
                (next, one(AdoptAction::Report { dry_run, planned_rows: !pack_exists }))
            } else {
                next.phase = AdoptPhase::Prepare;
                next.planned = true;
                (next, one(AdoptAction::Prepare))
            },
        },
        (AdoptPhase::Prepare, AdoptEvent::Prepared { result }) => {
            next.prepared = true;
            match result {
                Err(m) => {
                    next.phase = AdoptPhase::Finished;
                    next.prepared = false;
                    let acts = refusal_actions(true, AdoptRefusal::Message { message: m });
                    (next, acts)
                },
                Ok(()) => {
                    next.phase = AdoptPhase::Validate;
                    (next, one(AdoptAction::Validate))
                },
            }
        },
        (AdoptPhase::Validate, AdoptEvent::Validated { result }) => match result {
            Err(x) => {
                next.phase = AdoptPhase::Finished;
                next.prepared = false;
                let acts = refusal_actions(prepared, AdoptRefusal::Deploy { conflict: x });
                (next, acts)
            },
            Ok(()) => {
                next.validated = true;
                if dry_run {
                    next.phase = AdoptPhase::Finished;
                    next.prepared = false;
                    (
                        next,
                        two(
                            AdoptAction::DiscardPreparation,
                            AdoptAction::Report { dry_run: true, planned_rows: !pack_exists },
                        ),
                    )
                } else {
                    next.phase = AdoptPhase::Publish;
                    (next, one(AdoptAction::Publish))
                }
            },
        },
        (AdoptPhase::Publish, AdoptEvent::Published { result, keep_preparation }) => match result {
            Err(m) => {
                next.phase = AdoptPhase::Finished;
                if keep_preparation {
                    (next, one(message(m)))
                } else {
                    next.prepared = false;
                    let acts = refusal_actions(prepared, AdoptRefusal::Message { message: m });
                    (next, acts)
                }
            },
            Ok(()) => {
                next.phase = AdoptPhase::Replace;
                next.published = true;
                (next, one(AdoptAction::ReplaceSources))
            },
        },
        (AdoptPhase::Replace, AdoptEvent::Replaced { failures: _, stranded }) => {
            next.phase = AdoptPhase::Finished;
            if stranded {
                (next, one(AdoptAction::Report { dry_run: false, planned_rows: false }))
            } else {
                next.prepared = false;
                (
                    next,
                    two(
                        AdoptAction::DiscardPreparation,
                        AdoptAction::Report { dry_run: false, planned_rows: false },
                    ),
                )
            }
        },
        _ => (next, Vec::new()),
    }
}

} // verus!
