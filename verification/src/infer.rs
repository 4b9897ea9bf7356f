//! Where an adopted source belongs: which pack, and at which in-pack
//! path, so that deploying the pack again lands the symlink back at the
//! source's original location.
//!
//! All paths here are already canonical (the caller resolves symlinked
//! parents). Roots are tried most specific first: a sandboxed
//! container is refused outright; then Application Support, then (on
//! macOS) `~/Library`, then `$XDG_CONFIG_HOME`, then `$HOME`.

use vstd::prelude::*;
use crate::paths::{
    components, components_of, comps_eq, comps_prefix, comps_prepend, comps_skip, is_absolute,
    is_absolute_exec, is_prefix, join, join_exec, kept, slash_free,
};
use crate::text::{
    chars_eq, chars_of, copy_chars, join_strings, join_with, push_chars, push_str, string_of,
};

verus! {

/// Which root an adopt source was matched against.
#[derive(Debug, Clone, Copy, PartialEq, Eq, Structural)]
pub enum SourceRoot {
    Home,
    XdgConfig,
    AppSupport,
    Library,
}

/// How to adopt one source: its natural pack (when the root carries one)
/// and its in-pack path, written two ways.
#[derive(Debug)]
pub struct InferredTarget {
    /// Pack name mined from the source path; `None` when `--into` is needed.
    pub natural_pack: Option<String>,
    /// In-pack path when the destination pack is the natural one.
    pub in_pack_natural: String,
    /// In-pack path when `--into` picked a different pack.
    pub in_pack_override: String,
    pub source_root: SourceRoot,
    /// The source is a pack-root directory whose children are adopted one by one.
    pub expand_children: bool,
}

/// Why no target could be inferred.
#[derive(Debug)]
pub enum InferenceError {
    UnrecognizedRoot { hint_roots: Vec<String> },
    NonDottedHome { stripped: String },
    LooseXdgFile,
    XdgRootItself,
    HomeRootItself,
    SandboxedContainer,
    LibraryRootItself,
}

/// The mathematical content of an [`InferredTarget`].
pub struct InferredView {
    pub natural_pack: Option<Seq<char>>,
    pub in_pack_natural: Seq<char>,
    pub in_pack_override: Seq<char>,
    pub source_root: SourceRoot,
    pub expand_children: bool,
}

/// The mathematical content of an [`InferenceError`].
pub enum InferenceErrorView {
    UnrecognizedRoot(Seq<Seq<char>>),
    NonDottedHome(Seq<char>),
    LooseXdgFile,
    XdgRootItself,
    HomeRootItself,
    SandboxedContainer,
    LibraryRootItself,
}

pub open spec fn opt_view(o: Option<String>) -> Option<Seq<char>> {
    match o {
        Some(s) => Some(s@),
        None => None,
    }
}

impl View for InferredTarget {
    type V = InferredView;

    open spec fn view(&self) -> InferredView {
        InferredView {
            natural_pack: opt_view(self.natural_pack),
            in_pack_natural: self.in_pack_natural@,
            in_pack_override: self.in_pack_override@,
            source_root: self.source_root,
            expand_children: self.expand_children,
        }
    }
}

pub open spec fn strings_view(v: Seq<String>) -> Seq<Seq<char>> {
    Seq::new(v.len(), |i: int| v[i]@)
}

impl View for InferenceError {
    type V = InferenceErrorView;

    open spec fn view(&self) -> InferenceErrorView {
        match self {
            InferenceError::UnrecognizedRoot { hint_roots } => InferenceErrorView::UnrecognizedRoot(
                strings_view(hint_roots@),
            ),
            InferenceError::NonDottedHome { stripped } => InferenceErrorView::NonDottedHome(
                stripped@,
            ),
            InferenceError::LooseXdgFile => InferenceErrorView::LooseXdgFile,
            InferenceError::XdgRootItself => InferenceErrorView::XdgRootItself,
            InferenceError::HomeRootItself => InferenceErrorView::HomeRootItself,
            InferenceError::SandboxedContainer => InferenceErrorView::SandboxedContainer,
            InferenceError::LibraryRootItself => InferenceErrorView::LibraryRootItself,
        }
    }
}

pub open spec fn result_view(r: Result<InferredTarget, InferenceError>) -> Result<
    InferredView,
    InferenceErrorView,
> {
    match r {
        Ok(t) => Ok(t@),
        Err(e) => Err(e@),
    }
}

/// `s` without one leading `.`.
pub open spec fn strip_dot(s: Seq<char>) -> Seq<char> {
    if s.len() > 0 && s[0] == '.' {
        s.skip(1)
    } else {
        s
    }
}

/// Some `force_home` entry names `stripped` (with or without its dot).
pub open spec fn in_force_home(stripped: Seq<char>, force_home: Seq<Seq<char>>) -> bool {
    exists|i: int| 0 <= i < force_home.len() && strip_dot(force_home[i]) == stripped
}

/// The refusal text for a non-dotted `$HOME` entry.
pub open spec fn non_dotted_message(stripped: Seq<char>) -> Seq<char> {
    "a non-dotted entry in $HOME has no automatic round-trip path under the post-#48 XDG default. Either rename to a dotted name (e.g. ."@
        + stripped
        + ") before adopting, or copy into the pack manually and add a [symlink.targets] override pinning the deploy path."@
}

/// The in-pack path for a direct child of `$HOME` named `name`: the bare
/// name for a `force_home` entry, `home.X` for a dotted file, `_home/X`
/// for a dotted directory; anything else has no round trip.
pub open spec fn spec_derive_home(name: Seq<char>, is_dir: bool, force_home: Seq<Seq<char>>) -> Result<
    Seq<char>,
    Seq<char>,
> {
    let stripped = strip_dot(name);
    if in_force_home(stripped, force_home) {
        Ok(stripped)
    } else if name.len() > 0 && name[0] == '.' {
        if is_dir {
            Ok("_home/"@ + stripped)
        } else {
            Ok("home."@ + stripped)
        }
    } else {
        Err(non_dotted_message(stripped))
    }
}

pub open spec fn target(
    natural_pack: Option<Seq<char>>,
    natural: Seq<char>,
    over: Seq<char>,
    root: SourceRoot,
    expand: bool,
) -> InferredView {
    InferredView {
        natural_pack,
        in_pack_natural: natural,
        in_pack_override: over,
        source_root: root,
        expand_children: expand,
    }
}

/// A path below `$XDG_CONFIG_HOME`, as components: the first names the
/// pack, the rest is the in-pack path.
pub open spec fn spec_resolve_xdg(rel: Seq<Seq<char>>, is_dir: bool) -> Result<
    InferredView,
    InferenceErrorView,
> {
    if rel.len() == 0 {
        Err(InferenceErrorView::XdgRootItself)
    } else {
        let first = rel[0];
        let rest = rel.skip(1);
        if rest.len() == 0 {
            if is_dir {
                Ok(
                    target(
                        Some(first),
                        Seq::empty(),
                        join(seq!["_xdg"@, first]),
                        SourceRoot::XdgConfig,
                        true,
                    ),
                )
            } else {
                Err(InferenceErrorView::LooseXdgFile)
            }
        } else {
            Ok(
                target(
                    Some(first),
                    join(rest),
                    join(seq!["_xdg"@, first] + rest),
                    SourceRoot::XdgConfig,
                    false,
                ),
            )
        }
    }
}

/// A path below Application Support: pack `X`, in-pack `_app/X/...`.
pub open spec fn spec_resolve_app(rel: Seq<Seq<char>>, is_dir: bool) -> Result<
    InferredView,
    InferenceErrorView,
> {
    if rel.len() == 0 {
        Err(InferenceErrorView::XdgRootItself)
    } else {
        let first = rel[0];
        let in_pack = join(seq!["_app"@] + rel);
        if rel.len() == 1 {
            if is_dir {
                Ok(target(Some(first), in_pack, in_pack, SourceRoot::AppSupport, true))
            } else {
                Err(InferenceErrorView::LooseXdgFile)
            }
        } else {
            Ok(target(Some(first), in_pack, in_pack, SourceRoot::AppSupport, false))
        }
    }
}

/// A path below `~/Library`: no pack, in-pack `_lib/...`.
pub open spec fn spec_resolve_library(rel: Seq<Seq<char>>, is_dir: bool) -> Result<
    InferredView,
    InferenceErrorView,
> {
    if rel.len() == 0 {
        Err(InferenceErrorView::LibraryRootItself)
    } else if rel[0] == "Containers"@ {
        Err(InferenceErrorView::SandboxedContainer)
    } else {
        let in_pack = join(seq!["_lib"@] + rel);
        Ok(target(None, in_pack, in_pack, SourceRoot::Library, is_dir && rel.len() == 1))
    }
}

/// A path below `$HOME`: only direct children have a round trip.
pub open spec fn spec_resolve_home(
    rel: Seq<Seq<char>>,
    is_dir: bool,
    force_home: Seq<Seq<char>>,
) -> Result<InferredView, InferenceErrorView> {
    if rel.len() == 0 {
        Err(InferenceErrorView::HomeRootItself)
    } else if rel.len() > 1 {
        Err(InferenceErrorView::UnrecognizedRoot(seq!["$HOME"@, "$XDG_CONFIG_HOME"@]))
    } else {
        match spec_derive_home(rel[0], is_dir, force_home) {
            Ok(p) => Ok(target(None, p, p, SourceRoot::Home, false)),
            Err(_) => Err(InferenceErrorView::NonDottedHome(strip_dot(rel[0]))),
        }
    }
}

/// `p` (components `pc`, rootedness `pa`) lies at or below `base`.
pub open spec fn below(pa: bool, pc: Seq<Seq<char>>, ba: bool, bc: Seq<Seq<char>>) -> bool {
    pa == ba && is_prefix(bc, pc)
}

/// `p` is `base` itself.
pub open spec fn at(pa: bool, pc: Seq<Seq<char>>, ba: bool, bc: Seq<Seq<char>>) -> bool {
    pa == ba && pc == bc
}

/// The whole inference, root by root.
pub open spec fn spec_infer(
    src: Seq<char>,
    is_dir: bool,
    home: Seq<char>,
    xdg: Seq<char>,
    app: Seq<char>,
    force_home: Seq<Seq<char>>,
    on_macos: bool,
) -> Result<InferredView, InferenceErrorView> {
    let (sa, s) = (is_absolute(src), components(src));
    let (ha, h) = (is_absolute(home), components(home));
    let (xa, x) = (is_absolute(xdg), components(xdg));
    let (aa, a) = (is_absolute(app), components(app));
    let library = h.push("Library"@);
    let containers = library.push("Containers"@);
    let app_distinct = !at(aa, a, xa, x);
    if below(sa, s, ha, containers) {
        Err(InferenceErrorView::SandboxedContainer)
    } else if app_distinct && at(sa, s, aa, a) {
        Err(InferenceErrorView::XdgRootItself)
    } else if app_distinct && below(sa, s, aa, a) {
        spec_resolve_app(s.skip(a.len() as int), is_dir)
    } else if on_macos && at(sa, s, ha, library) {
        Err(InferenceErrorView::LibraryRootItself)
    } else if on_macos && below(sa, s, ha, library) {
        spec_resolve_library(s.skip(library.len() as int), is_dir)
    } else if at(sa, s, xa, x) {
        Err(InferenceErrorView::XdgRootItself)
    } else if below(sa, s, xa, x) {
        spec_resolve_xdg(s.skip(x.len() as int), is_dir)
    } else if at(sa, s, ha, h) {
        Err(InferenceErrorView::HomeRootItself)
    } else if below(sa, s, ha, h) {
        spec_resolve_home(s.skip(h.len() as int), is_dir, force_home)
    } else if at(aa, a, xa, x) || at(aa, a, ha, h) {
        Err(InferenceErrorView::UnrecognizedRoot(seq![xdg, home]))
    } else {
        Err(InferenceErrorView::UnrecognizedRoot(seq![xdg, home, app]))
    }
}

/// `s` without one leading `.`.
pub fn strip_dot_exec(s: &[char]) -> (r: Vec<char>)
    ensures
        r@ == strip_dot(s@),
{
    if s.len() > 0 && s[0] == '.' {
        let mut r: Vec<char> = Vec::new();
        let mut i: usize = 1;
        while i < s.len()
            invariant
                1 <= i <= s.len(),
                r@ == s@.subrange(1, i as int),
            decreases s.len() - i,
        {
            r.push(s[i]);
            i = i + 1;
            proof {
                assert(r@ =~= s@.subrange(1, i as int));
            }
        }
        proof {
            assert(s@.skip(1) =~= s@.subrange(1, s@.len() as int));
        }
        r
    } else {
        copy_chars(s)
    }
}

/// Whether some `force_home` entry names `stripped`.
fn in_force_home_exec(stripped: &[char], force_home: &[String]) -> (r: bool)
    ensures
        r == in_force_home(stripped@, strings_view(force_home@)),
{
    let mut i: usize = 0;
    while i < force_home.len()
        invariant
            i <= force_home.len(),
            forall|j: int| 0 <= j < i ==> strip_dot(#[trigger] force_home@[j]@) != stripped@,
        decreases force_home.len() - i,
    {
        let entry = chars_of(force_home[i].as_str());
        let e = strip_dot_exec(entry.as_slice());
        if chars_eq(e.as_slice(), stripped) {
            proof {
                assert(strip_dot(strings_view(force_home@)[i as int]) == stripped@);
            }
            return true;
        }
        i = i + 1;
    }
    proof {
        assert forall|j: int| 0 <= j < force_home@.len() implies strip_dot(
            strings_view(force_home@)[j],
        ) != stripped@ by {
            assert(strings_view(force_home@)[j] == force_home@[j]@);
        }
    }
    false
}

/// The in-pack path for a direct child of `$HOME` named `file_name`, or
/// the reason there is none.
pub fn derive_home_in_pack(file_name: &str, is_dir: bool, force_home: &[String]) -> (r: Result<
    String,
    String,
>)
    ensures
        match (r, spec_derive_home(file_name@, is_dir, strings_view(force_home@))) {
            (Ok(a), Ok(b)) => a@ == b,
            (Err(a), Err(b)) => a@ == b,
            _ => false,
        },
{
    let name = chars_of(file_name);
    let stripped = strip_dot_exec(name.as_slice());
    if in_force_home_exec(stripped.as_slice(), force_home) {
        Ok(string_of(stripped.as_slice()))
    } else if name.len() > 0 && name[0] == '.' {
        let mut out: Vec<char> = Vec::new();
        if is_dir {
            push_str(&mut out, "_home/");
        } else {
            push_str(&mut out, "home.");
        }
        push_chars(&mut out, stripped.as_slice());
        Ok(string_of(out.as_slice()))
    } else {
        let mut out: Vec<char> = Vec::new();
        push_str(
            &mut out,
            "a non-dotted entry in $HOME has no automatic round-trip path under the post-#48 XDG default. Either rename to a dotted name (e.g. .",
        );
        push_chars(&mut out, stripped.as_slice());
        push_str(
            &mut out,
            ") before adopting, or copy into the pack manually and add a [symlink.targets] override pinning the deploy path.",
        );
        Err(string_of(out.as_slice()))
    }
}

fn joined(cs: &Vec<Vec<char>>) -> (r: String)
    ensures
        r@ == join(cs.deep_view()),
{
    let j = join_exec(cs);
    string_of(j.as_slice())
}

fn resolve_xdg(rel: &Vec<Vec<char>>, is_dir: bool) -> (r: Result<InferredTarget, InferenceError>)
    ensures
        result_view(r) == spec_resolve_xdg(rel.deep_view(), is_dir),
{
    if rel.len() == 0 {
        return Err(InferenceError::XdgRootItself);
    }
    proof {
        assert(rel.deep_view()[0] =~= rel[0]@);
    }
    let first = string_of(rel[0].as_slice());
    let rest = comps_skip(rel, 1);
    let head = comps_prepend(rel[0].as_slice(), &rest);
    let xdg_head = {
        let x = chars_of("_xdg");
        comps_prepend(x.as_slice(), &head)
    };
    proof {
        assert(xdg_head.deep_view() =~= seq!["_xdg"@, rel.deep_view()[0]] + rel.deep_view().skip(1));
    }
    if rest.len() == 0 {
        if is_dir {
            proof {
                assert(rel.deep_view().skip(1) =~= Seq::<Seq<char>>::empty());
                assert(seq!["_xdg"@, rel.deep_view()[0]] + rel.deep_view().skip(1) =~= seq!["_xdg"@, rel.deep_view()[0]]);
            }
            let t = InferredTarget {
                natural_pack: Some(first),
                in_pack_natural: String::new(),
                in_pack_override: joined(&xdg_head),
                source_root: SourceRoot::XdgConfig,
                expand_children: true,
            };
            proof {
                assert(t@.in_pack_natural =~= Seq::<char>::empty());
            }
            Ok(t)
        } else {
            Err(InferenceError::LooseXdgFile)
        }
    } else {
        Ok(
            InferredTarget {
                natural_pack: Some(first),
                in_pack_natural: joined(&rest),
                in_pack_override: joined(&xdg_head),
                source_root: SourceRoot::XdgConfig,
                expand_children: false,
            },
        )
    }
}

fn resolve_app(rel: &Vec<Vec<char>>, is_dir: bool) -> (r: Result<InferredTarget, InferenceError>)
    ensures
        result_view(r) == spec_resolve_app(rel.deep_view(), is_dir),
{
    if rel.len() == 0 {
        return Err(InferenceError::XdgRootItself);
    }
    proof {
        assert(rel.deep_view()[0] =~= rel[0]@);
    }
    let app = chars_of("_app");
    let in_pack = comps_prepend(app.as_slice(), rel);
    if rel.len() == 1 {
        if is_dir {
            Ok(
                InferredTarget {
                    natural_pack: Some(string_of(rel[0].as_slice())),
                    in_pack_natural: joined(&in_pack),
                    in_pack_override: joined(&in_pack),
                    source_root: SourceRoot::AppSupport,
                    expand_children: true,
                },
            )
        } else {
            Err(InferenceError::LooseXdgFile)
        }
    } else {
        Ok(
            InferredTarget {
                natural_pack: Some(string_of(rel[0].as_slice())),
                in_pack_natural: joined(&in_pack),
                in_pack_override: joined(&in_pack),
                source_root: SourceRoot::AppSupport,
                expand_children: false,
            },
        )
    }
}

fn resolve_library(rel: &Vec<Vec<char>>, is_dir: bool) -> (r: Result<InferredTarget, InferenceError>)
    ensures
        result_view(r) == spec_resolve_library(rel.deep_view(), is_dir),
{
    if rel.len() == 0 {
        return Err(InferenceError::LibraryRootItself);
    }
    proof {
        assert(rel.deep_view()[0] =~= rel[0]@);
    }
    let containers = chars_of("Containers");
    if chars_eq(rel[0].as_slice(), containers.as_slice()) {
        return Err(InferenceError::SandboxedContainer);
    }
    let lib = chars_of("_lib");
    let in_pack = comps_prepend(lib.as_slice(), rel);
    Ok(
        InferredTarget {
            natural_pack: None,
            in_pack_natural: joined(&in_pack),
            in_pack_override: joined(&in_pack),
            source_root: SourceRoot::Library,
            expand_children: is_dir && rel.len() == 1,
        },
    )
}

fn resolve_home(rel: &Vec<Vec<char>>, is_dir: bool, force_home: &[String]) -> (r: Result<
    InferredTarget,
    InferenceError,
>)
    ensures
        result_view(r) == spec_resolve_home(rel.deep_view(), is_dir, strings_view(force_home@)),
{
    if rel.len() == 0 {
        return Err(InferenceError::HomeRootItself);
    }
    if rel.len() > 1 {
        let mut hint_roots: Vec<String> = Vec::new();
        hint_roots.push(String::from_str("$HOME"));
        hint_roots.push(String::from_str("$XDG_CONFIG_HOME"));
        proof {
            assert(strings_view(hint_roots@) =~= seq!["$HOME"@, "$XDG_CONFIG_HOME"@]);
        }
        return Err(InferenceError::UnrecognizedRoot { hint_roots });
    }
    proof {
        assert(rel.deep_view()[0] =~= rel[0]@);
    }
    let name = string_of(rel[0].as_slice());
    match derive_home_in_pack(name.as_str(), is_dir, force_home) {
        Ok(p) => {
            let p2 = p.clone();
            Ok(
                InferredTarget {
                    natural_pack: None,
                    in_pack_natural: p,
                    in_pack_override: p2,
                    source_root: SourceRoot::Home,
                    expand_children: false,
                },
            )
        },
        Err(_) => {
            let stripped = strip_dot_exec(rel[0].as_slice());
            Err(InferenceError::NonDottedHome { stripped: string_of(stripped.as_slice()) })
        },
    }
}

/// Infer pack and in-pack path for one adopt source.
///
/// `abs_source`, `home`, `xdg_config_home` and `app_support_dir` are the
/// canonical forms the caller resolved; `force_home` is the merged
/// `[symlink] force_home` list; `on_macos` enables the `~/Library` root.
pub fn infer_target(
    abs_source: &str,
    is_dir: bool,
    home: &str,
    xdg_config_home: &str,
    app_support_dir: &str,
    force_home: &[String],
    on_macos: bool,
) -> (r: Result<InferredTarget, InferenceError>)
    ensures
        result_view(r) == spec_infer(
            abs_source@,
            is_dir,
            home@,
            xdg_config_home@,
            app_support_dir@,
            strings_view(force_home@),
            on_macos,
        ),
{
    let src_chars = chars_of(abs_source);
    let home_chars = chars_of(home);
    let xdg_chars = chars_of(xdg_config_home);
    let app_chars = chars_of(app_support_dir);
    let sa = is_absolute_exec(src_chars.as_slice());
    let ha = is_absolute_exec(home_chars.as_slice());
    let xa = is_absolute_exec(xdg_chars.as_slice());
    let aa = is_absolute_exec(app_chars.as_slice());
    let s = components_of(src_chars.as_slice());
    let h = components_of(home_chars.as_slice());
    let x = components_of(xdg_chars.as_slice());
    let a = components_of(app_chars.as_slice());
    let library = {
        let mut l = comps_skip(&h, 0);
        let seg = chars_of("Library");
        proof {
            assert(seg.deep_view() =~= seg@);
        }
        l.push(seg);
        l
    };
    let containers = {
        let mut c = comps_skip(&library, 0);
        let seg = chars_of("Containers");
        proof {
            assert(seg.deep_view() =~= seg@);
        }
        c.push(seg);
        c
    };
    proof {
        assert(h.deep_view().skip(0) =~= h.deep_view());
        assert(library.deep_view() =~= h.deep_view().push("Library"@));
        assert(library.deep_view().skip(0) =~= library.deep_view());
        assert(containers.deep_view() =~= library.deep_view().push("Containers"@));
    }
    let app_distinct = !(aa == xa && comps_eq(&a, &x));
    if sa == ha && comps_prefix(&containers, &s) {
        return Err(InferenceError::SandboxedContainer);
    }
    if app_distinct && sa == aa && comps_eq(&s, &a) {
        return Err(InferenceError::XdgRootItself);
    }
    if app_distinct && sa == aa && comps_prefix(&a, &s) {
        let rel = comps_skip(&s, a.len());
        return resolve_app(&rel, is_dir);
    }
    if on_macos && sa == ha && comps_eq(&s, &library) {
        return Err(InferenceError::LibraryRootItself);
    }
    if on_macos && sa == ha && comps_prefix(&library, &s) {
        let rel = comps_skip(&s, library.len());
        return resolve_library(&rel, is_dir);
    }
    if sa == xa && comps_eq(&s, &x) {
        return Err(InferenceError::XdgRootItself);
    }
    if sa == xa && comps_prefix(&x, &s) {
        let rel = comps_skip(&s, x.len());
        return resolve_xdg(&rel, is_dir);
    }
    if sa == ha && comps_eq(&s, &h) {
        return Err(InferenceError::HomeRootItself);
    }
    if sa == ha && comps_prefix(&h, &s) {
        let rel = comps_skip(&s, h.len());
        return resolve_home(&rel, is_dir, force_home);
    }
    let mut hint_roots: Vec<String> = Vec::new();
    hint_roots.push(String::from_str(xdg_config_home));
    hint_roots.push(String::from_str(home));
    if !((aa == xa && comps_eq(&a, &x)) || (aa == ha && comps_eq(&a, &h))) {
        hint_roots.push(String::from_str(app_support_dir));
        proof {
            assert(strings_view(hint_roots@) =~= seq![xdg_config_home@, home@, app_support_dir@]);
        }
    } else {
        proof {
            assert(strings_view(hint_roots@) =~= seq![xdg_config_home@, home@]);
        }
    }
    Err(InferenceError::UnrecognizedRoot { hint_roots })
}

/// An ASCII capital letter.
pub open spec fn is_ascii_upper(c: char) -> bool {
    'A' <= c && c <= 'Z'
}

/// Two `.` in a row at index `i`: an empty segment between them.
pub open spec fn double_dot_at(name: Seq<char>, i: int) -> bool {
    name[i] == '.' && name[i + 1] == '.'
}

/// Reverse-DNS shape: at least two `.`-separated segments, none empty.
pub open spec fn reverse_dns(name: Seq<char>) -> bool {
    &&& exists|i: int| 0 <= i < name.len() && name[i] == '.'
    &&& name.len() > 0 && name[0] != '.' && name.last() != '.'
    &&& forall|i: int| 0 <= i < name.len() - 1 ==> !#[trigger] double_dot_at(name, i)
}

/// An Application Support folder name that looks like a GUI app's: it
/// holds a capital letter or a space, or has the reverse-DNS shape.
pub open spec fn spec_is_gui_app_folder(name: Seq<char>) -> bool {
    name.len() > 0 && ((exists|i: int| 0 <= i < name.len() && is_ascii_upper(name[i])) || (exists|
        i: int,
    |
        0 <= i < name.len() && name[i] == ' ') || reverse_dns(name))
}

/// Whether an Application Support folder name looks like a GUI app's.
pub fn is_gui_app_folder(name: &str) -> (r: bool)
    ensures
        r == spec_is_gui_app_folder(name@),
{
    let n = chars_of(name);
    if n.len() == 0 {
        return false;
    }
    let mut i: usize = 0;
    let mut has_dot = false;
    let mut empty_segment = n[0] == '.' || n[n.len() - 1] == '.';
    while i < n.len()
        invariant
            n@ == name@,
            n.len() > 0,
            i <= n.len(),
            forall|j: int| 0 <= j < i ==> !is_ascii_upper(n@[j]) && n@[j] != ' ',
            has_dot == exists|j: int| 0 <= j < i && n@[j] == '.',
            empty_segment == (n@[0] == '.' || n@.last() == '.' || exists|j: int|
                0 <= j < i && j < n.len() - 1 && #[trigger] double_dot_at(n@, j)),
        decreases n.len() - i,
    {
        let c = n[i];
        if 'A' <= c && c <= 'Z' {
            proof {
                assert(is_ascii_upper(name@[i as int]));
            }
            return true;
        }
        if c == ' ' {
            proof {
                assert(name@[i as int] == ' ');
            }
            return true;
        }
        if c == '.' {
            has_dot = true;
            if i + 1 < n.len() && n[i + 1] == '.' {
                empty_segment = true;
                proof {
                    assert(double_dot_at(n@, i as int));
                }
            }
        }
        i = i + 1;
    }
    proof {
        if reverse_dns(name@) {
            assert(has_dot);
        }
    }
    has_dot && !empty_segment
}

/// The explanation shown for an inference refusal.
pub open spec fn spec_inference_message(e: InferenceErrorView) -> Seq<char> {
    match e {
        InferenceErrorView::UnrecognizedRoot(roots) => "source is outside any recognized adopt root (expected under one of: "@
            + join_with(roots, ", "@)
            + "). Move the file under one of these locations first, or copy it into a pack manually and use `[symlink.targets]` for an absolute deploy path."@,
        InferenceErrorView::NonDottedHome(stripped) => non_dotted_message(stripped),
        InferenceErrorView::LooseXdgFile => "loose file directly under $XDG_CONFIG_HOME has no pack structure to infer. Move it into a subdirectory (recommended) or pass --into <pack> and place the file manually as `_xdg/<name>` in that pack."@,
        InferenceErrorView::XdgRootItself => "$XDG_CONFIG_HOME itself is too broad to adopt — adopt individual application subdirectories (e.g. `~/.config/nvim/`) instead."@,
        InferenceErrorView::HomeRootItself => "$HOME itself is too broad to adopt."@,
        InferenceErrorView::SandboxedContainer => "this is a sandboxed app's container; its config is not intended to be edited externally. dodot does not support adopting from ~/Library/Containers/."@,
        InferenceErrorView::LibraryRootItself => "$HOME/Library itself is too broad to adopt — pick a subdirectory like ~/Library/Preferences/ or ~/Library/LaunchAgents/."@,
    }
}

impl InferenceError {
    /// The explanation shown to the user.
    pub fn message(&self) -> (r: String)
        ensures
            r@ == spec_inference_message(self@),
    {
        match self {
            InferenceError::UnrecognizedRoot { hint_roots } => {
                let joined = join_strings(hint_roots.as_slice(), ", ");
                let mut v = chars_of(
                    "source is outside any recognized adopt root (expected under one of: ",
                );
                push_chars(&mut v, joined.as_slice());
                push_str(
                    &mut v,
                    "). Move the file under one of these locations first, or copy it into a pack manually and use `[symlink.targets]` for an absolute deploy path.",
                );
                proof {
                    assert(Seq::new(hint_roots@.len(), |i: int| hint_roots@[i]@) =~= strings_view(
                        hint_roots@,
                    ));
                }
                string_of(v.as_slice())
            },
            InferenceError::NonDottedHome { stripped } => {
                let mut v = chars_of(
                    "a non-dotted entry in $HOME has no automatic round-trip path under the post-#48 XDG default. Either rename to a dotted name (e.g. .",
                );
                push_str(&mut v, stripped.as_str());
                push_str(
                    &mut v,
                    ") before adopting, or copy into the pack manually and add a [symlink.targets] override pinning the deploy path.",
                );
                string_of(v.as_slice())
            },
            InferenceError::LooseXdgFile => String::from_str(
                "loose file directly under $XDG_CONFIG_HOME has no pack structure to infer. Move it into a subdirectory (recommended) or pass --into <pack> and place the file manually as `_xdg/<name>` in that pack.",
            ),
            InferenceError::XdgRootItself => String::from_str(
                "$XDG_CONFIG_HOME itself is too broad to adopt — adopt individual application subdirectories (e.g. `~/.config/nvim/`) instead.",
            ),
            InferenceError::HomeRootItself => String::from_str(
                "$HOME itself is too broad to adopt.",
            ),
            InferenceError::SandboxedContainer => String::from_str(
                "this is a sandboxed app's container; its config is not intended to be edited externally. dodot does not support adopting from ~/Library/Containers/.",
            ),
            InferenceError::LibraryRootItself => String::from_str(
                "$HOME/Library itself is too broad to adopt — pick a subdirectory like ~/Library/Preferences/ or ~/Library/LaunchAgents/.",
            ),
        }
    }
}

/// A source under `~/Library` is adopted as one unit unless it is a
/// directory directly inside `~/Library` (such as `~/Library/Fonts`),
/// whose children are adopted one by one: a deeper directory
/// (`~/Library/Preferences/MyApp`) or any file never expands. Such a
/// source has no natural pack, and its in-pack path is the same whichever
/// pack it lands in.
pub proof fn law_library_expands_only_top_directories(
    src: Seq<char>,
    is_dir: bool,
    home: Seq<char>,
    xdg: Seq<char>,
    app: Seq<char>,
    force_home: Seq<Seq<char>>,
    on_macos: bool,
)
    ensures
        match spec_infer(src, is_dir, home, xdg, app, force_home, on_macos) {
            Ok(t) => t.source_root == SourceRoot::Library ==> {
                &&& t.expand_children == (is_dir && components(src).len() == components(home).len()
                    + 2)
                &&& t.natural_pack is None
                &&& t.in_pack_natural == t.in_pack_override
                &&& components(t.in_pack_natural) == seq!["_lib"@] + components(src).skip(
                    components(home).len() + 1int,
                )
            },
            Err(_) => true,
        },
{
    let s = components(src);
    let n: int = components(home).len() + 1int;
    if s.len() >= n {
        let rel = s.skip(n);
        let cs = seq!["_lib"@] + rel;
        crate::paths::lemma_components_names(src);
        reveal_strlit("_lib");
        assert forall|i: int| 0 <= i < cs.len() implies kept(#[trigger] cs[i]) && slash_free(
            cs[i],
        ) by {
            if i > 0 {
                assert(cs[i] == s[i - 1 + n]);
            } else {
                assert(cs[0] == "_lib"@);
            }
        }
        crate::paths::lemma_components_join(cs);
    }
}

} // verus!
