//! Slash-separated paths, modelled by their components.
//!
//! A path is read the way `std::path::Path::components` reads a Unix
//! path: split on `/`, with empty segments (repeated or trailing
//! separators) and `.` segments dropped. Two absolute paths are related
//! by comparing component sequences, which is how prefix tests and
//! prefix stripping behave.

use vstd::prelude::*;
use crate::text::{chars_eq, chars_of, copy_chars, push_chars, string_of};


verus! {

/// Split on every `/`, keeping empty segments.
pub open spec fn split_rec(s: Seq<char>) -> Seq<Seq<char>>
    decreases s.len(),
{
    if s.len() == 0 {
        seq![Seq::<char>::empty()]
    } else {
        let prev = split_rec(s.drop_last());
        if s.last() == '/' {
            prev.push(Seq::<char>::empty())
        } else {
            prev.update(prev.len() - 1, prev.last().push(s.last()))
        }
    }
}

/// A segment that names something: not empty and not `.`.
pub open spec fn kept(seg: Seq<char>) -> bool {
    seg.len() > 0 && seg != seq!['.']
}

pub open spec fn kept_fn() -> spec_fn(Seq<char>) -> bool {
    |seg: Seq<char>| kept(seg)
}

/// The components of a path.
pub open spec fn components(s: Seq<char>) -> Seq<Seq<char>> {
    split_rec(s).filter(kept_fn())
}

/// The path starts at the filesystem root.
pub open spec fn is_absolute(s: Seq<char>) -> bool {
    s.len() > 0 && s[0] == '/'
}

/// Components joined with `/` (no leading or trailing separator).
pub open spec fn join(cs: Seq<Seq<char>>) -> Seq<char>
    decreases cs.len(),
{
    if cs.len() == 0 {
        Seq::<char>::empty()
    } else if cs.len() == 1 {
        cs[0]
    } else {
        join(cs.drop_last()) + seq!['/'] + cs.last()
    }
}

/// `a` is a prefix of `b`, element by element.
pub open spec fn is_prefix<T>(a: Seq<T>, b: Seq<T>) -> bool {
    a.len() <= b.len() && b.subrange(0, a.len() as int) == a
}

/// `Path::starts_with`: same rootedness, and `base`'s components lead `p`'s.
pub open spec fn path_starts_with(p: Seq<char>, base: Seq<char>) -> bool {
    is_absolute(p) == is_absolute(base) && is_prefix(components(base), components(p))
}

/// The same path, component for component.
pub open spec fn same_path(a: Seq<char>, b: Seq<char>) -> bool {
    is_absolute(a) == is_absolute(b) && components(a) == components(b)
}

/// What remains of `p` once `base` is stripped off (meaningful when
/// `path_starts_with(p, base)`), as components.
pub open spec fn strip_components(p: Seq<char>, base: Seq<char>) -> Seq<Seq<char>> {
    components(p).subrange(components(base).len() as int, components(p).len() as int)
}

/// `Path::file_name`: the last component, unless there is none or it is
/// `..`.
pub open spec fn file_name(s: Seq<char>) -> Option<Seq<char>> {
    if components(s).len() == 0 || components(s).last() == ".."@ {
        None
    } else {
        Some(components(s).last())
    }
}

proof fn lemma_split_rec_nonempty(s: Seq<char>)
    ensures
        split_rec(s).len() >= 1,
    decreases s.len(),
{
    if s.len() > 0 {
        lemma_split_rec_nonempty(s.drop_last());
    }
}

/// The components of `s`.
pub fn components_of(s: &[char]) -> (r: Vec<Vec<char>>)
    ensures
        r.deep_view() == components(s@),
{
    let mut done: Vec<Vec<char>> = Vec::new();
    let mut cur: Vec<char> = Vec::new();
    let mut i: usize = 0;
    proof {
        assert(s@.take(0) =~= Seq::<char>::empty());
        assert(done.deep_view() =~= split_rec(s@.take(0)).drop_last().filter(kept_fn()));
    }
    while i < s.len()
        invariant
            i <= s.len(),
            split_rec(s@.take(i as int)).len() >= 1,
            done.deep_view() == split_rec(s@.take(i as int)).drop_last().filter(kept_fn()),
            cur@ == split_rec(s@.take(i as int)).last(),
        decreases s.len() - i,
    {
        let ghost full = split_rec(s@.take(i as int));
        let ghost old_done = done.deep_view();
        let c = s[i];
        proof {
            assert(s@.take(i + 1).drop_last() =~= s@.take(i as int));
            assert(s@.take(i + 1).last() == c);
            lemma_split_rec_nonempty(s@.take(i as int));
        }
        if c == '/' {
            proof {
                broadcast use Seq::lemma_filter_push;
                assert(full.drop_last().push(full.last()) =~= full);
            }
            if cur.len() > 0 && !(cur.len() == 1 && cur[0] == '.') {
                let seg = cur;
                proof {
                    assert(seg.deep_view() =~= seg@);
                }
                done.push(seg);
                proof {
                    assert(seg@ != seq!['.'] ) by {
                        if seg@ == seq!['.'] {
                            assert(seg@.len() == 1);
                        }
                    }
                    assert(done.deep_view() =~= old_done.push(seg@));
                }
            } else {
                proof {
                    if cur@.len() > 0 {
                        assert(cur@ =~= seq!['.']);
                    }
                }
            }
            cur = Vec::new();
            proof {
                assert(split_rec(s@.take(i + 1)).drop_last() =~= full);
            }
        } else {
            cur.push(c);
            proof {
                assert(split_rec(s@.take(i + 1)).drop_last() =~= full.drop_last());
            }
        }
        i = i + 1;
    }
    proof {
        broadcast use Seq::lemma_filter_push;
        assert(s@.take(s@.len() as int) =~= s@);
        let full = split_rec(s@);
        assert(full.drop_last().push(full.last()) =~= full);
    }
    if cur.len() > 0 && !(cur.len() == 1 && cur[0] == '.') {
        let ghost old_done = done.deep_view();
        let seg = cur;
        proof {
            assert(seg.deep_view() =~= seg@);
        }
        done.push(seg);
        proof {
            assert(seg@ != seq!['.'] ) by {
                if seg@ == seq!['.'] {
                    assert(seg@.len() == 1);
                }
            }
            assert(done.deep_view() =~= old_done.push(seg@));
        }
    } else {
        proof {
            if cur@.len() > 0 {
                assert(cur@ =~= seq!['.']);
            }
        }
    }
    done
}

/// Whether a path is absolute.
pub fn is_absolute_exec(s: &[char]) -> (r: bool)
    ensures
        r == is_absolute(s@),
{
    s.len() > 0 && s[0] == '/'
}

/// Equality of two component lists.
pub fn comps_eq(a: &Vec<Vec<char>>, b: &Vec<Vec<char>>) -> (r: bool)
    ensures
        r == (a.deep_view() == b.deep_view()),
{
    if a.len() != b.len() {
        proof {
            assert(a.deep_view().len() != b.deep_view().len());
        }
        return false;
    }
    let mut i: usize = 0;
    while i < a.len()
        invariant
            a.len() == b.len(),
            i <= a.len(),
            forall|j: int| 0 <= j < i ==> a.deep_view()[j] == b.deep_view()[j],
        decreases a.len() - i,
    {
        proof {
            assert(a.deep_view()[i as int] =~= a[i as int]@);
            assert(b.deep_view()[i as int] =~= b[i as int]@);
        }
        if !chars_eq(a[i].as_slice(), b[i].as_slice()) {
            return false;
        }
        i = i + 1;
    }
    assert(a.deep_view() =~= b.deep_view());
    true
}

/// Whether `a` is a prefix of `b`, component by component.
pub fn comps_prefix(a: &Vec<Vec<char>>, b: &Vec<Vec<char>>) -> (r: bool)
    ensures
        r == is_prefix(a.deep_view(), b.deep_view()),
{
    if a.len() > b.len() {
        return false;
    }
    let mut i: usize = 0;
    while i < a.len()
        invariant
            a.len() <= b.len(),
            i <= a.len(),
            forall|j: int| 0 <= j < i ==> a.deep_view()[j] == b.deep_view()[j],
        decreases a.len() - i,
    {
        proof {
            assert(a.deep_view()[i as int] =~= a[i as int]@);
            assert(b.deep_view()[i as int] =~= b[i as int]@);
        }
        if !chars_eq(a[i].as_slice(), b[i].as_slice()) {
            proof {
                assert(b.deep_view().subrange(0, a.len() as int)[i as int] == b.deep_view()[i as int]);
            }
            return false;
        }
        i = i + 1;
    }
    assert(b.deep_view().subrange(0, a.len() as int) =~= a.deep_view());
    true
}

/// Components joined with `/`.
pub fn join_exec(cs: &Vec<Vec<char>>) -> (r: Vec<char>)
    ensures
        r@ == join(cs.deep_view()),
{
    let mut out: Vec<char> = Vec::new();
    if cs.len() == 0 {
        proof {
            assert(out@ =~= join(cs.deep_view()));
        }
        return out;
    }
    out = copy_chars(cs[0].as_slice());
    let mut i: usize = 1;
    proof {
        assert(cs.deep_view().take(1) =~= seq![cs.deep_view()[0]]);
        assert(cs.deep_view()[0] =~= cs[0]@);
    }
    while i < cs.len()
        invariant
            1 <= i <= cs.len(),
            out@ == join(cs.deep_view().take(i as int)),
        decreases cs.len() - i,
    {
        out.push('/');
        push_chars(&mut out, cs[i].as_slice());
        proof {
            let t = cs.deep_view().take(i + 1);
            assert(t.drop_last() =~= cs.deep_view().take(i as int));
            assert(cs.deep_view()[i as int] =~= cs[i as int]@);
            assert(out@ =~= join(cs.deep_view().take(i as int)) + seq!['/'] + cs[i as int]@);
        }
        i = i + 1;
    }
    proof {
        assert(cs.deep_view().take(cs.len() as int) =~= cs.deep_view());
    }
    out
}

/// The components from index `n` on.
pub fn comps_skip(cs: &Vec<Vec<char>>, n: usize) -> (r: Vec<Vec<char>>)
    requires
        n <= cs.len(),
    ensures
        r.deep_view() == cs.deep_view().skip(n as int),
{
    let mut r: Vec<Vec<char>> = Vec::new();
    let mut i: usize = n;
    while i < cs.len()
        invariant
            n <= i <= cs.len(),
            r.deep_view() == cs.deep_view().subrange(n as int, i as int),
        decreases cs.len() - i,
    {
        let ghost old_r = r.deep_view();
        let c = copy_chars(cs[i].as_slice());
        proof {
            assert(c.deep_view() =~= c@);
        }
        r.push(c);
        proof {
            assert(cs.deep_view()[i as int] =~= cs[i as int]@);
            assert(r.deep_view() =~= old_r.push(c@));
            assert(r.deep_view() =~= cs.deep_view().subrange(n as int, i + 1));
        }
        i = i + 1;
    }
    proof {
        assert(cs.deep_view().subrange(n as int, cs.len() as int) =~= cs.deep_view().skip(n as int));
    }
    r
}

/// `head` followed by the components of `tail`.
pub fn comps_prepend(head: &[char], tail: &Vec<Vec<char>>) -> (r: Vec<Vec<char>>)
    ensures
        r.deep_view() == seq![head@] + tail.deep_view(),
{
    let mut r: Vec<Vec<char>> = Vec::new();
    let h = copy_chars(head);
    proof {
        assert(h.deep_view() =~= h@);
    }
    r.push(h);
    let rest = comps_skip(tail, 0);
    let mut i: usize = 0;
    proof {
        assert(r.deep_view() =~= seq![head@]);
        assert(tail.deep_view().skip(0) =~= tail.deep_view());
    }
    while i < rest.len()
        invariant
            i <= rest.len(),
            rest.deep_view() == tail.deep_view(),
            r.deep_view() == seq![head@] + rest.deep_view().take(i as int),
        decreases rest.len() - i,
    {
        let ghost old_r = r.deep_view();
        let c = copy_chars(rest[i].as_slice());
        proof {
            assert(c.deep_view() =~= c@);
            assert(rest.deep_view()[i as int] =~= rest[i as int]@);
        }
        r.push(c);
        proof {
            assert(r.deep_view() =~= old_r.push(c@));
            assert(rest.deep_view().take(i + 1) =~= rest.deep_view().take(i as int).push(c@));
        }
        i = i + 1;
    }
    proof {
        assert(rest.deep_view().take(rest.len() as int) =~= rest.deep_view());
    }
    r
}

/// `Path::join` as text: a relative `rel` is appended after one `/`
/// (none when `base` is empty or already ends in `/`); an absolute
/// `rel` replaces `base`.
pub open spec fn path_join(base: Seq<char>, rel: Seq<char>) -> Seq<char> {
    if rel.len() > 0 && rel[0] == '/' {
        rel
    } else if base.len() == 0 || base.last() == '/' {
        base + rel
    } else {
        base + seq!['/'] + rel
    }
}

/// `Path::join` as text.
pub fn path_join_exec(base: &str, rel: &str) -> (r: String)
    ensures
        r@ == path_join(base@, rel@),
{
    let b = chars_of(base);
    let rl = chars_of(rel);
    if rl.len() > 0 && rl[0] == '/' {
        return string_of(rl.as_slice());
    }
    let mut v = copy_chars(b.as_slice());
    if !(b.len() == 0 || b[b.len() - 1] == '/') {
        v.push('/');
    }
    push_chars(&mut v, rl.as_slice());
    string_of(v.as_slice())
}

/// A path shown relative to `home` as `~/...` when it lies below it,
/// and as itself otherwise.
pub open spec fn spec_render_home_relative(p: Seq<char>, home: Seq<char>) -> Seq<char> {
    if path_starts_with(p, home) {
        "~/"@ + join(strip_components(p, home))
    } else {
        p
    }
}

/// A path shown relative to `home` as `~/...` when it lies below it.
pub fn render_home_relative(p: &str, home: &str) -> (r: String)
    ensures
        r@ == spec_render_home_relative(p@, home@),
{
    let pv = chars_of(p);
    let hv = chars_of(home);
    let pc = components_of(pv.as_slice());
    let hc = components_of(hv.as_slice());
    if is_absolute_exec(pv.as_slice()) == is_absolute_exec(hv.as_slice()) && comps_prefix(&hc, &pc) {
        let rest = comps_skip(&pc, hc.len());
        let joined = join_exec(&rest);
        let mut v = chars_of("~/");
        push_chars(&mut v, joined.as_slice());
        proof {
            assert(pc.deep_view().skip(hc.len() as int) =~= strip_components(p@, home@));
        }
        string_of(v.as_slice())
    } else {
        String::from_str(p)
    }
}

/// `Path::file_name` of a path given as text.
pub fn file_name_of(s: &str) -> (r: Option<String>)
    ensures
        match r {
            Some(n) => file_name(s@) == Some(n@),
            None => file_name(s@) is None,
        },
{
    let v = chars_of(s);
    let cs = components_of(v.as_slice());
    if cs.len() == 0 {
        return None;
    }
    let last = &cs[cs.len() - 1];
    let dots = chars_of("..");
    proof {
        assert(cs.deep_view().last() =~= last@);
    }
    if chars_eq(last.as_slice(), dots.as_slice()) {
        return None;
    }
    Some(string_of(last.as_slice()))
}

/// Components with each `..` cancelling the component before it (or
/// nothing, at the start), the way `PathBuf::pop` does.
pub open spec fn normalized_components(cs: Seq<Seq<char>>) -> Seq<Seq<char>>
    decreases cs.len(),
{
    if cs.len() == 0 {
        Seq::<Seq<char>>::empty()
    } else {
        let prev = normalized_components(cs.drop_last());
        if cs.last() == ".."@ {
            if prev.len() > 0 {
                prev.drop_last()
            } else {
                prev
            }
        } else {
            prev.push(cs.last())
        }
    }
}

/// A path with `.` dropped and `..` collapsed lexically, without
/// touching the filesystem.
pub open spec fn spec_normalize(p: Seq<char>) -> Seq<char> {
    (if is_absolute(p) {
        seq!['/']
    } else {
        Seq::<char>::empty()
    }) + join(normalized_components(components(p)))
}

/// Collapse `.` and `..` in a path lexically.
pub fn normalize_path(p: &str) -> (r: String)
    ensures
        r@ == spec_normalize(p@),
{
    let v = chars_of(p);
    let cs = components_of(v.as_slice());
    let dots = chars_of("..");
    let mut stack: Vec<Vec<char>> = Vec::new();
    let mut i: usize = 0;
    proof {
        assert(cs.deep_view().take(0) =~= Seq::<Seq<char>>::empty());
        assert(stack.deep_view() =~= Seq::<Seq<char>>::empty());
    }
    while i < cs.len()
        invariant
            i <= cs.len(),
            dots@ == ".."@,
            stack.deep_view() == normalized_components(cs.deep_view().take(i as int)),
        decreases cs.len() - i,
    {
        let ghost before = stack.deep_view();
        proof {
            assert(cs.deep_view().take(i + 1).drop_last() =~= cs.deep_view().take(i as int));
            assert(cs.deep_view().take(i + 1).last() =~= cs[i as int]@);
        }
        if chars_eq(cs[i].as_slice(), dots.as_slice()) {
            if stack.len() > 0 {
                stack.pop();
                proof {
                    assert(stack.deep_view() =~= before.drop_last());
                }
            }
        } else {
            let c = copy_chars(cs[i].as_slice());
            stack.push(c);
            proof {
                assert(stack.deep_view() =~= before.push(c@));
            }
        }
        i = i + 1;
    }
    proof {
        assert(cs.deep_view().take(cs.len() as int) =~= cs.deep_view());
    }
    let joined = join_exec(&stack);
    let mut out: Vec<char> = Vec::new();
    if is_absolute_exec(v.as_slice()) {
        out.push('/');
    }
    push_chars(&mut out, joined.as_slice());
    proof {
        assert(out@ =~= spec_normalize(p@));
    }
    string_of(out.as_slice())
}

/// A path made absolute against the working directory `cwd` (when it is
/// relative) and then normalized lexically.
pub open spec fn spec_absolutize(raw: Seq<char>, cwd: Seq<char>) -> Seq<char> {
    spec_normalize(if is_absolute(raw) {
        raw
    } else {
        path_join(cwd, raw)
    })
}

/// Resolve a possibly-relative path against `cwd` and normalize it.
pub fn absolutize(raw: &str, cwd: &str) -> (r: String)
    ensures
        r@ == spec_absolutize(raw@, cwd@),
{
    let v = chars_of(raw);
    if is_absolute_exec(v.as_slice()) {
        normalize_path(raw)
    } else {
        let joined = path_join_exec(cwd, raw);
        normalize_path(joined.as_str())
    }
}

/// Resolving a source argument gives an absolute path whenever the
/// working directory (or the argument) is absolute; an absolute argument
/// does not depend on the working directory; and a relative one resolves
/// as the working directory joined with it would (so `nvim/init.lua` in
/// `/home/u/.config` is `/home/u/.config/nvim/init.lua`).
pub proof fn law_absolutize_resolves_against_cwd(raw: Seq<char>, cwd: Seq<char>, other: Seq<char>)
    ensures
        is_absolute(cwd) || is_absolute(raw) ==> is_absolute(spec_absolutize(raw, cwd)),
        is_absolute(raw) ==> spec_absolutize(raw, cwd) == spec_absolutize(raw, other),
        !is_absolute(raw) && is_absolute(cwd) ==> is_absolute(path_join(cwd, raw))
            && spec_absolutize(raw, cwd) == spec_absolutize(path_join(cwd, raw), other),
{
    if !is_absolute(raw) && is_absolute(cwd) {
        let j = path_join(cwd, raw);
        if cwd.last() == '/' {
            assert(j == cwd + raw);
        } else {
            assert(j == cwd + seq!['/'] + raw);
        }
        assert(j[0] == cwd[0]);
    }
}

/// No `/` in a segment.
pub open spec fn slash_free(c: Seq<char>) -> bool {
    forall|i: int| 0 <= i < c.len() ==> c[i] != '/'
}

/// Every entry is a component name: kept and without `/`.
pub open spec fn all_names(cs: Seq<Seq<char>>) -> bool {
    forall|i: int| 0 <= i < cs.len() ==> kept(#[trigger] cs[i]) && slash_free(cs[i])
}

/// No entry is `..`.
pub open spec fn no_parent(cs: Seq<Seq<char>>) -> bool {
    forall|i: int| 0 <= i < cs.len() ==> #[trigger] cs[i] != ".."@
}

proof fn lemma_split_slash_free(s: Seq<char>)
    ensures
        forall|i: int| 0 <= i < split_rec(s).len() ==> slash_free(#[trigger] split_rec(s)[i]),
    decreases s.len(),
{
    if s.len() > 0 {
        let prev = split_rec(s.drop_last());
        lemma_split_slash_free(s.drop_last());
        lemma_split_rec_nonempty(s.drop_last());
        if s.last() != '/' {
            let l = prev.last().push(s.last());
            assert(slash_free(prev[prev.len() - 1]));
            assert(slash_free(l)) by {
                assert forall|k: int| 0 <= k < l.len() implies l[k] != '/' by {
                    if k < l.len() - 1 {
                        assert(l[k] == prev[prev.len() - 1][k]);
                    }
                }
            }
            let u = prev.update(prev.len() - 1, l);
            assert forall|i: int| 0 <= i < u.len() implies slash_free(#[trigger] u[i]) by {
                if i < u.len() - 1 {
                    assert(u[i] == prev[i]);
                }
            }
        } else {
            let u = prev.push(Seq::<char>::empty());
            assert forall|i: int| 0 <= i < u.len() implies slash_free(#[trigger] u[i]) by {
                if i < u.len() - 1 {
                    assert(u[i] == prev[i]);
                }
            }
        }
    }
}

proof fn lemma_filter_names(x: Seq<Seq<char>>)
    requires
        forall|i: int| 0 <= i < x.len() ==> slash_free(#[trigger] x[i]),
    ensures
        all_names(x.filter(kept_fn())),
    decreases x.len(),
{
    broadcast use Seq::lemma_filter_push;
    if x.len() > 0 {
        let d = x.drop_last();
        assert forall|i: int| 0 <= i < d.len() implies slash_free(#[trigger] d[i]) by {
            assert(d[i] == x[i]);
        }
        lemma_filter_names(d);
        assert(d.push(x.last()) =~= x);
        assert(slash_free(x[x.len() - 1]));
        let f = d.filter(kept_fn());
        if kept(x.last()) {
            let g = f.push(x.last());
            assert forall|i: int| 0 <= i < g.len() implies kept(#[trigger] g[i]) && slash_free(g[i]) by {
                if i < f.len() {
                    assert(g[i] == f[i]);
                }
            }
        }
    } else {
        reveal(Seq::filter);
    }
}

/// Every component is a name.
pub(crate) proof fn lemma_components_names(s: Seq<char>)
    ensures
        all_names(components(s)),
{
    lemma_split_slash_free(s);
    lemma_filter_names(split_rec(s));
}

/// Splitting at a separator splits the segments.
proof fn lemma_split_concat(a: Seq<char>, b: Seq<char>)
    ensures
        split_rec(a + seq!['/'] + b) == split_rec(a) + split_rec(b),
    decreases b.len(),
{
    let c = a + seq!['/'] + b;
    if b.len() == 0 {
        assert(c.drop_last() =~= a);
        assert(split_rec(c) =~= split_rec(a) + split_rec(b));
    } else {
        assert(c.drop_last() =~= a + seq!['/'] + b.drop_last());
        lemma_split_concat(a, b.drop_last());
        lemma_split_rec_nonempty(b.drop_last());
        let x = split_rec(a);
        let y = split_rec(b.drop_last());
        assert(c.last() == b.last());
        if b.last() == '/' {
            assert(split_rec(c) =~= x + y.push(Seq::<char>::empty()));
        } else {
            assert((x + y).last() == y.last());
            assert(split_rec(c) =~= x + y.update(y.len() - 1, y.last().push(b.last())));
        }
    }
}

/// The components of two paths joined at a separator.
proof fn lemma_components_concat(a: Seq<char>, b: Seq<char>)
    ensures
        components(a + seq!['/'] + b) == components(a) + components(b),
{
    lemma_split_concat(a, b);
    Seq::filter_distributes_over_add(split_rec(a), split_rec(b), kept_fn());
}

proof fn lemma_split_single(x: Seq<char>)
    requires
        slash_free(x),
    ensures
        split_rec(x) == seq![x],
    decreases x.len(),
{
    if x.len() > 0 {
        assert(slash_free(x.drop_last()));
        lemma_split_single(x.drop_last());
        assert(x[x.len() - 1] != '/');
        assert(x.drop_last().push(x.last()) =~= x);
        assert(split_rec(x) =~= seq![x]);
    } else {
        assert(x =~= Seq::<char>::empty());
    }
}

/// Names joined with `/` read back as those names.
pub(crate) proof fn lemma_components_join(cs: Seq<Seq<char>>)
    requires
        all_names(cs),
    ensures
        components(join(cs)) == cs,
    decreases cs.len(),
{
    broadcast use Seq::lemma_filter_push;
    if cs.len() == 0 {
        reveal(Seq::filter);
        assert(split_rec(Seq::<char>::empty()) == seq![Seq::<char>::empty()]);
        assert(seq![Seq::<char>::empty()] =~= Seq::<Seq<char>>::empty().push(Seq::<char>::empty()));
        assert(Seq::<Seq<char>>::empty().filter(kept_fn()) =~= Seq::<Seq<char>>::empty());
        assert(components(join(cs)) =~= cs);
    } else {
        let last = cs.last();
        assert(kept(cs[cs.len() - 1]) && slash_free(cs[cs.len() - 1]));
        lemma_split_single(last);
        reveal(Seq::filter);
        assert(seq![last] =~= Seq::<Seq<char>>::empty().push(last));
        assert(Seq::<Seq<char>>::empty().filter(kept_fn()) =~= Seq::<Seq<char>>::empty());
        assert(components(last) =~= seq![last]);
        if cs.len() == 1 {
            assert(cs =~= seq![last]);
        } else {
            let d = cs.drop_last();
            assert forall|i: int| 0 <= i < d.len() implies kept(#[trigger] d[i]) && slash_free(d[i]) by {
                assert(d[i] == cs[i]);
            }
            lemma_components_join(d);
            lemma_components_concat(join(d), last);
            assert(cs =~= d + seq![last]);
        }
    }
}

proof fn lemma_normalized_names(cs: Seq<Seq<char>>)
    requires
        all_names(cs),
    ensures
        all_names(normalized_components(cs)),
    decreases cs.len(),
{
    if cs.len() > 0 {
        let d = cs.drop_last();
        assert forall|i: int| 0 <= i < d.len() implies kept(#[trigger] d[i]) && slash_free(d[i]) by {
            assert(d[i] == cs[i]);
        }
        lemma_normalized_names(d);
        let prev = normalized_components(d);
        assert(kept(cs[cs.len() - 1]) && slash_free(cs[cs.len() - 1]));
        if cs.last() == ".."@ {
            if prev.len() > 0 {
                let q = prev.drop_last();
                assert forall|i: int| 0 <= i < q.len() implies kept(#[trigger] q[i]) && slash_free(q[i]) by {
                    assert(q[i] == prev[i]);
                }
            }
        } else {
            let q = prev.push(cs.last());
            assert forall|i: int| 0 <= i < q.len() implies kept(#[trigger] q[i]) && slash_free(q[i]) by {
                if i < prev.len() {
                    assert(q[i] == prev[i]);
                }
            }
        }
    }
}

/// The components of a normalized path are its normalized components.
proof fn lemma_components_normalize(p: Seq<char>)
    ensures
        components(spec_normalize(p)) == normalized_components(components(p)),
{
    let n = normalized_components(components(p));
    lemma_components_names(p);
    lemma_normalized_names(components(p));
    lemma_components_join(n);
    if is_absolute(p) {
        let e = Seq::<char>::empty();
        assert(spec_normalize(p) =~= e + seq!['/'] + join(n));
        lemma_components_concat(e, join(n));
        lemma_components_join(Seq::<Seq<char>>::empty());
        assert(join(Seq::<Seq<char>>::empty()) =~= e);
        assert(components(e) + n =~= n);
    } else {
        assert(spec_normalize(p) =~= join(n));
    }
}

/// Names without `..` survive normalization as they are.
proof fn lemma_normalized_append(x: Seq<Seq<char>>, y: Seq<Seq<char>>)
    requires
        no_parent(y),
    ensures
        normalized_components(x + y) == normalized_components(x) + y,
    decreases y.len(),
{
    if y.len() == 0 {
        assert(x + y =~= x);
        assert(normalized_components(x) + y =~= normalized_components(x));
    } else {
        let d = y.drop_last();
        assert forall|i: int| 0 <= i < d.len() implies #[trigger] d[i] != ".."@ by {
            assert(d[i] == y[i]);
        }
        lemma_normalized_append(x, d);
        assert((x + y).drop_last() =~= x + d);
        assert((x + y).last() == y.last());
        assert(y[y.len() - 1] != ".."@);
        assert(normalized_components(x) + y =~= (normalized_components(x) + d).push(y.last()));
    }
}

/// The components of a relative path joined onto a non-empty base.
proof fn lemma_components_path_join(base: Seq<char>, rel: Seq<char>)
    requires
        base.len() > 0,
        !is_absolute(rel),
    ensures
        components(path_join(base, rel)) == components(base) + components(rel),
{
    if base.last() == '/' {
        let b = base.drop_last();
        assert(base =~= b + seq!['/'] + Seq::<char>::empty());
        assert(path_join(base, rel) =~= b + seq!['/'] + rel);
        lemma_components_concat(b, rel);
        lemma_components_concat(b, Seq::<char>::empty());
        lemma_components_join(Seq::<Seq<char>>::empty());
        assert(join(Seq::<Seq<char>>::empty()) =~= Seq::<char>::empty());
        assert(components(b) + components(Seq::<char>::empty()) =~= components(b));
    } else {
        assert(path_join(base, rel) =~= base + seq!['/'] + rel);
        lemma_components_concat(base, rel);
    }
}

/// A resolved path keeps what it was given: an absolute argument without
/// `..` keeps its components, and a relative one without `..`, resolved
/// in a working directory without `..`, is the working directory's
/// components followed by its own.
pub proof fn law_absolutize_keeps_components(raw: Seq<char>, cwd: Seq<char>)
    ensures
        is_absolute(raw) && no_parent(components(raw)) ==> components(spec_absolutize(raw, cwd))
            == components(raw),
        !is_absolute(raw) && is_absolute(cwd) && no_parent(components(cwd)) && no_parent(
            components(raw),
        ) ==> components(spec_absolutize(raw, cwd)) == components(cwd) + components(raw),
{
    let e = Seq::<Seq<char>>::empty();
    if is_absolute(raw) {
        lemma_components_normalize(raw);
        if no_parent(components(raw)) {
            lemma_normalized_append(e, components(raw));
            assert(e + components(raw) =~= components(raw));
            assert(normalized_components(e) =~= e);
        }
    } else if is_absolute(cwd) {
        let j = path_join(cwd, raw);
        lemma_components_normalize(j);
        lemma_components_path_join(cwd, raw);
        if no_parent(components(cwd)) && no_parent(components(raw)) {
            let all = components(cwd) + components(raw);
            assert forall|i: int| 0 <= i < all.len() implies #[trigger] all[i] != ".."@ by {
                if i < components(cwd).len() {
                    assert(all[i] == components(cwd)[i]);
                } else {
                    assert(all[i] == components(raw)[i - components(cwd).len()]);
                }
            }
            lemma_normalized_append(e, all);
            assert(e + all =~= all);
            assert(normalized_components(e) =~= e);
        }
    }
}

} // verus!
