//! Name rules a pack scan applies: dodot's reserved filenames, `[pack]
//! ignore` glob patterns, the hidden-name rule, the pack-directory name
//! grammar, and ordering prefixes.

use vstd::prelude::*;
use crate::infer::strings_view;
use crate::text::{chars_eq, chars_of, copy_chars};

verus! {

/// Glob matching: `*` matches any run of characters (including none),
/// `?` matches exactly one, every other character matches itself.
pub open spec fn glob(p: Seq<char>, s: Seq<char>) -> bool
    decreases p.len(), s.len(),
{
    if p.len() == 0 {
        s.len() == 0
    } else if p[0] == '*' {
        glob(p.skip(1), s) || (s.len() > 0 && glob(p, s.skip(1)))
    } else {
        s.len() > 0 && (p[0] == '?' || p[0] == s[0]) && glob(p.skip(1), s.skip(1))
    }
}

fn glob_from(p: &[char], i: usize, s: &[char], j: usize) -> (r: bool)
    requires
        i <= p.len(),
        j <= s.len(),
    ensures
        r == glob(p@.skip(i as int), s@.skip(j as int)),
    decreases p.len() - i, s.len() - j,
{
    let ghost ps = p@.skip(i as int);
    let ghost ss = s@.skip(j as int);
    proof {
        if i < p.len() {
            assert(ps.skip(1) =~= p@.skip(i + 1));
            assert(ps[0] == p@[i as int]);
        }
        if j < s.len() {
            assert(ss.skip(1) =~= s@.skip(j + 1));
            assert(ss[0] == s@[j as int]);
        }
    }
    if i == p.len() {
        return j == s.len();
    }
    if p[i] == '*' {
        if glob_from(p, i + 1, s, j) {
            return true;
        }
        if j < s.len() {
            return glob_from(p, i, s, j + 1);
        }
        return false;
    }
    if j < s.len() && (p[i] == '?' || p[i] == s[j]) {
        glob_from(p, i + 1, s, j + 1)
    } else {
        false
    }
}

/// Whether the glob `pattern` matches `name`.
pub fn glob_matches(pattern: &str, name: &str) -> (r: bool)
    ensures
        r == glob(pattern@, name@),
{
    let p = chars_of(pattern);
    let s = chars_of(name);
    proof {
        assert(p@.skip(0) =~= p@);
        assert(s@.skip(0) =~= s@);
    }
    glob_from(p.as_slice(), 0, s.as_slice(), 0)
}

/// The first pattern in `patterns` that matches `name`.
pub open spec fn first_match(name: Seq<char>, patterns: Seq<Seq<char>>) -> Option<Seq<char>>
    decreases patterns.len(),
{
    if patterns.len() == 0 {
        None
    } else if glob(patterns[0], name) {
        Some(patterns[0])
    } else {
        first_match(name, patterns.skip(1))
    }
}

/// The `[pack] ignore` pattern that matches `name`, if any (the first).
pub fn matched_ignore_pattern(name: &str, patterns: &[String]) -> (r: Option<String>)
    ensures
        opt_seq(r) == first_match(name@, strings_view(patterns@)),
{
    let mut i: usize = 0;
    proof {
        assert(strings_view(patterns@).skip(0) =~= strings_view(patterns@));
    }
    while i < patterns.len()
        invariant
            i <= patterns.len(),
            first_match(name@, strings_view(patterns@)) == first_match(
                name@,
                strings_view(patterns@).skip(i as int),
            ),
        decreases patterns.len() - i,
    {
        let ghost rest = strings_view(patterns@).skip(i as int);
        proof {
            assert(rest[0] == patterns@[i as int]@);
            assert(rest.skip(1) =~= strings_view(patterns@).skip(i + 1));
        }
        if glob_matches(patterns[i].as_str(), name) {
            return Some(patterns[i].clone());
        }
        i = i + 1;
    }
    None
}

pub open spec fn opt_seq(o: Option<String>) -> Option<Seq<char>> {
    match o {
        Some(s) => Some(s@),
        None => None,
    }
}

/// A name dodot reads its own configuration from.
pub open spec fn is_reserved(name: Seq<char>) -> bool {
    name == ".dodot.toml"@ || name == ".dodotignore"@
}

/// A dot-prefixed name other than `.config`.
pub open spec fn is_hidden(name: Seq<char>) -> bool {
    name.len() > 0 && name[0] == '.' && name != ".config"@
}

pub fn is_reserved_exec(name: &[char]) -> (r: bool)
    ensures
        r == is_reserved(name@),
{
    let a = chars_of(".dodot.toml");
    let b = chars_of(".dodotignore");
    chars_eq(name, a.as_slice()) || chars_eq(name, b.as_slice())
}

pub fn is_hidden_exec(name: &[char]) -> (r: bool)
    ensures
        r == is_hidden(name@),
{
    let c = chars_of(".config");
    name.len() > 0 && name[0] == '.' && !chars_eq(name, c.as_slice())
}

/// A character a pack directory name may hold.
pub open spec fn pack_name_char(c: char) -> bool {
    ('a' <= c && c <= 'z') || ('A' <= c && c <= 'Z') || ('0' <= c && c <= '9') || c == '_' || c
        == '-' || c == '.'
}

pub open spec fn is_digit(c: char) -> bool {
    '0' <= c && c <= '9'
}

/// The digits-then-dash run at the start of `name`, counted up to the dash.
pub open spec fn digit_run(name: Seq<char>, k: int) -> bool {
    0 < k < name.len() && name[k] == '-' && (forall|m: int| 0 <= m < k ==> is_digit(name[m]))
}

/// Why the dotfiles-root scan does not read a directory as a pack.
#[derive(Debug, PartialEq, Eq)]
pub enum PackDirSkip {
    /// Matched this `[pack] ignore` pattern.
    Ignored(String),
    /// Dot-prefixed (other than `.config`).
    Hidden,
    /// Holds a character outside letters, digits, `_`, `-`, `.`.
    InvalidName,
    /// An ordering prefix with nothing after the separator.
    EmptyStem,
}

pub enum PackDirSkipView {
    Ignored(Seq<char>),
    Hidden,
    InvalidName,
    EmptyStem,
}

impl View for PackDirSkip {
    type V = PackDirSkipView;

    open spec fn view(&self) -> PackDirSkipView {
        match self {
            PackDirSkip::Ignored(p) => PackDirSkipView::Ignored(p@),
            PackDirSkip::Hidden => PackDirSkipView::Hidden,
            PackDirSkip::InvalidName => PackDirSkipView::InvalidName,
            PackDirSkip::EmptyStem => PackDirSkipView::EmptyStem,
        }
    }
}

/// The name is an ordering prefix and nothing else: digits, then a
/// final `-`.
pub open spec fn empty_stem(name: Seq<char>) -> bool {
    name.len() >= 2 && name.last() == '-' && forall|m: int| 0 <= m < name.len() - 1 ==> is_digit(name[m])
}

/// The rule the dotfiles-root scan applies to a directory name, in the
/// order it applies them.
pub open spec fn spec_classify_pack_dir(name: Seq<char>, patterns: Seq<Seq<char>>) -> Option<
    PackDirSkipView,
> {
    match first_match(name, patterns) {
        Some(p) => Some(PackDirSkipView::Ignored(p)),
        None => if is_hidden(name) {
            Some(PackDirSkipView::Hidden)
        } else if exists|i: int| 0 <= i < name.len() && !pack_name_char(name[i]) {
            Some(PackDirSkipView::InvalidName)
        } else if empty_stem(name) {
            Some(PackDirSkipView::EmptyStem)
        } else {
            None
        },
    }
}

pub open spec fn opt_skip_view(o: Option<PackDirSkip>) -> Option<PackDirSkipView> {
    match o {
        Some(s) => Some(s@),
        None => None,
    }
}

/// Which rule keeps the dotfiles-root scan from reading `name` as a pack.
#[verifier::loop_isolation(false)]
pub fn classify_pack_dir(name: &str, patterns: &[String]) -> (r: Option<PackDirSkip>)
    ensures
        opt_skip_view(r) == spec_classify_pack_dir(name@, strings_view(patterns@)),
{
    if let Some(p) = matched_ignore_pattern(name, patterns) {
        return Some(PackDirSkip::Ignored(p));
    }
    let n = chars_of(name);
    if is_hidden_exec(n.as_slice()) {
        return Some(PackDirSkip::Hidden);
    }
    let mut i: usize = 0;
    while i < n.len()
        invariant
            n@ == name@,
            i <= n.len(),
            forall|j: int| 0 <= j < i ==> pack_name_char(n@[j]),
        decreases n.len() - i,
    {
        let c = n[i];
        if !(('a' <= c && c <= 'z') || ('A' <= c && c <= 'Z') || ('0' <= c && c <= '9') || c == '_'
            || c == '-' || c == '.') {
            proof {
                assert(!pack_name_char(name@[i as int]));
                assert(exists|j: int| 0 <= j < name@.len() && !pack_name_char(name@[j]));
            }
            return Some(PackDirSkip::InvalidName);
        }
        i = i + 1;
    }
    proof {
        assert(!(exists|j: int| 0 <= j < name@.len() && !pack_name_char(name@[j])));
    }
    if n.len() >= 2 && n[n.len() - 1] == '-' {
        let mut k: usize = 0;
        while k < n.len() - 1
            invariant
                n@ == name@,
                n.len() >= 2,
                k <= n.len() - 1,
                forall|m: int| 0 <= m < k ==> is_digit(n@[m]),
            decreases n.len() - 1 - k,
        {
            if !('0' <= n[k] && n[k] <= '9') {
                proof {
                    assert(!is_digit(name@[k as int]));
                    assert(!empty_stem(name@));
                }
                return None;
            }
            k = k + 1;
        }
        return Some(PackDirSkip::EmptyStem);
    }
    None
}

/// The user-facing name of a pack directory: an ordering prefix
/// (`010-nvim` to `nvim`) is dropped when a name follows it.
pub open spec fn spec_display_name(dir: Seq<char>) -> Seq<char> {
    if exists|k: int| digit_run(dir, k) && k + 1 < dir.len() {
        dir.skip((choose|k: int| digit_run(dir, k) && k + 1 < dir.len()) + 1)
    } else {
        dir
    }
}

proof fn lemma_digit_run_unique(dir: Seq<char>, k1: int, k2: int)
    requires
        digit_run(dir, k1),
        digit_run(dir, k2),
    ensures
        k1 == k2,
{
    if k1 < k2 {
        assert(is_digit(dir[k1]));
    } else if k2 < k1 {
        assert(is_digit(dir[k2]));
    }
}

/// The user-facing name of a pack directory.
pub fn display_name_for(dir: &str) -> (r: String)
    ensures
        r@ == spec_display_name(dir@),
{
    let d = chars_of(dir);
    let mut k: usize = 0;
    while k < d.len() && '0' <= d[k] && d[k] <= '9'
        invariant
            k <= d.len(),
            forall|m: int| 0 <= m < k ==> is_digit(d@[m]),
        decreases d.len() - k,
    {
        k = k + 1;
    }
    if k > 0 && k < d.len() && k + 1 < d.len() && d[k] == '-' {
        proof {
            assert(digit_run(d@, k as int));
            let c = choose|c: int| digit_run(d@, c) && c + 1 < d@.len();
            lemma_digit_run_unique(d@, k as int, c);
        }
        let mut r: Vec<char> = Vec::new();
        let mut i: usize = k + 1;
        while i < d.len()
            invariant
                k + 1 <= i <= d.len(),
                r@ == d@.subrange(k + 1, i as int),
            decreases d.len() - i,
        {
            r.push(d[i]);
            i = i + 1;
            proof {
                assert(r@ =~= d@.subrange(k + 1, i as int));
            }
        }
        proof {
            assert(r@ =~= d@.skip(k + 1));
        }
        crate::text::string_of(r.as_slice())
    } else {
        proof {
            if exists|c: int| digit_run(d@, c) && c + 1 < d@.len() {
                let c = choose|c: int| digit_run(d@, c) && c + 1 < d@.len();
                if c < k {
                    assert(d@[c] == '-');
                } else if c > k {
                    assert(is_digit(d@[k as int]));
                }
            }
        }
        String::from_str(dir)
    }
}

/// A pattern without wildcards.
pub open spec fn literal(p: Seq<char>) -> bool {
    forall|i: int| 0 <= i < p.len() ==> p[i] != '*' && p[i] != '?'
}

/// `s` ends with `x`.
pub open spec fn ends_with(s: Seq<char>, x: Seq<char>) -> bool {
    x.len() <= s.len() && s.subrange(s.len() - x.len(), s.len() as int) == x
}

/// A match consumes the whole name: a pattern without `*` matches only
/// names of its own length, and a pattern without wildcards matches
/// exactly the identical name (an `ignore = ["scratch"]` entry ignores
/// `scratch` and not `scratchpad`).
pub proof fn law_glob_literal_matches_only_itself(p: Seq<char>, s: Seq<char>)
    ensures
        (forall|i: int| 0 <= i < p.len() ==> p[i] != '*') && glob(p, s) ==> s.len() == p.len(),
        literal(p) ==> (glob(p, s) == (s == p)),
    decreases p.len(),
{
    if p.len() == 0 {
        if s.len() == 0 {
            assert(s =~= p);
        }
    } else if p[0] == '*' {
        assert(!(forall|i: int| 0 <= i < p.len() ==> p[i] != '*'));
    } else {
        let q = p.skip(1);
        let no_star = forall|i: int| 0 <= i < p.len() ==> p[i] != '*';
        if no_star {
            assert forall|i: int| 0 <= i < q.len() implies q[i] != '*' by {
                assert(q[i] == p[i + 1]);
            }
        }
        if literal(p) {
            assert forall|i: int| 0 <= i < q.len() implies q[i] != '*' && q[i] != '?' by {
                assert(q[i] == p[i + 1]);
            }
        }
        if s.len() > 0 {
            law_glob_literal_matches_only_itself(q, s.skip(1));
            assert(glob(p, s) == ((p[0] == '?' || p[0] == s[0]) && glob(q, s.skip(1))));
            if literal(p) {
                if s == p {
                    assert(s.skip(1) =~= q);
                }
                if s.skip(1) == q && p[0] == s[0] {
                    assert forall|i: int| 0 <= i < s.len() implies s[i] == p[i] by {
                        if i > 0 {
                            assert(s[i] == s.skip(1)[i - 1]);
                            assert(p[i] == q[i - 1]);
                        }
                    }
                    assert(s =~= p);
                }
            }
        } else if literal(p) {
            assert(s != p);
        }
    }
}

/// `*` followed by a plain suffix matches exactly the names that end with
/// that suffix (`*.bak` matches `x.bak`, not `x.bakery`).
pub proof fn law_glob_star_suffix(x: Seq<char>, s: Seq<char>)
    requires
        literal(x),
    ensures
        glob(seq!['*'] + x, s) == ends_with(s, x),
    decreases s.len(),
{
    let p = seq!['*'] + x;
    assert(p.skip(1) =~= x);
    law_glob_literal_matches_only_itself(x, s);
    if s.len() > 0 {
        law_glob_star_suffix(x, s.skip(1));
        if x.len() <= s.skip(1).len() {
            assert(s.skip(1).subrange(s.skip(1).len() - x.len(), s.skip(1).len() as int)
                =~= s.subrange(s.len() - x.len(), s.len() as int));
        }
        if x.len() == s.len() {
            assert(s.subrange(0, s.len() as int) =~= s);
        }
    } else {
        if x.len() == 0 {
            assert(s.subrange(0, 0) =~= x);
        }
    }
}

/// Without `*`, a pattern matches exactly the names of its own length that
/// agree with it at every place it does not hold `?`.
pub proof fn law_glob_without_star(p: Seq<char>, s: Seq<char>)
    requires
        forall|i: int| 0 <= i < p.len() ==> p[i] != '*',
    ensures
        glob(p, s) == (s.len() == p.len() && forall|i: int|
            0 <= i < p.len() ==> p[i] == '?' || p[i] == s[i]),
    decreases p.len(),
{
    if p.len() > 0 && s.len() > 0 {
        let q = p.skip(1);
        let t = s.skip(1);
        assert forall|i: int| 0 <= i < q.len() implies q[i] != '*' by {
            assert(q[i] == p[i + 1]);
        }
        law_glob_without_star(q, t);
        if s.len() == p.len() && forall|i: int| 0 <= i < p.len() ==> p[i] == '?' || p[i] == s[i] {
            assert forall|i: int| 0 <= i < q.len() implies q[i] == '?' || q[i] == t[i] by {
                assert(q[i] == p[i + 1] && t[i] == s[i + 1]);
            }
        }
        if glob(p, s) {
            assert forall|i: int| 0 <= i < p.len() implies p[i] == '?' || p[i] == s[i] by {
                if i > 0 {
                    assert(q[i - 1] == p[i] && t[i - 1] == s[i]);
                }
            }
        }
    } else if p.len() > 0 {
        assert(p[0] != '*');
    }
}

} // verus!
