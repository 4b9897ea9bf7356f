//! Character-sequence helpers shared by every module.
//!
//! Text is computed on as `Vec<char>` (whose view is the same
//! `Seq<char>` a `String` has), and turned back into a `String` at the
//! edge of each public function.

use vstd::prelude::*;

verus! {

/// The characters of a string slice, in order.
pub(crate) fn chars_of(s: &str) -> (v: Vec<char>)
    ensures
        v@ == s@,
{
    broadcast use vstd::string::axiom_spec_iter;

    let mut v: Vec<char> = Vec::new();
    for c in it: s.chars()
        invariant
            it.seq() == s@,
            v@ == s@.take(it.index()),
    {
        proof {
            assert(s@.take(it.index() + 1) =~= v@.push(c));
        }
        v.push(c);
    }
    v
}

/// The string spelled by a sequence of characters.
#[verifier::external_body]
pub(crate) fn string_of(v: &[char]) -> (s: String)
    ensures
        s@ == v@,
{
    v.iter().collect()
}

/// `p` is a prefix of `s`.
pub open spec fn starts_with(s: Seq<char>, p: Seq<char>) -> bool {
    p.len() <= s.len() && s.subrange(0, p.len() as int) == p
}

/// `p` is a suffix of `s`.
pub open spec fn ends_with(s: Seq<char>, p: Seq<char>) -> bool {
    p.len() <= s.len() && s.subrange(s.len() - p.len(), s.len() as int) == p
}

/// `pat` occurs in `s` starting at index `i`.
pub open spec fn occurs_at(s: Seq<char>, pat: Seq<char>, i: int) -> bool {
    0 <= i && i + pat.len() <= s.len() && s.subrange(i, i + pat.len()) == pat
}

/// `pat` occurs somewhere in `s`.
pub open spec fn contains(s: Seq<char>, pat: Seq<char>) -> bool {
    exists|i: int| occurs_at(s, pat, i)
}

/// Equality of two character slices.
pub fn chars_eq(a: &[char], b: &[char]) -> (r: bool)
    ensures
        r == (a@ == b@),
{
    if a.len() != b.len() {
        return false;
    }
    let mut i: usize = 0;
    while i < a.len()
        invariant
            a.len() == b.len(),
            i <= a.len(),
            forall|j: int| 0 <= j < i ==> a@[j] == b@[j],
        decreases a.len() - i,
    {
        if a[i] != b[i] {
            return false;
        }
        i = i + 1;
    }
    assert(a@ =~= b@);
    true
}

/// Whether `pat` occurs in `s` at index `i`.
pub fn matches_at(s: &[char], pat: &[char], i: usize) -> (r: bool)
    ensures
        r == occurs_at(s@, pat@, i as int),
{
    if i > s.len() || pat.len() > s.len() - i {
        return false;
    }
    let mut k: usize = 0;
    while k < pat.len()
        invariant
            i + pat.len() <= s.len(),
            k <= pat.len(),
            forall|j: int| 0 <= j < k ==> s@[i + j] == pat@[j],
        decreases pat.len() - k,
    {
        if s[i + k] != pat[k] {
            assert(s@.subrange(i as int, i + pat.len())[k as int] != pat@[k as int]);
            return false;
        }
        k = k + 1;
    }
    assert(s@.subrange(i as int, i + pat.len()) =~= pat@);
    true
}

/// The first index at or after `from` where `pat` occurs in `s`.
pub open spec fn first_occurrence(s: Seq<char>, pat: Seq<char>, from: int) -> Option<int>
    decreases s.len() + 1 - from,
{
    if from < 0 || from > s.len() {
        None
    } else if occurs_at(s, pat, from) {
        Some(from)
    } else {
        first_occurrence(s, pat, from + 1)
    }
}

pub open spec fn opt_usize(o: Option<usize>) -> Option<int> {
    match o {
        Some(i) => Some(i as int),
        None => None,
    }
}

/// The first index at or after `from` where `pat` occurs in `s`.
pub fn find_from(s: &[char], pat: &[char], from: usize) -> (r: Option<usize>)
    ensures
        opt_usize(r) == first_occurrence(s@, pat@, from as int),
        match r {
            Some(i) => from <= i && occurs_at(s@, pat@, i as int) && forall|j: int|
                from <= j < i ==> !occurs_at(s@, pat@, j),
            None => forall|j: int| from <= j ==> !occurs_at(s@, pat@, j),
        },
{
    let mut i: usize = from;
    if i > s.len() {
        return None;
    }
    while i <= s.len()
        invariant
            from <= i,
            i <= s.len() + 1,
            forall|j: int| from <= j < i ==> !occurs_at(s@, pat@, j),
            first_occurrence(s@, pat@, from as int) == first_occurrence(s@, pat@, i as int),
        decreases s.len() + 1 - i,
    {
        if matches_at(s, pat, i) {
            return Some(i);
        }
        if i == s.len() {
            proof {
                assert(first_occurrence(s@, pat@, i + 1) == None::<int>);
            }
            return None;
        }
        i = i + 1;
    }
    None
}

/// Append the characters of `s` to `v`.
pub fn push_str(v: &mut Vec<char>, s: &str)
    ensures
        final(v)@ == old(v)@ + s@,
{
    let mut t = chars_of(s);
    v.append(&mut t);
}

/// Append the characters of `s` to `v`.
pub fn push_chars(v: &mut Vec<char>, s: &[char])
    ensures
        final(v)@ == old(v)@ + s@,
{
    let mut i: usize = 0;
    let ghost start = v@;
    while i < s.len()
        invariant
            i <= s.len(),
            v@ == start + s@.subrange(0, i as int),
        decreases s.len() - i,
    {
        v.push(s[i]);
        i = i + 1;
        proof {
            assert(v@ =~= start + s@.subrange(0, i as int));
        }
    }
    proof {
        assert(s@.subrange(0, s@.len() as int) =~= s@);
    }
}

/// A fresh copy of a character slice.
pub fn copy_chars(s: &[char]) -> (r: Vec<char>)
    ensures
        r@ == s@,
{
    let mut r: Vec<char> = Vec::new();
    push_chars(&mut r, s);
    proof {
        assert(r@ =~= s@);
    }
    r
}

/// The characters of a string slice, as a fresh vector.
pub fn chars_of_string(s: &String) -> (r: Vec<char>)
    ensures
        r@ == s@,
{
    chars_of(s.as_str())
}

/// `parts` joined with `sep` between neighbours.
pub open spec fn join_with(parts: Seq<Seq<char>>, sep: Seq<char>) -> Seq<char>
    decreases parts.len(),
{
    if parts.len() == 0 {
        Seq::<char>::empty()
    } else if parts.len() == 1 {
        parts[0]
    } else {
        join_with(parts.drop_last(), sep) + sep + parts.last()
    }
}

/// The strings of `parts` joined with `sep` between neighbours.
pub fn join_strings(parts: &[String], sep: &str) -> (r: Vec<char>)
    ensures
        r@ == join_with(Seq::new(parts@.len(), |i: int| parts@[i]@), sep@),
{
    let ghost all = Seq::new(parts@.len(), |i: int| parts@[i]@);
    let mut out: Vec<char> = Vec::new();
    if parts.len() == 0 {
        proof {
            assert(out@ =~= join_with(all, sep@));
        }
        return out;
    }
    out = chars_of(parts[0].as_str());
    proof {
        assert(all.take(1) =~= seq![all[0]]);
    }
    let mut i: usize = 1;
    while i < parts.len()
        invariant
            1 <= i <= parts.len(),
            all == Seq::new(parts@.len(), |i: int| parts@[i]@),
            out@ == join_with(all.take(i as int), sep@),
        decreases parts.len() - i,
    {
        push_str(&mut out, sep);
        push_str(&mut out, parts[i].as_str());
        proof {
            let t = all.take(i + 1);
            assert(t.drop_last() =~= all.take(i as int));
            assert(t.last() == all[i as int]);
        }
        i = i + 1;
    }
    proof {
        assert(all.take(parts.len() as int) =~= all);
    }
    out
}

/// The characters of `v` from index `a` up to (not including) `b`.
pub fn copy_range(v: &[char], a: usize, b: usize) -> (r: Vec<char>)
    requires
        a <= b <= v.len(),
    ensures
        r@ == v@.subrange(a as int, b as int),
{
    let mut r: Vec<char> = Vec::new();
    let mut i: usize = a;
    while i < b
        invariant
            a <= i <= b,
            b <= v.len(),
            r@ == v@.subrange(a as int, i as int),
        decreases b - i,
    {
        r.push(v[i]);
        i = i + 1;
        proof {
            assert(r@ =~= v@.subrange(a as int, i as int));
        }
    }
    r
}

/// What `{:?}` prints for a string: the text quoted, with escapes.
pub uninterp spec fn debug_quoted(s: Seq<char>) -> Seq<char>;

/// `<str as Debug>::fmt`, through `format!("{:?}", ..)`; the contract
/// names its result and says nothing of the escaping.
#[verifier::external_body]
pub(crate) fn debug_str(s: &str) -> (r: String)
    ensures
        r@ == debug_quoted(s@),
{
    format!("{:?}", s)
}

/// No character of `s` is `c`.
pub open spec fn lacks(s: Seq<char>, c: char) -> bool {
    forall|i: int| 0 <= i < s.len() ==> s[i] != c
}

/// `first_occurrence` finds `p` when `pat` occurs there and nowhere in
/// between.
pub proof fn lemma_first_occurrence_is(s: Seq<char>, pat: Seq<char>, k: int, p: int)
    requires
        0 <= k <= p,
        occurs_at(s, pat, p),
        forall|j: int| k <= j < p ==> !occurs_at(s, pat, j),
    ensures
        first_occurrence(s, pat, k) == Some(p),
    decreases p - k,
{
    if k < p {
        lemma_first_occurrence_is(s, pat, k + 1, p);
    }
}

/// What `first_occurrence` finds occurs there, and nowhere before it.
pub proof fn lemma_first_occurrence_facts(s: Seq<char>, pat: Seq<char>, k: int)
    requires
        0 <= k,
    ensures
        match first_occurrence(s, pat, k) {
            Some(p) => k <= p && occurs_at(s, pat, p) && forall|j: int|
                k <= j < p ==> !occurs_at(s, pat, j),
            None => forall|j: int| k <= j ==> !occurs_at(s, pat, j),
        },
    decreases s.len() + 1 - k,
{
    if k <= s.len() && !occurs_at(s, pat, k) {
        lemma_first_occurrence_facts(s, pat, k + 1);
    }
}

/// An occurrence in `x + y + z` whose window lies inside `y` is an
/// occurrence in `y`, and the other way round.
pub proof fn lemma_occurs_in_middle(
    x: Seq<char>,
    y: Seq<char>,
    z: Seq<char>,
    pat: Seq<char>,
    j: int,
)
    requires
        x.len() <= j,
        j + pat.len() <= x.len() + y.len(),
    ensures
        occurs_at(x + y + z, pat, j) == occurs_at(y, pat, j - x.len()),
{
    let c = x + y + z;
    assert(c.subrange(j, j + pat.len()) =~= y.subrange(j - x.len(), j - x.len() + pat.len()));
}

/// A position where `s` holds a character `pat` lacks is inside no
/// occurrence of `pat`.
pub proof fn lemma_no_occurrence_over(s: Seq<char>, pat: Seq<char>, j: int, m: int, c: char)
    requires
        j <= m < j + pat.len(),
        0 <= m < s.len(),
        s[m] == c,
        lacks(pat, c),
    ensures
        !occurs_at(s, pat, j),
{
    if occurs_at(s, pat, j) {
        assert(s.subrange(j, j + pat.len())[m - j] == pat[m - j]);
    }
}

/// The last index at or before `i` where `pat` occurs in `s`.
pub open spec fn last_occurrence(s: Seq<char>, pat: Seq<char>, i: int) -> Option<int>
    decreases i + 1,
{
    if i < 0 {
        None
    } else if occurs_at(s, pat, i) {
        Some(i)
    } else {
        last_occurrence(s, pat, i - 1)
    }
}

/// The last index where `pat` occurs in `s`.
pub fn rfind_chars(s: &[char], pat: &[char]) -> (r: Option<usize>)
    ensures
        opt_usize(r) == last_occurrence(s@, pat@, s@.len() as int),
        match r {
            Some(i) => occurs_at(s@, pat@, i as int),
            None => true,
        },
{
    let mut i: usize = s.len();
    loop
        invariant
            i <= s.len(),
            last_occurrence(s@, pat@, s@.len() as int) == last_occurrence(s@, pat@, i as int),
        decreases i,
    {
        if matches_at(s, pat, i) {
            return Some(i);
        }
        if i == 0 {
            proof {
                assert(last_occurrence(s@, pat@, -1) == None::<int>);
            }
            return None;
        }
        i = i - 1;
    }
}

/// The decimal digit for `d` (below ten).
pub open spec fn digit_char(d: nat) -> char {
    if d == 0 {
        '0'
    } else if d == 1 {
        '1'
    } else if d == 2 {
        '2'
    } else if d == 3 {
        '3'
    } else if d == 4 {
        '4'
    } else if d == 5 {
        '5'
    } else if d == 6 {
        '6'
    } else if d == 7 {
        '7'
    } else if d == 8 {
        '8'
    } else {
        '9'
    }
}

/// The decimal spelling of `n`, without leading zeros.
pub open spec fn decimal(n: nat) -> Seq<char>
    decreases n,
{
    if n < 10 {
        seq![digit_char(n)]
    } else {
        decimal(n / 10).push(digit_char(n % 10))
    }
}

pub(crate) fn digit_exec(d: u64) -> (c: char)
    requires
        d < 10,
    ensures
        c == digit_char(d as nat),
{
    if d == 0 {
        '0'
    } else if d == 1 {
        '1'
    } else if d == 2 {
        '2'
    } else if d == 3 {
        '3'
    } else if d == 4 {
        '4'
    } else if d == 5 {
        '5'
    } else if d == 6 {
        '6'
    } else if d == 7 {
        '7'
    } else if d == 8 {
        '8'
    } else {
        '9'
    }
}

/// The decimal spelling of `n`.
pub fn decimal_chars(n: u64) -> (r: Vec<char>)
    ensures
        r@ == decimal(n as nat),
    decreases n,
{
    if n < 10 {
        let mut v: Vec<char> = Vec::new();
        v.push(digit_exec(n));
        proof {
            assert(v@ =~= seq![digit_char(n as nat)]);
        }
        v
    } else {
        let mut v = decimal_chars(n / 10);
        v.push(digit_exec(n % 10));
        v
    }
}

/// Append the decimal spelling of `n` to `v`.
pub fn push_decimal(v: &mut Vec<char>, n: u64)
    ensures
        final(v)@ == old(v)@ + decimal(n as nat),
{
    let d = decimal_chars(n);
    push_chars(v, d.as_slice());
}

/// Lexicographic order on character sequences, by code point; the order
/// `String`'s `Ord` gives (UTF-8 preserves code-point order).
pub open spec fn lex_lt(a: Seq<char>, b: Seq<char>) -> bool
    decreases a.len(),
{
    if a.len() == 0 {
        b.len() > 0
    } else if b.len() == 0 {
        false
    } else if a[0] != b[0] {
        a[0] < b[0]
    } else {
        lex_lt(a.skip(1), b.skip(1))
    }
}

pub proof fn lemma_lex_trichotomy(a: Seq<char>, b: Seq<char>)
    ensures
        a == b || lex_lt(a, b) || lex_lt(b, a),
        !(lex_lt(a, b) && lex_lt(b, a)),
        !lex_lt(a, a),
    decreases a.len(),
{
    if a.len() > 0 && b.len() > 0 && a[0] == b[0] {
        lemma_lex_trichotomy(a.skip(1), b.skip(1));
        if a.skip(1) == b.skip(1) {
            assert(a =~= seq![a[0]] + a.skip(1));
            assert(b =~= seq![b[0]] + b.skip(1));
        }
    }
    if a.len() > 0 {
        lemma_lex_trichotomy(a.skip(1), a.skip(1));
    }
}

pub proof fn lemma_lex_transitive(a: Seq<char>, b: Seq<char>, c: Seq<char>)
    requires
        lex_lt(a, b),
        lex_lt(b, c),
    ensures
        lex_lt(a, c),
    decreases a.len(),
{
    if a.len() > 0 && b.len() > 0 && c.len() > 0 && a[0] == b[0] && b[0] == c[0] {
        lemma_lex_transitive(a.skip(1), b.skip(1), c.skip(1));
    }
}

/// Whether `a` sorts before `b`.
pub fn lex_less(a: &[char], b: &[char]) -> (r: bool)
    ensures
        r == lex_lt(a@, b@),
{
    let mut i: usize = 0;
    proof {
        assert(a@.skip(0) =~= a@);
        assert(b@.skip(0) =~= b@);
    }
    while i < a.len() && i < b.len()
        invariant
            i <= a.len(),
            i <= b.len(),
            a@.subrange(0, i as int) == b@.subrange(0, i as int),
            lex_lt(a@, b@) == lex_lt(a@.skip(i as int), b@.skip(i as int)),
        decreases a.len() - i,
    {
        let ghost asub = a@.skip(i as int);
        let ghost bsub = b@.skip(i as int);
        proof {
            assert(asub[0] == a@[i as int]);
            assert(bsub[0] == b@[i as int]);
        }
        if a[i] != b[i] {
            return a[i] < b[i];
        }
        proof {
            assert(asub.skip(1) =~= a@.skip(i + 1));
            assert(bsub.skip(1) =~= b@.skip(i + 1));
            assert(a@.subrange(0, i + 1) =~= a@.subrange(0, i as int).push(a@[i as int]));
            assert(b@.subrange(0, i + 1) =~= b@.subrange(0, i as int).push(b@[i as int]));
        }
        i = i + 1;
    }
    i < b.len()
}

/// Strictly increasing in `lex_lt`: sorted with no repeats.
pub open spec fn sorted_distinct(v: Seq<Seq<char>>) -> bool {
    forall|i: int, j: int| 0 <= i < j < v.len() ==> lex_lt(#[trigger] v[i], #[trigger] v[j])
}

/// Insert `s` into the sorted, repeat-free `v`, keeping it so.
pub fn insert_sorted(v: &mut Vec<String>, s: String)
    requires
        sorted_distinct(old(v)@.map_values(|x: String| x@)),
    ensures
        sorted_distinct(final(v)@.map_values(|x: String| x@)),
        final(v)@.map_values(|x: String| x@).to_set() == old(v)@.map_values(|x: String| x@).to_set().insert(s@),
{
    let ghost old_v = v@.map_values(|x: String| x@);
    let sc = chars_of(s.as_str());
    let mut p: usize = 0;
    while p < v.len()
        invariant
            p <= v.len(),
            v@.map_values(|x: String| x@) == old_v,
            sc@ == s@,
            forall|k: int| 0 <= k < p ==> lex_lt(#[trigger] old_v[k], s@),
        ensures
            p <= v.len(),
            v@.map_values(|x: String| x@) == old_v,
            sc@ == s@,
            forall|k: int| 0 <= k < p ==> lex_lt(#[trigger] old_v[k], s@),
            p < v.len() ==> !lex_lt(old_v[p as int], s@),
        decreases v.len() - p,
    {
        let cur = chars_of(v[p].as_str());
        proof {
            assert(old_v[p as int] == v@[p as int]@);
        }
        if !lex_less(cur.as_slice(), sc.as_slice()) {
            break;
        }
        p = p + 1;
    }
    proof {
        assert(old_v.len() == v@.len());
    }
    if p < v.len() {
        let cur = chars_of(v[p].as_str());
        proof {
            assert(old_v[p as int] == v@[p as int]@);
        }
        if chars_eq(cur.as_slice(), sc.as_slice()) {
            proof {
                assert(old_v.contains(s@));
                assert(old_v.to_set().insert(s@) =~= old_v.to_set());
            }
            return;
        }
        proof {
            lemma_lex_trichotomy(old_v[p as int], s@);
        }
    }
    v.insert(p, s);
    proof {
        let nv = v@.map_values(|x: String| x@);
        assert(nv =~= old_v.insert(p as int, s@));
        assert forall|i: int, j: int| 0 <= i < j < nv.len() implies lex_lt(
            #[trigger] nv[i],
            #[trigger] nv[j],
        ) by {
            if j < p {
            } else if j == p {
            } else if i <= p {
                if j - 1 > p {
                    lemma_lex_transitive(s@, old_v[p as int], old_v[j - 1]);
                }
                if i < p {
                    lemma_lex_transitive(nv[i], s@, nv[j]);
                }
            } else {
            }
        }
        assert(nv.to_set() =~= old_v.to_set().insert(s@)) by {
            assert forall|x: Seq<char>| nv.to_set().contains(x) implies old_v.to_set().insert(
                s@,
            ).contains(x) by {
                let k = choose|k: int| 0 <= k < nv.len() && nv[k] == x;
                if k < p {
                    assert(old_v[k] == x);
                } else if k > p {
                    assert(old_v[k - 1] == x);
                }
            }
            assert forall|x: Seq<char>| old_v.to_set().insert(s@).contains(x) implies nv.to_set().contains(
                x,
            ) by {
                if x == s@ {
                    assert(nv[p as int] == x);
                } else {
                    let k = choose|k: int| 0 <= k < old_v.len() && old_v[k] == x;
                    if k < p {
                        assert(nv[k] == x);
                    } else {
                        assert(nv[k + 1] == x);
                    }
                }
            }
        }
    }
}

/// Two sorted, repeat-free sequences holding the same elements are the
/// same sequence.
pub proof fn lemma_sorted_unique(a: Seq<Seq<char>>, b: Seq<Seq<char>>)
    requires
        sorted_distinct(a),
        sorted_distinct(b),
        a.to_set() == b.to_set(),
    ensures
        a == b,
    decreases a.len(),
{
    if a.len() == 0 {
        if b.len() > 0 {
            assert(b.to_set().contains(b[0]));
        }
        return;
    }
    if b.len() == 0 {
        assert(a.to_set().contains(a[0]));
        return;
    }
    assert(a.to_set().contains(a[0]));
    assert(b.to_set().contains(b[0]));
    let ka = choose|k: int| 0 <= k < b.len() && b[k] == a[0];
    let kb = choose|k: int| 0 <= k < a.len() && a[k] == b[0];
    if ka > 0 {
        assert(lex_lt(b[0], b[ka]));
        if kb > 0 {
            assert(lex_lt(a[0], a[kb]));
            lemma_lex_trichotomy(a[0], b[0]);
        } else {
            lemma_lex_trichotomy(a[0], a[0]);
        }
    } else {
        assert(b[0] == a[0]);
    }
    assert(a[0] == b[0]);
    let ta = a.skip(1);
    let tb = b.skip(1);
    assert forall|i: int, j: int| 0 <= i < j < ta.len() implies lex_lt(#[trigger] ta[i], #[trigger] ta[j]) by {
        assert(lex_lt(a[i + 1], a[j + 1]));
    }
    assert forall|i: int, j: int| 0 <= i < j < tb.len() implies lex_lt(#[trigger] tb[i], #[trigger] tb[j]) by {
        assert(lex_lt(b[i + 1], b[j + 1]));
    }
    assert(ta.to_set() =~= tb.to_set()) by {
        assert forall|x: Seq<char>| ta.to_set().contains(x) implies tb.to_set().contains(x) by {
            let k = choose|k: int| 0 <= k < ta.len() && ta[k] == x;
            assert(a[k + 1] == x);
            assert(lex_lt(a[0], a[k + 1]));
            lemma_lex_trichotomy(x, x);
            assert(b.to_set().contains(x));
            let m = choose|m: int| 0 <= m < b.len() && b[m] == x;
            assert(m != 0);
            assert(tb[m - 1] == x);
        }
        assert forall|x: Seq<char>| tb.to_set().contains(x) implies ta.to_set().contains(x) by {
            let k = choose|k: int| 0 <= k < tb.len() && tb[k] == x;
            assert(b[k + 1] == x);
            assert(lex_lt(b[0], b[k + 1]));
            lemma_lex_trichotomy(x, x);
            assert(a.to_set().contains(x));
            let m = choose|m: int| 0 <= m < a.len() && a[m] == x;
            assert(m != 0);
            assert(ta[m - 1] == x);
        }
    }
    lemma_sorted_unique(ta, tb);
    assert(a =~= seq![a[0]] + ta);
    assert(b =~= seq![b[0]] + tb);
}

/// A character with ASCII capitals folded to lower case.
pub open spec fn ascii_lower(c: char) -> char {
    if 'A' <= c && c <= 'Z' {
        ((c as u32) + 32) as char
    } else {
        c
    }
}

/// A string with ASCII capitals folded to lower case.
pub open spec fn lowercase(s: Seq<char>) -> Seq<char> {
    Seq::new(s.len(), |i: int| ascii_lower(s[i]))
}

pub fn lower_matches(c: char, t: char) -> (r: bool)
    ensures
        r == (ascii_lower(c) == t),
{
    if 'A' <= c && c <= 'Z' {
        (c as u32) + 32 == (t as u32)
    } else {
        c == t
    }
}

/// Whether `s`, folded to lower case, spells `t`.
pub fn lower_equals(s: &[char], t: &str) -> (r: bool)
    ensures
        r == (lowercase(s@) == t@),
{
    let tv = chars_of(t);
    if s.len() != tv.len() {
        proof {
            assert(lowercase(s@).len() != t@.len());
        }
        return false;
    }
    let mut i: usize = 0;
    while i < s.len()
        invariant
            s.len() == tv.len(),
            tv@ == t@,
            i <= s.len(),
            forall|j: int| 0 <= j < i ==> ascii_lower(s@[j]) == tv@[j],
        decreases s.len() - i,
    {
        if !lower_matches(s[i], tv[i]) {
            proof {
                assert(lowercase(s@)[i as int] != t@[i as int]);
            }
            return false;
        }
        i = i + 1;
    }
    proof {
        assert(lowercase(s@) =~= t@);
    }
    true
}

/// `s` with every non-overlapping occurrence of `pat` (found left to
/// right) replaced by `rep`; `pat` must not be empty.
pub open spec fn replace_all(s: Seq<char>, pat: Seq<char>, rep: Seq<char>) -> Seq<char>
    decreases s.len(),
{
    if pat.len() == 0 {
        s
    } else {
        match first_occurrence(s, pat, 0) {
            None => s,
            Some(i) => if 0 <= i && i + pat.len() <= s.len() {
                s.take(i) + rep + replace_all(s.skip(i + pat.len()), pat, rep)
            } else {
                s
            },
        }
    }
}

/// `str::replace`: every non-overlapping occurrence of `pat` replaced.
pub fn replace_str(s: &str, pat: &str, rep: &str) -> (r: String)
    requires
        pat@.len() > 0,
    ensures
        r@ == replace_all(s@, pat@, rep@),
{
    let sv = chars_of(s);
    let pv = chars_of(pat);
    let mut out: Vec<char> = Vec::new();
    let mut pos: usize = 0;
    proof {
        assert(sv@.skip(0) =~= sv@);
        assert(out@ + replace_all(sv@.skip(0), pv@, rep@) =~= replace_all(sv@, pv@, rep@));
    }
    loop
        invariant
            pos <= sv.len(),
            pv@ == pat@,
            pv@.len() > 0,
            sv@ == s@,
            out@ + replace_all(sv@.skip(pos as int), pv@, rep@) == replace_all(sv@, pv@, rep@),
        decreases sv.len() - pos,
    {
        let rest = crate::text::copy_range(sv.as_slice(), pos, sv.len());
        proof {
            assert(rest@ =~= sv@.skip(pos as int));
        }
        match find_from(rest.as_slice(), pv.as_slice(), 0) {
            None => {
                push_chars(&mut out, rest.as_slice());
                return string_of(out.as_slice());
            },
            Some(i) => {
                proof {
                    lemma_first_occurrence_facts(rest@, pv@, 0);
                }
                let ghost old_out = out@;
                let head = crate::text::copy_range(rest.as_slice(), 0, i);
                push_chars(&mut out, head.as_slice());
                push_str(&mut out, rep);
                proof {
                    assert(head@ =~= rest@.take(i as int));
                    assert(rest@.skip(i + pv@.len()) =~= sv@.skip(pos + i + pv@.len()));
                    let tail = replace_all(rest@.skip(i + pv@.len()), pv@, rep@);
                    assert(replace_all(rest@, pv@, rep@) == rest@.take(i as int) + rep@ + tail);
                    assert(out@ + tail =~= old_out + (rest@.take(i as int) + rep@ + tail));
                }
                pos = pos + i + pv.len();
            },
        }
    }
}

/// Whether a character has Unicode's `White_Space` property (the
/// characters `char::is_whitespace` accepts): U+0009..U+000D, U+0020,
/// U+0085, U+00A0, U+1680, U+2000..U+200A, U+2028, U+2029, U+202F,
/// U+205F and U+3000.
pub open spec fn unicode_whitespace(c: char) -> bool {
    let n = c as u32;
    ||| 0x09 <= n <= 0x0d
    ||| n == 0x20
    ||| n == 0x85
    ||| n == 0xa0
    ||| n == 0x1680
    ||| 0x2000 <= n <= 0x200a
    ||| n == 0x2028
    ||| n == 0x2029
    ||| n == 0x202f
    ||| n == 0x205f
    ||| n == 0x3000
}

/// Whether a character is whitespace, as `char::is_whitespace` decides.
pub(crate) fn is_whitespace(c: char) -> (r: bool)
    ensures
        r == unicode_whitespace(c),
{
    let n = c as u32;
    (0x09 <= n && n <= 0x0d) || n == 0x20 || n == 0x85 || n == 0xa0 || n == 0x1680 || (0x2000 <= n
        && n <= 0x200a) || n == 0x2028 || n == 0x2029 || n == 0x202f || n == 0x205f || n == 0x3000
}

/// `s` cut at every character satisfying `sep`, keeping empty pieces
/// (`str::split` with a character predicate).
pub open spec fn split_by(s: Seq<char>, sep: spec_fn(char) -> bool) -> Seq<Seq<char>>
    decreases s.len(),
{
    if s.len() == 0 {
        seq![Seq::<char>::empty()]
    } else {
        let prev = split_by(s.drop_last(), sep);
        if sep(s.last()) {
            prev.push(Seq::<char>::empty())
        } else {
            prev.update(prev.len() - 1, prev.last().push(s.last()))
        }
    }
}

proof fn lemma_split_by_nonempty(s: Seq<char>, sep: spec_fn(char) -> bool)
    ensures
        split_by(s, sep).len() >= 1,
    decreases s.len(),
{
    if s.len() > 0 {
        lemma_split_by_nonempty(s.drop_last(), sep);
    }
}

/// `s` cut at every occurrence of the character `sep` (`str::split`
/// with a `char`).
pub open spec fn split_on(s: Seq<char>, sep: char) -> Seq<Seq<char>> {
    split_by(s, is_char(sep))
}

/// The test for one character.
pub open spec fn is_char(sep: char) -> spec_fn(char) -> bool {
    |c: char| c == sep
}

/// `split_on` always yields at least one piece.
pub proof fn lemma_split_on_nonempty(s: Seq<char>, sep: char)
    ensures
        split_on(s, sep).len() >= 1,
{
    lemma_split_by_nonempty(s, is_char(sep));
}

/// The pieces of `s` between occurrences of `sep`.
pub fn split_chars(s: &[char], sep: char) -> (r: Vec<Vec<char>>)
    ensures
        r.deep_view() == split_on(s@, sep),
{
    let ghost f = is_char(sep);
    let mut done: Vec<Vec<char>> = Vec::new();
    let mut cur: Vec<char> = Vec::new();
    let mut i: usize = 0;
    proof {
        assert(s@.take(0) =~= Seq::<char>::empty());
        assert(done.deep_view().push(cur@) =~= split_by(s@.take(0), f));
    }
    while i < s.len()
        invariant
            i <= s.len(),
            f == is_char(sep),
            done.deep_view().push(cur@) == split_by(s@.take(i as int), f),
        decreases s.len() - i,
    {
        let ghost prev = split_by(s@.take(i as int), f);
        proof {
            assert(s@.take(i + 1).drop_last() =~= s@.take(i as int));
            assert(s@.take(i + 1).last() == s@[i as int]);
            lemma_split_by_nonempty(s@.take(i as int), f);
        }
        if s[i] == sep {
            let ghost old_done = done.deep_view();
            let c = cur;
            proof {
                assert(c.deep_view() =~= c@);
            }
            done.push(c);
            cur = Vec::new();
            proof {
                assert(done.deep_view() =~= old_done.push(c@));
                assert(done.deep_view().push(cur@) =~= prev.push(Seq::<char>::empty()));
            }
        } else {
            cur.push(s[i]);
            proof {
                assert(done.deep_view().push(cur@) =~= prev.update(
                    prev.len() - 1,
                    prev.last().push(s@[i as int]),
                ));
            }
        }
        i = i + 1;
    }
    proof {
        assert(s@.take(s@.len() as int) =~= s@);
    }
    let ghost before = done.deep_view();
    let c = cur;
    proof {
        assert(c.deep_view() =~= c@);
    }
    done.push(c);
    proof {
        assert(done.deep_view() =~= before.push(c@));
    }
    done
}

/// ASCII whitespace: space, tab, line feed, form feed, carriage return.
pub open spec fn ascii_ws(c: char) -> bool {
    c == ' ' || c == '\t' || c == '\n' || c == '\x0C' || c == '\r'
}

/// `str::split_ascii_whitespace`: the non-empty runs between ASCII
/// whitespace.
pub open spec fn ascii_tokens(s: Seq<char>) -> Seq<Seq<char>> {
    split_by(s, |c: char| ascii_ws(c)).filter(|t: Seq<char>| t.len() > 0)
}

/// `s` without leading and trailing Unicode whitespace (`str::trim`).
pub open spec fn trimmed(s: Seq<char>) -> Seq<char>
    decreases s.len(),
{
    if s.len() > 0 && unicode_whitespace(s[0]) {
        trimmed(s.skip(1))
    } else if s.len() > 0 && unicode_whitespace(s.last()) {
        trimmed(s.drop_last())
    } else {
        s
    }
}

/// `str::trim`.
pub fn trim_chars(s: &[char]) -> (r: Vec<char>)
    ensures
        r@ == trimmed(s@),
{
    let mut a: usize = 0;
    let mut b: usize = s.len();
    proof {
        assert(s@.subrange(0, s@.len() as int) =~= s@);
    }
    while a < b && is_whitespace(s[a])
        invariant
            a <= b <= s.len(),
            b == s.len(),
            trimmed(s@) == trimmed(s@.subrange(a as int, b as int)),
        decreases b - a,
    {
        proof {
            let t = s@.subrange(a as int, b as int);
            assert(t[0] == s@[a as int]);
            assert(t.skip(1) =~= s@.subrange(a + 1, b as int));
        }
        a = a + 1;
    }
    while a < b && is_whitespace(s[b - 1])
        invariant
            a <= b <= s.len(),
            trimmed(s@) == trimmed(s@.subrange(a as int, b as int)),
            a < b ==> !unicode_whitespace(s@[a as int]),
        decreases b - a,
    {
        proof {
            let t = s@.subrange(a as int, b as int);
            assert(t.last() == s@[b - 1]);
            assert(t[0] == s@[a as int]);
            assert(t.drop_last() =~= s@.subrange(a as int, b - 1));
        }
        b = b - 1;
    }
    let r = copy_range(s, a, b);
    proof {
        let t = s@.subrange(a as int, b as int);
        if a < b {
            assert(t[0] == s@[a as int]);
            assert(t.last() == s@[b - 1]);
        }
    }
    r
}

fn is_ascii_ws(c: char) -> (r: bool)
    ensures
        r == ascii_ws(c),
{
    c == ' ' || c == '\t' || c == '\n' || c == '\x0C' || c == '\r'
}

/// `str::split_ascii_whitespace`.
pub fn ascii_tokens_of(s: &[char]) -> (r: Vec<Vec<char>>)
    ensures
        r.deep_view() == ascii_tokens(s@),
{
    let ghost f = |c: char| ascii_ws(c);
    let ghost keep = |t: Seq<char>| t.len() > 0;
    let mut done: Vec<Vec<char>> = Vec::new();
    let mut cur: Vec<char> = Vec::new();
    let mut i: usize = 0;
    proof {
        assert(s@.take(0) =~= Seq::<char>::empty());
        assert(split_by(s@.take(0), f) =~= seq![Seq::<char>::empty()]);
        assert(done.deep_view() =~= split_by(s@.take(0), f).drop_last().filter(keep));
    }
    while i < s.len()
        invariant
            i <= s.len(),
            f == (|c: char| ascii_ws(c)),
            keep == (|t: Seq<char>| t.len() > 0),
            split_by(s@.take(i as int), f).len() >= 1,
            done.deep_view() == split_by(s@.take(i as int), f).drop_last().filter(keep),
            cur@ == split_by(s@.take(i as int), f).last(),
        decreases s.len() - i,
    {
        let ghost full = split_by(s@.take(i as int), f);
        let ghost old_done = done.deep_view();
        proof {
            assert(s@.take(i + 1).drop_last() =~= s@.take(i as int));
            assert(s@.take(i + 1).last() == s@[i as int]);
            lemma_split_by_nonempty(s@.take(i as int), f);
        }
        if is_ascii_ws(s[i]) {
            proof {
                full.drop_last().lemma_filter_push(full.last(), keep);
                assert(full.drop_last().push(full.last()) =~= full);
            }
            if cur.len() > 0 {
                let seg = cur;
                proof {
                    assert(seg.deep_view() =~= seg@);
                }
                done.push(seg);
                proof {
                    assert(done.deep_view() =~= old_done.push(seg@));
                }
            }
            cur = Vec::new();
            proof {
                assert(split_by(s@.take(i + 1), f).drop_last() =~= full);
            }
        } else {
            cur.push(s[i]);
            proof {
                assert(split_by(s@.take(i + 1), f).drop_last() =~= full.drop_last());
            }
        }
        i = i + 1;
    }
    proof {
        assert(s@.take(s@.len() as int) =~= s@);
        let full = split_by(s@, f);
        full.drop_last().lemma_filter_push(full.last(), keep);
        assert(full.drop_last().push(full.last()) =~= full);
    }
    if cur.len() > 0 {
        let ghost old_done = done.deep_view();
        let seg = cur;
        proof {
            assert(seg.deep_view() =~= seg@);
        }
        done.push(seg);
        proof {
            assert(done.deep_view() =~= old_done.push(seg@));
        }
    }
    done
}


/// `s` without trailing Unicode whitespace (`str::trim_end`).
pub open spec fn trimmed_end(s: Seq<char>) -> Seq<char>
    decreases s.len(),
{
    if s.len() > 0 && unicode_whitespace(s.last()) {
        trimmed_end(s.drop_last())
    } else {
        s
    }
}

/// `str::trim_end`.
pub fn trim_end_chars(s: &[char]) -> (r: Vec<char>)
    ensures
        r@ == trimmed_end(s@),
{
    let mut b: usize = s.len();
    proof {
        assert(s@.subrange(0, s@.len() as int) =~= s@);
    }
    while b > 0 && is_whitespace(s[b - 1])
        invariant
            b <= s.len(),
            trimmed_end(s@) == trimmed_end(s@.subrange(0, b as int)),
        decreases b,
    {
        proof {
            let t = s@.subrange(0, b as int);
            assert(t.last() == s@[b - 1]);
            assert(t.drop_last() =~= s@.subrange(0, b - 1));
        }
        b = b - 1;
    }
    let r = copy_range(s, 0, b);
    proof {
        if b > 0 {
            assert(s@.subrange(0, b as int).last() == s@[b - 1]);
        }
    }
    r
}

/// A line without the carriage return of a `\r\n` ending.
pub open spec fn strip_cr(l: Seq<char>) -> Seq<char> {
    if l.len() > 0 && l.last() == '\r' {
        l.drop_last()
    } else {
        l
    }
}

/// `str::lines` of a text that does not end in a line break: nothing
/// for the empty text, otherwise the pieces between `\n`s, each without
/// a closing `\r`.
pub open spec fn lines_of_trimmed(t: Seq<char>) -> Seq<Seq<char>> {
    if t.len() == 0 {
        Seq::<Seq<char>>::empty()
    } else {
        split_on(t, '\n').map_values(|l: Seq<char>| strip_cr(l))
    }
}

/// The lines of a text that does not end in a line break.
pub fn lines_of(t: &[char]) -> (r: Vec<String>)
    ensures
        Seq::new(r@.len(), |i: int| r@[i]@) == lines_of_trimmed(t@),
{
    let mut out: Vec<String> = Vec::new();
    if t.len() == 0 {
        proof {
            assert(Seq::new(out@.len(), |i: int| out@[i]@) =~= lines_of_trimmed(t@));
        }
        return out;
    }
    let parts = split_chars(t, '\n');
    let ghost pv = parts.deep_view();
    let mut i: usize = 0;
    while i < parts.len()
        invariant
            i <= parts@.len(),
            pv == parts.deep_view(),
            pv == split_on(t@, '\n'),
            out@.len() == i,
            forall|k: int| 0 <= k < i ==> (#[trigger] out@[k])@ == strip_cr(pv[k]),
        decreases parts.len() - i,
    {
        let part = &parts[i];
        proof {
            assert(pv[i as int] =~= part@);
        }
        let line = if part.len() > 0 && part[part.len() - 1] == '\r' {
            let c = copy_range(part.as_slice(), 0, part.len() - 1);
            proof {
                assert(c@ =~= part@.drop_last());
            }
            string_of(c.as_slice())
        } else {
            string_of(part.as_slice())
        };
        out.push(line);
        i = i + 1;
    }
    proof {
        assert(Seq::new(out@.len(), |i: int| out@[i]@) =~= lines_of_trimmed(t@));
    }
    out
}

} // verus!
