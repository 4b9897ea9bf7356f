//! The answer to a three-way Y/n/show question. Asking it (on stderr,
//! reading stdin) happens around this crate.

use vstd::prelude::*;
use crate::text::{chars_eq, chars_of, lowercase, trim_chars, trimmed};

verus! {

/// Yes/No/Show response to a three-way prompt.
#[derive(Debug, Clone, Copy, PartialEq, Eq, Structural)]
pub enum YesNoShow {
    /// Proceed.
    Yes,
    /// Declined; the prompt is not dismissed, so it comes back.
    No,
    /// Inspect first, without committing.
    Show,
}

/// What a typed answer means: empty (the default), `y` or `yes` is
/// yes; `s` or `show` is show; anything else is no, so a stray key
/// dismisses nothing. Case and surrounding whitespace do not matter.
pub open spec fn spec_yes_no_show(answer: Seq<char>) -> YesNoShow {
    let a = lowercase(trimmed(answer));
    if a == ""@ || a == "y"@ || a == "yes"@ {
        YesNoShow::Yes
    } else if a == "s"@ || a == "show"@ {
        YesNoShow::Show
    } else {
        YesNoShow::No
    }
}

fn lower_is(v: &Vec<char>, w: &str) -> (r: bool)
    ensures
        r == (v@ == w@),
{
    let wv = chars_of(w);
    chars_eq(v.as_slice(), wv.as_slice())
}

/// The meaning of a typed answer to a Y/n/show question.
pub fn parse_yes_no_show(answer: &str) -> (r: YesNoShow)
    ensures
        r == spec_yes_no_show(answer@),
{
    let a = chars_of(answer);
    let t = trim_chars(a.as_slice());
    let l = lower_ascii(t.as_slice());
    if lower_is(&l, "") || lower_is(&l, "y") || lower_is(&l, "yes") {
        YesNoShow::Yes
    } else if lower_is(&l, "s") || lower_is(&l, "show") {
        YesNoShow::Show
    } else {
        YesNoShow::No
    }
}

fn upper_to_lower(c: char) -> (r: char)
    requires
        'A' <= c <= 'Z',
    ensures
        r == crate::text::ascii_lower(c),
{
    let b: u8 = ((c as u32) + 32) as u8;
    b as char
}

/// ASCII capitals folded to lower case (`str::to_ascii_lowercase`).
pub fn lower_ascii(s: &[char]) -> (r: Vec<char>)
    ensures
        r@ == lowercase(s@),
{
    let mut out: Vec<char> = Vec::new();
    let mut i: usize = 0;
    while i < s.len()
        invariant
            i <= s.len(),
            out@ =~= lowercase(s@.take(i as int)),
        decreases s.len() - i,
    {
        let c = s[i];
        let d = if 'A' <= c && c <= 'Z' {
            upper_to_lower(c)
        } else {
            c
        };
        out.push(d);
        i = i + 1;
        proof {
            assert(out@ =~= lowercase(s@.take(i as int)));
        }
    }
    proof {
        assert(s@.take(s@.len() as int) =~= s@);
    }
    out
}

} // verus!
