//! Gate labels: `_<label>/` directories whose contents deploy only on
//! hosts matching the label's predicate.

use vstd::prelude::*;
use crate::infer::opt_view;
use crate::text::{chars_eq, chars_of};

verus! {

/// What a gate predicate can test about the running host.
#[derive(Debug)]
pub struct HostFacts {
    pub os: String,
    pub arch: String,
    pub hostname: Option<String>,
    pub username: Option<String>,
}

/// A conjunction of equalities: every field that is set must equal the
/// host's.
#[derive(Debug)]
pub struct GatePredicate {
    pub os: Option<String>,
    pub arch: Option<String>,
    pub hostname: Option<String>,
    pub username: Option<String>,
}

/// Labels and their predicates; the first entry for a label is the one
/// in force.
#[derive(Debug)]
pub struct GateTable {
    pub entries: Vec<(String, GatePredicate)>,
}

pub struct HostView {
    pub os: Seq<char>,
    pub arch: Seq<char>,
    pub hostname: Option<Seq<char>>,
    pub username: Option<Seq<char>>,
}

pub struct PredicateView {
    pub os: Option<Seq<char>>,
    pub arch: Option<Seq<char>>,
    pub hostname: Option<Seq<char>>,
    pub username: Option<Seq<char>>,
}

impl View for HostFacts {
    type V = HostView;

    open spec fn view(&self) -> HostView {
        HostView {
            os: self.os@,
            arch: self.arch@,
            hostname: opt_view(self.hostname),
            username: opt_view(self.username),
        }
    }
}

impl View for GatePredicate {
    type V = PredicateView;

    open spec fn view(&self) -> PredicateView {
        PredicateView {
            os: opt_view(self.os),
            arch: opt_view(self.arch),
            hostname: opt_view(self.hostname),
            username: opt_view(self.username),
        }
    }
}

impl View for GateTable {
    type V = Seq<(Seq<char>, PredicateView)>;

    open spec fn view(&self) -> Seq<(Seq<char>, PredicateView)> {
        Seq::new(self.entries@.len(), |i: int| (self.entries@[i].0@, self.entries@[i].1@))
    }
}

/// A required field agrees with the host's value.
pub open spec fn field_ok(want: Option<Seq<char>>, have: Option<Seq<char>>) -> bool {
    match want {
        None => true,
        Some(w) => have == Some(w),
    }
}

pub open spec fn spec_matches(p: PredicateView, h: HostView) -> bool {
    field_ok(p.os, Some(h.os)) && field_ok(p.arch, Some(h.arch)) && field_ok(p.hostname, h.hostname)
        && field_ok(p.username, h.username)
}

/// The predicate of the first entry named `label`.
pub open spec fn spec_lookup(t: Seq<(Seq<char>, PredicateView)>, label: Seq<char>) -> Option<
    PredicateView,
>
    decreases t.len(),
{
    if t.len() == 0 {
        None
    } else if t[0].0 == label {
        Some(t[0].1)
    } else {
        spec_lookup(t.skip(1), label)
    }
}

/// A routing prefix, which is never a gate.
pub open spec fn is_routing_prefix(name: Seq<char>) -> bool {
    name == "_home"@ || name == "_xdg"@ || name == "_app"@ || name == "_lib"@
}

/// The label a directory named `_<label>` declares, unless it is a
/// routing prefix.
pub open spec fn spec_gate_label(name: Seq<char>) -> Option<Seq<char>> {
    if name.len() >= 2 && name[0] == '_' && !is_routing_prefix(name) {
        Some(name.skip(1))
    } else {
        None
    }
}

fn field_ok_exec(want: &Option<String>, have: Option<&String>) -> (r: bool)
    ensures
        r == field_ok(
            opt_view(*want),
            match have {
                Some(h) => Some(h@),
                None => None,
            },
        ),
{
    match want {
        None => true,
        Some(w) => match have {
            None => false,
            Some(h) => {
                let a = chars_of(w.as_str());
                let b = chars_of(h.as_str());
                chars_eq(a.as_slice(), b.as_slice())
            },
        },
    }
}

impl GatePredicate {
    /// Whether the host satisfies this predicate.
    pub fn matches(&self, host: &HostFacts) -> (r: bool)
        ensures
            r == spec_matches(self@, host@),
    {
        field_ok_exec(&self.os, Some(&host.os)) && field_ok_exec(&self.arch, Some(&host.arch))
            && field_ok_exec(&self.hostname, host.hostname.as_ref()) && field_ok_exec(
            &self.username,
            host.username.as_ref(),
        )
    }
}

fn pred(os: Option<&str>, arch: Option<&str>) -> (r: GatePredicate)
    ensures
        r@.os == match os {
            Some(s) => Some(s@),
            None => None::<Seq<char>>,
        },
        r@.arch == match arch {
            Some(s) => Some(s@),
            None => None::<Seq<char>>,
        },
        r@.hostname is None,
        r@.username is None,
{
    GatePredicate {
        os: match os {
            Some(s) => Some(String::from_str(s)),
            None => None,
        },
        arch: match arch {
            Some(s) => Some(String::from_str(s)),
            None => None,
        },
        hostname: None,
        username: None,
    }
}

/// The built-in labels: `darwin`, `linux`, `macos`, `arm64`, `aarch64`,
/// `x86_64`.
pub open spec fn builtin_labels() -> Seq<Seq<char>> {
    seq!["darwin"@, "linux"@, "macos"@, "arm64"@, "aarch64"@, "x86_64"@]
}

impl GateTable {
    /// The table holding only the built-in labels.
    pub fn with_builtins() -> (t: GateTable)
        ensures
            t@.len() == 6,
            forall|i: int| 0 <= i < 6 ==> (#[trigger] t@[i]).0 == builtin_labels()[i],
            t@[0].1.os == Some("darwin"@) && t@[0].1.arch is None,
            t@[1].1.os == Some("linux"@) && t@[1].1.arch is None,
            t@[2].1.os == Some("darwin"@) && t@[2].1.arch is None,
            t@[3].1.os is None && t@[3].1.arch == Some("aarch64"@),
            t@[4].1.os is None && t@[4].1.arch == Some("aarch64"@),
            t@[5].1.os is None && t@[5].1.arch == Some("x86_64"@),
            forall|i: int| 0 <= i < 6 ==> (#[trigger] t@[i]).1.hostname is None && t@[i].1.username is None,
    {
        let mut entries: Vec<(String, GatePredicate)> = Vec::new();
        entries.push((String::from_str("darwin"), pred(Some("darwin"), None)));
        entries.push((String::from_str("linux"), pred(Some("linux"), None)));
        entries.push((String::from_str("macos"), pred(Some("darwin"), None)));
        entries.push((String::from_str("arm64"), pred(None, Some("aarch64"))));
        entries.push((String::from_str("aarch64"), pred(None, Some("aarch64"))));
        entries.push((String::from_str("x86_64"), pred(None, Some("x86_64"))));
        GateTable { entries }
    }

    /// The predicate in force for `label`.
    pub fn lookup(&self, label: &str) -> (r: Option<&GatePredicate>)
        ensures
            match r {
                Some(p) => spec_lookup(self@, label@) == Some(p@),
                None => spec_lookup(self@, label@) is None,
            },
    {
        let l = chars_of(label);
        let mut i: usize = 0;
        proof {
            assert(self@.skip(0) =~= self@);
        }
        while i < self.entries.len()
            invariant
                i <= self.entries.len(),
                l@ == label@,
                spec_lookup(self@, label@) == spec_lookup(self@.skip(i as int), label@),
            decreases self.entries.len() - i,
        {
            proof {
                assert(self@.skip(i as int)[0] == self@[i as int]);
                assert(self@.skip(i as int).skip(1) =~= self@.skip(i + 1));
            }
            let k = chars_of(self.entries[i].0.as_str());
            if chars_eq(k.as_slice(), l.as_slice()) {
                return Some(&self.entries[i].1);
            }
            i = i + 1;
        }
        None
    }

    /// Whether `label` is defined.
    pub fn contains(&self, label: &str) -> (r: bool)
        ensures
            r == (spec_lookup(self@, label@) is Some),
    {
        self.lookup(label).is_some()
    }

    /// Define (or redefine) `label`; a user definition takes precedence
    /// over a built-in of the same name.
    pub fn merge_user(&mut self, label: String, predicate: GatePredicate)
        ensures
            final(self)@ == seq![(label@, predicate@)] + old(self)@,
    {
        self.entries.insert(0, (label, predicate));
        proof {
            assert(final(self)@ =~= seq![(label@, predicate@)] + old(self)@);
        }
    }
}

/// The label a `_<label>` directory name stands for, unless it is a
/// routing prefix.
pub fn parse_dir_gate_label(name: &str) -> (r: Option<String>)
    ensures
        opt_view(r) == spec_gate_label(name@),
{
    let n = chars_of(name);
    if n.len() < 2 || n[0] != '_' {
        return None;
    }
    let home = chars_of("_home");
    let xdg = chars_of("_xdg");
    let app = chars_of("_app");
    let lib = chars_of("_lib");
    if chars_eq(n.as_slice(), home.as_slice()) || chars_eq(n.as_slice(), xdg.as_slice())
        || chars_eq(n.as_slice(), app.as_slice()) || chars_eq(n.as_slice(), lib.as_slice()) {
        return None;
    }
    let mut r: Vec<char> = Vec::new();
    let mut i: usize = 1;
    while i < n.len()
        invariant
            1 <= i <= n.len(),
            r@ == n@.subrange(1, i as int),
        decreases n.len() - i,
    {
        r.push(n[i]);
        i = i + 1;
        proof {
            assert(r@ =~= n@.subrange(1, i as int));
        }
    }
    proof {
        assert(r@ =~= n@.skip(1));
    }
    Some(crate::text::string_of(r.as_slice()))
}

} // verus!
