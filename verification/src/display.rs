//! Shared display values for commands that report pack status: handler
//! symbols and descriptions, rows, notes, and cross-pack conflicts.

use vstd::prelude::*;
use crate::paths::{file_name, file_name_of, render_home_relative, spec_render_home_relative};
use crate::text::{chars_eq, chars_of, last_occurrence, push_str, rfind_chars, string_of};

verus! {

/// The symbol shown for a handler.
pub open spec fn spec_handler_symbol(handler: Seq<char>) -> Seq<char> {
    if handler == "symlink"@ {
        "➞"@
    } else if handler == "shell"@ {
        "⚙"@
    } else if handler == "path"@ {
        "+"@
    } else if handler == "homebrew"@ {
        "⚙"@
    } else if handler == "install"@ {
        "×"@
    } else {
        "?"@
    }
}

fn str_is(s: &str, lit: &str) -> (r: bool)
    ensures
        r == (s@ == lit@),
{
    let a = chars_of(s);
    let b = chars_of(lit);
    chars_eq(a.as_slice(), b.as_slice())
}

/// The symbol shown for a handler.
pub fn handler_symbol(handler: &str) -> (r: &'static str)
    ensures
        r@ == spec_handler_symbol(handler@),
{
    if str_is(handler, "symlink") {
        "➞"
    } else if str_is(handler, "shell") {
        "⚙"
    } else if str_is(handler, "path") {
        "+"
    } else if str_is(handler, "homebrew") {
        "⚙"
    } else if str_is(handler, "install") {
        "×"
    } else {
        "?"
    }
}

/// The status style name for a row.
pub fn status_style(deployed: bool) -> (r: &'static str)
    ensures
        r@ == (if deployed {
            "deployed"@
        } else {
            "pending"@
        }),
{
    if deployed {
        "deployed"
    } else {
        "pending"
    }
}

/// What a handler does with a file, in words.
pub open spec fn spec_handler_description(
    handler: Seq<char>,
    rel_path: Seq<char>,
    user_target: Option<Seq<char>>,
) -> Seq<char> {
    if handler == "symlink"@ {
        match user_target {
            Some(t) => t,
            None => "<symlink>"@,
        }
    } else if handler == "shell"@ {
        "shell profile"@
    } else if handler == "path"@ {
        "$PATH/"@ + rel_path
    } else if handler == "install"@ {
        "run script"@
    } else if handler == "homebrew"@ {
        "brew install"@
    } else {
        Seq::<char>::empty()
    }
}

/// What a handler does with a file, in words.
pub fn handler_description(handler: &str, rel_path: &str, user_target: Option<&str>) -> (r: String)
    ensures
        r@ == spec_handler_description(
            handler@,
            rel_path@,
            match user_target {
                Some(t) => Some(t@),
                None => None,
            },
        ),
{
    if str_is(handler, "symlink") {
        match user_target {
            Some(t) => String::from_str(t),
            None => String::from_str("<symlink>"),
        }
    } else if str_is(handler, "shell") {
        String::from_str("shell profile")
    } else if str_is(handler, "path") {
        let mut v = chars_of("$PATH/");
        push_str(&mut v, rel_path);
        string_of(v.as_slice())
    } else if str_is(handler, "install") {
        String::from_str("run script")
    } else if str_is(handler, "homebrew") {
        String::from_str("brew install")
    } else {
        let r = String::new();
        proof {
            assert(r@ =~= Seq::<char>::empty());
        }
        r
    }
}

/// A file entry for pack status display.
#[derive(Debug)]
pub struct DisplayFile {
    pub name: String,
    pub symbol: String,
    pub description: String,
    pub status: String,
    pub status_label: String,
    pub handler: String,
    /// 1-based index into the result's notes, when the row has one.
    pub note_ref: Option<u32>,
}

/// A pack entry for status display.
#[derive(Debug)]
pub struct DisplayPack {
    pub name: String,
    pub files: Vec<DisplayFile>,
}

/// A command-wide note referenced by `DisplayFile::note_ref`.
#[derive(Debug)]
pub struct DisplayNote {
    pub body: String,
    pub hint: Option<String>,
}

/// One claimant of a cross-pack conflict, formatted for display.
#[derive(Debug)]
pub struct DisplayClaimant {
    pub pack: String,
    /// Short, pack-relative source description (e.g. `git/env.sh`).
    pub source: String,
}

/// A single cross-pack conflict, flattened for display.
#[derive(Debug)]
pub struct DisplayConflict {
    /// `"symlink"` or `"path"`.
    pub kind: String,
    /// The target: a path for a symlink, an executable name for `$PATH`.
    pub target: String,
    pub claimants: Vec<DisplayClaimant>,
}

/// What two or more packs claim.
#[derive(Debug, Clone, Copy, PartialEq, Eq, Structural)]
pub enum ConflictKind {
    /// Two packs deploy a symlink at the same target path.
    SymlinkTarget,
    /// Two packs put an executable of the same name on `$PATH`.
    PathExecutable,
}

/// One claimant of a conflict: its pack and the source path it deploys.
#[derive(Debug)]
pub struct Claimant {
    pub pack: String,
    pub source: String,
}

/// A cross-pack conflict as detection reports it.
#[derive(Debug)]
pub struct Conflict {
    pub kind: ConflictKind,
    pub target: String,
    pub claimants: Vec<Claimant>,
}

/// A claimant's source as `<pack>/<relative path>`, cut at the last
/// `/<pack>/` in it, or else `<pack>/<file name>`.
pub open spec fn spec_pack_relative_source(source: Seq<char>, pack: Seq<char>) -> Seq<char> {
    let marker = "/"@ + pack + "/"@;
    match last_occurrence(source, marker, source.len() as int) {
        Some(i) => source.skip(i + 1),
        None => pack + "/"@ + match file_name(source) {
            Some(n) => n,
            None => Seq::<char>::empty(),
        },
    }
}

/// A claimant's source as `<pack>/<relative path>`.
pub fn pack_relative_source(source: &str, pack: &str) -> (r: String)
    ensures
        r@ == spec_pack_relative_source(source@, pack@),
{
    let s = chars_of(source);
    let mut marker = chars_of("/");
    push_str(&mut marker, pack);
    push_str(&mut marker, "/");
    match rfind_chars(s.as_slice(), marker.as_slice()) {
        Some(i) => {
            proof {
                reveal_strlit("/");
                assert(i + marker@.len() <= s@.len());
            }
            let sl = s.len();
            assert(marker@.len() >= 1);
            let rest = crate::text::copy_range(s.as_slice(), i + 1, sl);
            proof {
                assert(rest@ =~= s@.skip(i + 1));
            }
            string_of(rest.as_slice())
        },
        None => {
            let mut v = chars_of(pack);
            push_str(&mut v, "/");
            match file_name_of(source) {
                Some(n) => push_str(&mut v, n.as_str()),
                None => {
                    proof {
                        assert(v@ + Seq::<char>::empty() =~= v@);
                    }
                },
            }
            string_of(v.as_slice())
        },
    }
}

/// The display text of a conflict's kind.
pub open spec fn spec_kind_text(kind: ConflictKind) -> Seq<char> {
    match kind {
        ConflictKind::SymlinkTarget => "symlink"@,
        ConflictKind::PathExecutable => "path"@,
    }
}

/// The display text of a conflict's target.
pub open spec fn spec_conflict_target(c: &Conflict, home: Seq<char>) -> Seq<char> {
    match c.kind {
        ConflictKind::SymlinkTarget => spec_render_home_relative(c.target@, home),
        ConflictKind::PathExecutable => match file_name(c.target@) {
            Some(n) => n,
            None => c.target@,
        },
    }
}

impl DisplayConflict {
    /// The display form of a detected conflict, with a symlink target
    /// shortened against `home` and each claimant's source made
    /// pack-relative.
    pub fn from_conflict(c: &Conflict, home: &str) -> (r: DisplayConflict)
        ensures
            r.kind@ == spec_kind_text(c.kind),
            r.target@ == spec_conflict_target(c, home@),
            r.claimants@.len() == c.claimants@.len(),
            forall|i: int|
                0 <= i < c.claimants@.len() ==> (#[trigger] r.claimants@[i]).pack@
                    == c.claimants@[i].pack@ && r.claimants@[i].source@
                    == spec_pack_relative_source(c.claimants@[i].source@, c.claimants@[i].pack@),
    {
        let kind = match c.kind {
            ConflictKind::SymlinkTarget => String::from_str("symlink"),
            ConflictKind::PathExecutable => String::from_str("path"),
        };
        let target = match c.kind {
            ConflictKind::SymlinkTarget => render_home_relative(c.target.as_str(), home),
            ConflictKind::PathExecutable => match file_name_of(c.target.as_str()) {
                Some(n) => n,
                None => c.target.clone(),
            },
        };
        let mut claimants: Vec<DisplayClaimant> = Vec::new();
        let mut i: usize = 0;
        while i < c.claimants.len()
            invariant
                i <= c.claimants@.len(),
                claimants@.len() == i,
                forall|j: int|
                    0 <= j < i ==> (#[trigger] claimants@[j]).pack@ == c.claimants@[j].pack@
                        && claimants@[j].source@ == spec_pack_relative_source(
                        c.claimants@[j].source@,
                        c.claimants@[j].pack@,
                    ),
            decreases c.claimants.len() - i,
        {
            let cl = &c.claimants[i];
            let source = pack_relative_source(cl.source.as_str(), cl.pack.as_str());
            claimants.push(DisplayClaimant { pack: cl.pack.clone(), source });
            i = i + 1;
        }
        DisplayConflict { kind, target, claimants }
    }
}

/// Result of a command that displays pack status.
#[derive(Debug)]
pub struct PackStatusResult {
    pub message: Option<String>,
    pub dry_run: bool,
    pub packs: Vec<DisplayPack>,
    /// Informational messages not attached to any row.
    pub warnings: Vec<String>,
    /// Command-wide notes, referenced by rows (1-based).
    pub notes: Vec<DisplayNote>,
    pub conflicts: Vec<DisplayConflict>,
    /// Pack directories skipped because they carry a `.dodotignore`.
    pub ignored_packs: Vec<String>,
    /// The command did not fully succeed (some planned work failed).
    pub failed: bool,
}

/// A symlink row describes itself by where the link is deployed: the
/// user-facing target when one is known, whatever the file's path in the
/// pack, and `<symlink>` only when no target is known.
pub proof fn law_symlink_described_by_target(rel_path: Seq<char>, user_target: Option<Seq<char>>)
    ensures
        match user_target {
            Some(t) => spec_handler_description("symlink"@, rel_path, user_target) == t,
            None => spec_handler_description("symlink"@, rel_path, user_target) == "<symlink>"@,
        },
        forall|other: Seq<char>|
            spec_handler_description("symlink"@, other, user_target) == spec_handler_description(
                "symlink"@,
                rel_path,
                user_target,
            ),
{
}

/// A conflict is reported under the kind of deployment that collides:
/// two symlinks at one target read "symlink", two executables of one name
/// on `$PATH` read "path"; the two kinds never share a label.
pub proof fn law_conflict_kind_labels(k: ConflictKind, j: ConflictKind)
    ensures
        (spec_kind_text(k) == "symlink"@) == (k == ConflictKind::SymlinkTarget),
        (spec_kind_text(k) == "path"@) == (k == ConflictKind::PathExecutable),
        (spec_kind_text(k) == spec_kind_text(j)) == (k == j),
{
    reveal_strlit("symlink");
    reveal_strlit("path");
    assert("symlink"@.len() != "path"@.len());
}

/// A `$PATH` row names the file as it appears on `$PATH` (`$PATH/`
/// followed by its path in the pack) whatever target is known; the shell,
/// install and homebrew rows say what is done, the same for every file;
/// an unknown handler is described by nothing.
pub proof fn law_other_handlers_described(
    rel_path: Seq<char>,
    other_path: Seq<char>,
    user_target: Option<Seq<char>>,
    other_target: Option<Seq<char>>,
    handler: Seq<char>,
)
    ensures
        spec_handler_description("path"@, rel_path, user_target) == "$PATH/"@ + rel_path,
        spec_handler_description("path"@, rel_path, user_target).len() == rel_path.len() + 6,
        handler != "symlink"@ && handler != "path"@ ==> spec_handler_description(
            handler,
            rel_path,
            user_target,
        ) == spec_handler_description(handler, other_path, other_target),
        spec_handler_description("shell"@, rel_path, user_target) == "shell profile"@,
        spec_handler_description("install"@, rel_path, user_target) == "run script"@,
        spec_handler_description("homebrew"@, rel_path, user_target) == "brew install"@,
        handler != "symlink"@ && handler != "path"@ && handler != "shell"@ && handler
            != "install"@ && handler != "homebrew"@ ==> spec_handler_description(
            handler,
            rel_path,
            user_target,
        ).len() == 0,
{
    reveal_strlit("symlink");
    reveal_strlit("path");
    reveal_strlit("shell");
    reveal_strlit("install");
    reveal_strlit("homebrew");
    reveal_strlit("$PATH/");
    assert("path"@.len() == 4 && "symlink"@.len() == 7 && "shell"@.len() == 5);
    assert("path"@ != "symlink"@);
    assert("path"@ != "shell"@);
    assert("$PATH/"@.len() == 6);
    assert("install"@[0] == 'i' && "symlink"@[0] == 's');
    assert("install"@ != "symlink"@);
    assert("install"@ != "path"@ && "install"@ != "shell"@);
    assert("homebrew"@.len() == 8);
    assert("homebrew"@ != "symlink"@ && "homebrew"@ != "path"@ && "homebrew"@ != "shell"@
        && "homebrew"@ != "install"@);
}

} // verus!
