//! The shell alias that wraps `git` to run `dodot refresh` first: which
//! shell, which rc file, the managed block written into it, and how an
//! existing rc file is updated so that installing is idempotent.
//!
//! Reading `$SHELL` and the rc file, and writing the rc file, happen
//! around this module: the functions here take what was read and say
//! what to write.

use vstd::prelude::*;
use crate::paths::{path_join, path_join_exec, render_home_relative, spec_render_home_relative};
use crate::text::{
    chars_eq, chars_of, contains, debug_quoted, ends_with, find_from, first_occurrence, join_strings,
    join_with, lacks, lower_equals, lowercase, lemma_first_occurrence_facts, lemma_first_occurrence_is,
    lemma_no_occurrence_over, lemma_occurs_in_middle,
    matches_at, occurs_at, push_chars, push_str, starts_with, string_of,
};

verus! {

/// The guard line that opens the managed alias block in a shell rc file.
pub const ALIAS_GUARD_START: &'static str = "# >>> dodot git alias (managed by `dodot git-install-alias`) >>>";

/// The guard line that closes the managed alias block.
pub const ALIAS_GUARD_END: &'static str = "# <<< dodot git alias <<<";

/// Which shell the alias is for.
#[derive(Debug, Clone, Copy, PartialEq, Eq, Structural)]
pub enum Shell {
    Bash,
    Zsh,
}

/// The shell a `$SHELL` value names: a path ending in `/zsh` or `/bash`,
/// or the bare name.
pub open spec fn spec_detect(shell_var: Option<Seq<char>>) -> Option<Shell> {
    match shell_var {
        Some(s) => if ends_with(s, "/zsh"@) || s == "zsh"@ {
            Some(Shell::Zsh)
        } else if ends_with(s, "/bash"@) || s == "bash"@ {
            Some(Shell::Bash)
        } else {
            None
        },
        None => None,
    }
}

/// The shell a `--shell` value names, ignoring ASCII case.
pub open spec fn spec_from_str_opt(s: Seq<char>) -> Option<Shell> {
    if lowercase(s) == "bash"@ {
        Some(Shell::Bash)
    } else if lowercase(s) == "zsh"@ {
        Some(Shell::Zsh)
    } else {
        None
    }
}

pub open spec fn spec_rc_relative_path(shell: Shell) -> Seq<char> {
    match shell {
        Shell::Bash => ".bashrc"@,
        Shell::Zsh => ".zshrc"@,
    }
}

pub open spec fn spec_alias_line(shell: Shell) -> Seq<char> {
    "alias git='dodot refresh --quiet && command git'"@
}

fn ends_with_exec(s: &[char], suffix: &str) -> (r: bool)
    ensures
        r == ends_with(s@, suffix@),
{
    let p = chars_of(suffix);
    if p.len() > s.len() {
        return false;
    }
    let r = matches_at(s, p.as_slice(), s.len() - p.len());
    proof {
        assert(occurs_at(s@, p@, s.len() - p.len()) == ends_with(s@, p@));
    }
    r
}

impl Shell {
    /// The shell named by a `$SHELL` value (`None` when it is unset or
    /// names a shell other than bash or zsh).
    pub fn detect(shell_var: Option<&str>) -> (r: Option<Shell>)
        ensures
            r == spec_detect(
                match shell_var {
                    Some(s) => Some(s@),
                    None => None,
                },
            ),
    {
        match shell_var {
            None => None,
            Some(s) => {
                let v = chars_of(s);
                let zsh = chars_of("zsh");
                let bash = chars_of("bash");
                if ends_with_exec(v.as_slice(), "/zsh") || chars_eq(v.as_slice(), zsh.as_slice()) {
                    Some(Shell::Zsh)
                } else if ends_with_exec(v.as_slice(), "/bash") || chars_eq(
                    v.as_slice(),
                    bash.as_slice(),
                ) {
                    Some(Shell::Bash)
                } else {
                    None
                }
            },
        }
    }

    /// Parse a `--shell` value, ignoring ASCII case.
    pub fn from_str_opt(s: &str) -> (r: Option<Shell>)
        ensures
            r == spec_from_str_opt(s@),
    {
        let v = chars_of(s);
        if lower_equals(v.as_slice(), "bash") {
            Some(Shell::Bash)
        } else if lower_equals(v.as_slice(), "zsh") {
            Some(Shell::Zsh)
        } else {
            None
        }
    }

    /// The rc file written for this shell, relative to `$HOME`.
    pub fn rc_relative_path(self) -> (r: &'static str)
        ensures
            r@ == spec_rc_relative_path(self),
    {
        match self {
            Shell::Bash => ".bashrc",
            Shell::Zsh => ".zshrc",
        }
    }

    /// The alias line for this shell.
    pub fn alias_line(self) -> (r: &'static str)
        ensures
            r@ == spec_alias_line(self),
    {
        "alias git='dodot refresh --quiet && command git'"
    }
}

// ── The managed block ───────────────────────────────────────────────

/// The lines of the managed block, in order.
pub open spec fn block_lines(shell: Shell) -> Seq<Seq<char>> {
    seq![
        ALIAS_GUARD_START@,
        "# Wraps `git` to run `dodot refresh` first, so `git status` and"@,
        "# `git diff` show deployed-side template edits between commits."@,
        "# Only affects interactive shells. Remove this block to opt out."@,
        spec_alias_line(shell),
        ALIAS_GUARD_END@,
    ]
}

/// The managed block: its lines, each ended by a newline.
pub open spec fn spec_managed_block(shell: Shell) -> Seq<char> {
    join_with(block_lines(shell), "\n"@) + "\n"@
}

/// The lines of the managed block.
pub fn managed_block_lines(shell: Shell) -> (r: Vec<String>)
    ensures
        r@.len() == 6,
        forall|i: int| 0 <= i < 6 ==> #[trigger] r@[i]@ == block_lines(shell)[i],
{
    let mut r: Vec<String> = Vec::new();
    r.push(String::from_str(ALIAS_GUARD_START));
    r.push(String::from_str("# Wraps `git` to run `dodot refresh` first, so `git status` and"));
    r.push(String::from_str("# `git diff` show deployed-side template edits between commits."));
    r.push(String::from_str("# Only affects interactive shells. Remove this block to opt out."));
    r.push(String::from_str(shell.alias_line()));
    r.push(String::from_str(ALIAS_GUARD_END));
    r
}

/// The full guarded block written into the rc file (or printed for
/// copy-paste).
pub fn managed_block(shell: Shell) -> (r: String)
    ensures
        r@ == spec_managed_block(shell),
{
    let lines = managed_block_lines(shell);
    let mut v = join_strings(lines.as_slice(), "\n");
    proof {
        assert(Seq::new(lines@.len(), |i: int| lines@[i]@) =~= block_lines(shell));
    }
    v.push('\n');
    proof {
        reveal_strlit("\n");
        assert(v@ =~= spec_managed_block(shell));
    }
    string_of(v.as_slice())
}

/// Where the managed block lies in `text`, in characters: from the
/// first opening guard to the end of the first closing guard after it,
/// including the newline that follows, if any.
pub open spec fn spec_find_block(text: Seq<char>) -> Option<(int, int)> {
    match first_occurrence(text, ALIAS_GUARD_START@, 0) {
        None => None,
        Some(s) => match first_occurrence(text, ALIAS_GUARD_END@, s + ALIAS_GUARD_START@.len()) {
            None => None,
            Some(e) => {
                let end = e + ALIAS_GUARD_END@.len();
                Some((s, if end < text.len() && text[end] == '\n' { end + 1 } else { end }))
            },
        },
    }
}

pub open spec fn opt_range(o: Option<(usize, usize)>) -> Option<(int, int)> {
    match o {
        Some((a, b)) => Some((a as int, b as int)),
        None => None,
    }
}

/// Locate the managed block inside `text`, as a range of character
/// indices, or `None` when either guard is missing.
pub fn find_managed_block(text: &str) -> (r: Option<(usize, usize)>)
    ensures
        opt_range(r) == spec_find_block(text@),
        match r {
            Some((a, b)) => a <= b <= text@.len(),
            None => true,
        },
{
    let t = chars_of(text);
    let start_guard = chars_of(ALIAS_GUARD_START);
    let end_guard = chars_of(ALIAS_GUARD_END);
    let start = match find_from(t.as_slice(), start_guard.as_slice(), 0) {
        Some(s) => s,
        None => return None,
    };
    let tl = t.len();
    let sl = start_guard.len();
    assert(start + sl <= tl);
    let after_start = start + sl;
    let e = match find_from(t.as_slice(), end_guard.as_slice(), after_start) {
        Some(e) => e,
        None => return None,
    };
    let el = end_guard.len();
    assert(e + el <= tl);
    let end = e + el;
    if end < t.len() && t[end] == '\n' {
        Some((start, end + 1))
    } else {
        Some((start, end))
    }
}

// ── Installing ──────────────────────────────────────────────────────

/// What installing did to the rc file.
#[derive(Debug, Clone, Copy, PartialEq, Eq, Structural)]
pub enum InstallAliasOutcome {
    /// The rc file did not exist; it was created holding the block.
    Created,
    /// The block was appended to the existing content.
    Appended,
    /// The rc file already holds the current block; nothing changes.
    AlreadyInstalled,
    /// An older managed block was replaced in place.
    Updated,
}

/// `text` ended by a blank line, so that an appended block stands apart.
pub open spec fn padded(text: Seq<char>) -> Seq<char> {
    let t1 = if ends_with(text, "\n"@) {
        text
    } else {
        text.push('\n')
    };
    if ends_with(t1, "\n\n"@) {
        t1
    } else {
        t1.push('\n')
    }
}

/// The outcome of installing `block` into an rc file with content
/// `existing` (`None` when the file does not exist), and the content to
/// write (`None` when the file is left as it is).
pub open spec fn spec_install(existing: Option<Seq<char>>, block: Seq<char>) -> (
    InstallAliasOutcome,
    Option<Seq<char>>,
) {
    match existing {
        None => (InstallAliasOutcome::Created, Some(block)),
        Some(text) => match spec_find_block(text) {
            Some((s, e)) => if text.subrange(s, e) == block {
                (InstallAliasOutcome::AlreadyInstalled, None)
            } else {
                (InstallAliasOutcome::Updated, Some(text.take(s) + block + text.skip(e)))
            },
            None => (InstallAliasOutcome::Appended, Some(padded(text) + block)),
        },
    }
}

/// What installing reports.
#[derive(Debug)]
pub struct InstallAliasResult {
    pub shell: Shell,
    pub outcome: InstallAliasOutcome,
    pub rc_path: String,
    pub rc_path_display: String,
    /// The command that picks up the alias in the running shell.
    pub source_command: String,
}

pub open spec fn opt_text(o: Option<&str>) -> Option<Seq<char>> {
    match o {
        Some(t) => Some(t@),
        None => None,
    }
}

pub open spec fn opt_string(o: Option<String>) -> Option<Seq<char>> {
    match o {
        Some(t) => Some(t@),
        None => None,
    }
}

/// The rc file for `shell` under `home`.
pub open spec fn spec_rc_path(home: Seq<char>, shell: Shell) -> Seq<char> {
    path_join(home, spec_rc_relative_path(shell))
}

fn padded_exec(text: &[char]) -> (r: Vec<char>)
    ensures
        r@ == padded(text@),
{
    let mut v = crate::text::copy_chars(text);
    if !ends_with_exec(v.as_slice(), "\n") {
        v.push('\n');
    }
    if !ends_with_exec(v.as_slice(), "\n\n") {
        v.push('\n');
    }
    v
}

/// Install the alias block for `shell` into the rc file under `home`,
/// whose current content is `existing` (`None` when the file does not
/// exist). Returns the report and the new content to write, or `None`
/// when the file must be left as it is.
pub fn install_alias(home: &str, existing: Option<&str>, shell: Shell) -> (r: (
    InstallAliasResult,
    Option<String>,
))
    ensures
        r.0.shell == shell,
        (r.0.outcome, opt_string(r.1)) == spec_install(opt_text(existing), spec_managed_block(shell)),
        r.0.rc_path@ == spec_rc_path(home@, shell),
        r.0.rc_path_display@ == spec_render_home_relative(spec_rc_path(home@, shell), home@),
        r.0.source_command@ == "source "@ + r.0.rc_path_display@,
{
    let block = managed_block(shell);
    let b = chars_of(block.as_str());
    let (outcome, content): (InstallAliasOutcome, Option<String>) = match existing {
        None => (InstallAliasOutcome::Created, Some(string_of(b.as_slice()))),
        Some(text) => {
            let t = chars_of(text);
            match find_managed_block(text) {
                Some((s, e)) => {
                    let current = crate::text::copy_range(t.as_slice(), s, e);
                    if chars_eq(current.as_slice(), b.as_slice()) {
                        (InstallAliasOutcome::AlreadyInstalled, None)
                    } else {
                        let mut v = crate::text::copy_range(t.as_slice(), 0, s);
                        push_chars(&mut v, b.as_slice());
                        let tail = crate::text::copy_range(t.as_slice(), e, t.len());
                        push_chars(&mut v, tail.as_slice());
                        proof {
                            assert(t@.subrange(0, s as int) =~= t@.take(s as int));
                            assert(t@.subrange(e as int, t@.len() as int) =~= t@.skip(e as int));
                        }
                        (InstallAliasOutcome::Updated, Some(string_of(v.as_slice())))
                    }
                },
                None => {
                    let mut v = padded_exec(t.as_slice());
                    push_chars(&mut v, b.as_slice());
                    (InstallAliasOutcome::Appended, Some(string_of(v.as_slice())))
                },
            }
        },
    };
    let rel = shell.rc_relative_path();
    let rc_path = path_join_exec(home, rel);
    let display = render_home_relative(rc_path.as_str(), home);
    let mut cmd = chars_of("source ");
    push_str(&mut cmd, display.as_str());
    let result = InstallAliasResult {
        shell,
        outcome,
        rc_path,
        rc_path_display: display,
        source_command: string_of(cmd.as_slice()),
    };
    (result, content)
}

/// The rc file content holds the opening guard.
pub open spec fn spec_is_installed(existing: Option<Seq<char>>) -> bool {
    match existing {
        Some(text) => contains(text, ALIAS_GUARD_START@),
        None => false,
    }
}

/// Whether an rc file (its content, `None` when it does not exist or
/// could not be read) already wraps git through the managed block.
pub fn is_installed(existing: Option<&str>) -> (r: bool)
    ensures
        r == spec_is_installed(opt_text(existing)),
{
    match existing {
        None => false,
        Some(text) => {
            let t = chars_of(text);
            let g = chars_of(ALIAS_GUARD_START);
            find_from(t.as_slice(), g.as_slice(), 0).is_some()
        },
    }
}

// ── Showing ─────────────────────────────────────────────────────────

/// What showing the alias reports: the block to paste, its lines, where
/// it would go, and whether it is there already.
#[derive(Debug)]
pub struct ShowAliasResult {
    pub shell: Shell,
    pub alias_block: String,
    pub alias_block_lines: Vec<String>,
    pub rc_path_display: String,
    pub already_installed: bool,
}

/// The alias block for `shell`, and whether the rc file under `home`
/// (content `existing`) already holds it. Nothing is written.
pub fn show_alias(home: &str, existing: Option<&str>, shell: Shell) -> (r: ShowAliasResult)
    ensures
        r.shell == shell,
        r.alias_block@ == spec_managed_block(shell),
        r.alias_block_lines@.len() == 6,
        forall|i: int| 0 <= i < 6 ==> #[trigger] r.alias_block_lines@[i]@ == block_lines(shell)[i],
        r.rc_path_display@ == spec_render_home_relative(spec_rc_path(home@, shell), home@),
        r.already_installed == spec_is_installed(opt_text(existing)),
{
    let already_installed = is_installed(existing);
    let alias_block = managed_block(shell);
    let alias_block_lines = managed_block_lines(shell);
    let rc_path = path_join_exec(home, shell.rc_relative_path());
    let rc_path_display = render_home_relative(rc_path.as_str(), home);
    ShowAliasResult { shell, alias_block, alias_block_lines, rc_path_display, already_installed }
}

// ── Choosing the shell ──────────────────────────────────────────────

/// The shell to use: the explicit `--shell` value when given, else the
/// one `$SHELL` (`shell_var`) names; otherwise an explanation.
pub open spec fn spec_resolve_shell(explicit: Option<Seq<char>>, shell_var: Option<Seq<char>>) -> Result<
    Shell,
    Seq<char>,
> {
    match explicit {
        Some(name) => match spec_from_str_opt(name) {
            Some(s) => Ok(s),
            None => Err(
                "unsupported shell "@ + debug_quoted(name)
                    + ": dodot can install the git alias for `bash` or `zsh`. For other shells, run `dodot git-show-alias --shell bash` and adapt the snippet."@,
            ),
        },
        None => match spec_detect(shell_var) {
            Some(s) => Ok(s),
            None => {
                let detected = match shell_var {
                    Some(v) => v,
                    None => Seq::<char>::empty(),
                };
                if detected.len() == 0 {
                    Err(
                        "$SHELL is unset; pass `--shell bash` or `--shell zsh` so dodot knows which rc file to write."@,
                    )
                } else {
                    Err(
                        "could not detect shell from $SHELL ("@ + debug_quoted(detected)
                            + "): dodot can install the git alias for `bash` or `zsh`. Pass `--shell bash` or `--shell zsh` explicitly, or run `dodot git-show-alias --shell bash` and adapt the snippet for your shell."@,
                    )
                }
            },
        },
    }
}

pub open spec fn result_text(r: Result<Shell, String>) -> Result<Shell, Seq<char>> {
    match r {
        Ok(s) => Ok(s),
        Err(e) => Err(e@),
    }
}

/// Resolve the shell from the `--shell` value, or else from `$SHELL`
/// (`shell_var`, `None` when unset), with a clear error for shells other
/// than bash and zsh.
pub fn resolve_shell(explicit: Option<&str>, shell_var: Option<&str>) -> (r: Result<Shell, String>)
    ensures
        result_text(r) == spec_resolve_shell(opt_text(explicit), opt_text(shell_var)),
{
    match explicit {
        Some(name) => match Shell::from_str_opt(name) {
            Some(s) => Ok(s),
            None => {
                let q = crate::text::debug_str(name);
                let mut v = chars_of("unsupported shell ");
                push_str(&mut v, q.as_str());
                push_str(
                    &mut v,
                    ": dodot can install the git alias for `bash` or `zsh`. For other shells, run `dodot git-show-alias --shell bash` and adapt the snippet.",
                );
                Err(string_of(v.as_slice()))
            },
        },
        None => match Shell::detect(shell_var) {
            Some(s) => Ok(s),
            None => {
                let detected: &str = match shell_var {
                    Some(v) => v,
                    None => "",
                };
                proof {
                    reveal_strlit("");
                }
                let d = chars_of(detected);
                if d.len() == 0 {
                    proof {
                        assert(d@ =~= Seq::<char>::empty());
                    }
                    Err(
                        String::from_str(
                            "$SHELL is unset; pass `--shell bash` or `--shell zsh` so dodot knows which rc file to write.",
                        ),
                    )
                } else {
                    let q = crate::text::debug_str(detected);
                    let mut v = chars_of("could not detect shell from $SHELL (");
                    push_str(&mut v, q.as_str());
                    push_str(
                        &mut v,
                        "): dodot can install the git alias for `bash` or `zsh`. Pass `--shell bash` or `--shell zsh` explicitly, or run `dodot git-show-alias --shell bash` and adapt the snippet for your shell.",
                    );
                    Err(string_of(v.as_slice()))
                }
            },
        },
    }
}

// ── Laws ────────────────────────────────────────────────────────────

/// Everything of the block before its closing guard line.
spec fn block_head(shell: Shell) -> Seq<char> {
    ALIAS_GUARD_START@ + "\n"@ + block_lines(shell)[1] + "\n"@ + block_lines(shell)[2] + "\n"@
        + block_lines(shell)[3] + "\n"@ + spec_alias_line(shell) + "\n"@
}

proof fn lemma_block_shape(shell: Shell)
    ensures
        spec_managed_block(shell) == block_head(shell) + ALIAS_GUARD_END@ + seq!['\n'],
        "\n"@ == seq!['\n'],
        lacks(block_head(shell), '<'),
        lacks(ALIAS_GUARD_START@, '\n'),
        ALIAS_GUARD_START@.len() <= block_head(shell).len(),
        block_head(shell).take(ALIAS_GUARD_START@.len() as int) == ALIAS_GUARD_START@,
        ALIAS_GUARD_END@.len() >= 3,
        ALIAS_GUARD_END@[0] == '#',
        ALIAS_GUARD_END@[1] == ' ',
        ALIAS_GUARD_END@[2] == '<',
{
    reveal_strlit("\n");
    reveal_strlit("# >>> dodot git alias (managed by `dodot git-install-alias`) >>>");
    reveal_strlit("# <<< dodot git alias <<<");
    reveal_strlit("# Wraps `git` to run `dodot refresh` first, so `git status` and");
    reveal_strlit("# `git diff` show deployed-side template edits between commits.");
    reveal_strlit("# Only affects interactive shells. Remove this block to opt out.");
    reveal_strlit("alias git='dodot refresh --quiet && command git'");
    let l = block_lines(shell);
    let nl = "\n"@;
    assert(l.drop_last() =~= seq![l[0], l[1], l[2], l[3], l[4]]);
    assert(l.drop_last().drop_last() =~= seq![l[0], l[1], l[2], l[3]]);
    assert(l.drop_last().drop_last().drop_last() =~= seq![l[0], l[1], l[2]]);
    assert(seq![l[0], l[1], l[2]].drop_last() =~= seq![l[0], l[1]]);
    assert(seq![l[0], l[1]].drop_last() =~= seq![l[0]]);
    assert(join_with(seq![l[0]], nl) == l[0]);
    assert(join_with(seq![l[0], l[1]], nl) == l[0] + nl + l[1]);
    assert(join_with(seq![l[0], l[1], l[2]], nl) == l[0] + nl + l[1] + nl + l[2]);
    assert(join_with(seq![l[0], l[1], l[2], l[3]], nl) == l[0] + nl + l[1] + nl + l[2] + nl + l[3]);
    assert(join_with(seq![l[0], l[1], l[2], l[3], l[4]], nl) == l[0] + nl + l[1] + nl + l[2] + nl
        + l[3] + nl + l[4]);
    assert(join_with(l, nl) == block_head(shell) + l[5]);
    let h = block_head(shell);
    let pieces = seq![l[0], nl, l[1], nl, l[2], nl, l[3], nl, l[4], nl];
    assert forall|i: int| 0 <= i < 10 implies lacks(#[trigger] pieces[i], '<') by {}
    assert(lacks(l[0] + nl, '<'));
    assert(lacks(l[0] + nl + l[1], '<'));
    assert(lacks(l[0] + nl + l[1] + nl, '<'));
    assert(lacks(l[0] + nl + l[1] + nl + l[2], '<'));
    assert(lacks(l[0] + nl + l[1] + nl + l[2] + nl, '<'));
    assert(lacks(l[0] + nl + l[1] + nl + l[2] + nl + l[3], '<'));
    assert(lacks(l[0] + nl + l[1] + nl + l[2] + nl + l[3] + nl, '<'));
    assert(lacks(l[0] + nl + l[1] + nl + l[2] + nl + l[3] + nl + l[4], '<'));
    assert(lacks(h, '<'));
    assert(h.take(l[0].len() as int) =~= l[0]);
}

/// Where the guards sit inside the block: the opening guard at the
/// start, the closing guard just before the final newline and nowhere
/// earlier.
proof fn lemma_block_guards(shell: Shell)
    ensures
        ({
            let b = spec_managed_block(shell);
            let st = ALIAS_GUARD_START@;
            let en = ALIAS_GUARD_END@;
            let q = b.len() - 1 - en.len();
            &&& 1 <= st.len() <= q
            &&& lacks(st, '\n')
            &&& b[b.len() - 1] == '\n'
            &&& occurs_at(b, st, 0)
            &&& occurs_at(b, en, q)
            &&& forall|j: int| 0 <= j < q ==> !occurs_at(b, en, j)
        }),
{
    let b = spec_managed_block(shell);
    let st = ALIAS_GUARD_START@;
    let en = ALIAS_GUARD_END@;
    lemma_block_shape(shell);
    let h = block_head(shell);
    let q = h.len() as int;
    assert(b.len() == q + en.len() + 1);
    assert(occurs_at(b, en, q)) by {
        assert(b.subrange(q, q + en.len()) =~= en);
    }
    assert forall|j: int| 0 <= j < q implies !occurs_at(b, en, j) by {
        if occurs_at(b, en, j) {
            assert(b.subrange(j, j + en.len())[2] == en[2]);
            if j + 2 < q {
                assert(b[j + 2] == h[j + 2]);
            } else if j + 2 == q {
                assert(b[q] == en[0]);
            } else {
                assert(b[q + 1] == en[1]);
            }
        }
    }
    assert(occurs_at(b, st, 0)) by {
        assert(b.subrange(0, st.len() as int) =~= h.take(st.len() as int));
    }
    reveal_strlit("# >>> dodot git alias (managed by `dodot git-install-alias`) >>>");
}

/// Content `x + b + z`, whose first opening guard is the one at the
/// start of the block `b`, holds `b` as its managed block.
proof fn lemma_block_found(x: Seq<char>, z: Seq<char>, shell: Shell)
    requires
        forall|j: int|
            0 <= j < x.len() ==> !occurs_at(
                x + spec_managed_block(shell) + z,
                ALIAS_GUARD_START@,
                j,
            ),
    ensures
        spec_find_block(x + spec_managed_block(shell) + z) == Some(
            (x.len() as int, (x.len() + spec_managed_block(shell).len()) as int),
        ),
{
    let b = spec_managed_block(shell);
    let st = ALIAS_GUARD_START@;
    let en = ALIAS_GUARD_END@;
    lemma_block_guards(shell);
    let q = b.len() - 1 - en.len();
    let c = x + b + z;
    lemma_occurs_in_middle(x, b, z, st, x.len() as int);
    lemma_first_occurrence_is(c, st, 0, x.len() as int);
    lemma_occurs_in_middle(x, b, z, en, x.len() + q);
    assert forall|j: int| x.len() + st.len() <= j < x.len() + q implies !occurs_at(c, en, j) by {
        lemma_occurs_in_middle(x, b, z, en, j);
    }
    lemma_first_occurrence_is(c, en, (x.len() + st.len()) as int, x.len() + q);
    assert(c[x.len() + q + en.len()] == b[b.len() - 1]);
}

/// Installing is idempotent: whatever content an install writes, a
/// second install onto it finds the current block and changes nothing.
/// The one exception is an rc file holding an opening guard with no
/// closing guard after it, which an install cannot recognise as a block.
pub proof fn law_install_idempotent(existing: Option<Seq<char>>, shell: Shell)
    requires
        match existing {
            Some(text) => contains(text, ALIAS_GUARD_START@) ==> spec_find_block(text) is Some,
            None => true,
        },
    ensures
        match spec_install(existing, spec_managed_block(shell)).1 {
            Some(written) => spec_install(Some(written), spec_managed_block(shell)) == (
                InstallAliasOutcome::AlreadyInstalled,
                None::<Seq<char>>,
            ),
            None => spec_install(existing, spec_managed_block(shell)).0
                == InstallAliasOutcome::AlreadyInstalled,
        },
{
    let b = spec_managed_block(shell);
    let e = Seq::<char>::empty();
    match existing {
        None => {
            lemma_block_found(e, e, shell);
            assert(e + b + e =~= b);
            assert(b.subrange(0, b.len() as int) =~= b);
        },
        Some(text) => {
            match spec_find_block(text) {
                Some((s, en)) => {
                    if text.subrange(s, en) != b {
                        lemma_updated_is_current(text, shell);
                    }
                },
                None => {
                    lemma_appended_is_current(text, shell);
                },
            }
        },
    }
}

proof fn lemma_updated_is_current(text: Seq<char>, shell: Shell)
    requires
        spec_find_block(text) is Some,
    ensures
        ({
            let (s, e) = spec_find_block(text).unwrap();
            let b = spec_managed_block(shell);
            let c = text.take(s) + b + text.skip(e);
            spec_find_block(c) == Some((s, s + b.len())) && c.subrange(s, s + b.len()) == b
        }),
{
    let b = spec_managed_block(shell);
    let st = ALIAS_GUARD_START@;
    lemma_block_guards(shell);
    let (s, e) = spec_find_block(text).unwrap();
    let x = text.take(s);
    let z = text.skip(e);
    let c = x + b + z;
    lemma_first_occurrence_facts(text, st, 0);
    assert(x.len() == s);
    assert forall|i: int| 0 <= i < s + st.len() implies c[i] == text[i] by {
        if i >= s {
            assert(text.subrange(s, s + st.len())[i - s] == st[i - s]);
            assert(b.subrange(0, st.len() as int)[i - s] == st[i - s]);
        }
    }
    assert(s + st.len() <= text.len());
    assert forall|j: int| 0 <= j < x.len() implies !occurs_at(c, st, j) by {
        assert(!occurs_at(text, st, j));
        assert forall|k: int| 0 <= k < st.len() implies #[trigger] c.subrange(j, j + st.len())[k]
            == text.subrange(j, j + st.len())[k] by {
            assert(c[j + k] == text[j + k]);
        }
        assert(c.subrange(j, j + st.len()) =~= text.subrange(j, j + st.len()));
    }
    lemma_block_found(x, z, shell);
    assert(c.subrange(s, s + b.len()) =~= b);
}

proof fn lemma_appended_is_current(text: Seq<char>, shell: Shell)
    requires
        spec_find_block(text) is None,
        !contains(text, ALIAS_GUARD_START@),
    ensures
        ({
            let b = spec_managed_block(shell);
            let p = padded(text);
            let c = p + b;
            spec_find_block(c) == Some((p.len() as int, (p.len() + b.len()) as int))
                && c.subrange(p.len() as int, (p.len() + b.len()) as int) == b
        }),
{
    let b = spec_managed_block(shell);
    let st = ALIAS_GUARD_START@;
    lemma_block_guards(shell);
    let p = padded(text);
    let e = Seq::<char>::empty();
    let c = p + b + e;
    assert(p + b =~= c);
    reveal_strlit("\n");
    reveal_strlit("\n\n");
    assert(p.len() >= 1 && p[p.len() - 1] == '\n');
    assert(text.len() <= p.len());
    assert(forall|i: int| 0 <= i < text.len() ==> p[i] == text[i]);
    assert(forall|i: int| text.len() <= i < p.len() ==> p[i] == '\n');
    assert forall|j: int| 0 <= j < p.len() implies !occurs_at(c, st, j) by {
        if j + st.len() <= text.len() {
            assert(c.subrange(j, j + st.len()) =~= text.subrange(j, j + st.len()));
            assert(!occurs_at(text, st, j));
        } else if j >= text.len() {
            lemma_no_occurrence_over(c, st, j, j, '\n');
        } else if text.len() < p.len() {
            lemma_no_occurrence_over(c, st, j, text.len() as int, '\n');
        } else {
            lemma_no_occurrence_over(c, st, j, p.len() - 1, '\n');
        }
    }
    lemma_block_found(p, e, shell);
    assert(c.subrange(p.len() as int, (p.len() + b.len()) as int) =~= b);
}

/// The block found in `text` is a range inside it.
proof fn lemma_find_block_bounds(text: Seq<char>)
    ensures
        match spec_find_block(text) {
            Some((s, e)) => 0 <= s <= e <= text.len(),
            None => true,
        },
{
    let st = ALIAS_GUARD_START@;
    lemma_first_occurrence_facts(text, st, 0);
    if let Some(s) = first_occurrence(text, st, 0) {
        lemma_first_occurrence_facts(text, ALIAS_GUARD_END@, s + st.len());
    }
}

/// Installing keeps what the user wrote: an append leaves the existing
/// content in front of the block, and an update replaces only the old
/// block, keeping what stood before and after it.
pub proof fn law_install_keeps_user_content(existing: Option<Seq<char>>, shell: Shell)
    ensures
        ({
            let b = spec_managed_block(shell);
            let (outcome, written) = spec_install(existing, b);
            match (existing, written) {
                (Some(text), Some(w)) => match outcome {
                    InstallAliasOutcome::Appended => w.take(text.len() as int) == text
                        && w.skip(w.len() - b.len()) == b,
                    InstallAliasOutcome::Updated => {
                        let (s, e) = spec_find_block(text).unwrap();
                        w.take(s) == text.take(s) && w.skip(s + b.len()) == text.skip(e)
                    },
                    _ => true,
                },
                _ => true,
            }
        }),
{
    let b = spec_managed_block(shell);
    reveal_strlit("\n");
    reveal_strlit("\n\n");
    if let Some(text) = existing {
        match spec_find_block(text) {
            Some((s, e)) => {
                lemma_find_block_bounds(text);
                let w = text.take(s) + b + text.skip(e);
                assert(w.take(s) =~= text.take(s));
                assert(w.skip(s + b.len()) =~= text.skip(e));
            },
            None => {
                let p = padded(text);
                let w = p + b;
                assert(forall|i: int| 0 <= i < text.len() ==> p[i] == text[i]);
                assert(w.take(text.len() as int) =~= text);
                assert(w.skip(w.len() - b.len()) =~= b);
            },
        }
    }
}

/// After an install writes the rc file, it holds the opening guard, so
/// the alias reads as installed.
pub proof fn law_installed_after_install(existing: Option<Seq<char>>, shell: Shell)
    ensures
        match spec_install(existing, spec_managed_block(shell)).1 {
            Some(written) => spec_is_installed(Some(written)),
            None => spec_is_installed(existing),
        },
{
    let b = spec_managed_block(shell);
    let st = ALIAS_GUARD_START@;
    lemma_block_guards(shell);
    match existing {
        None => {
            assert(occurs_at(b, st, 0));
        },
        Some(text) => match spec_find_block(text) {
            Some((s, e)) => {
                lemma_first_occurrence_facts(text, st, 0);
                if text.subrange(s, e) != b {
                    lemma_occurs_in_middle(text.take(s), b, text.skip(e), st, s);
                }
                assert(occurs_at(text, st, s));
            },
            None => {
                let p = padded(text);
                let e = Seq::<char>::empty();
                lemma_occurs_in_middle(p, b, e, st, p.len() as int);
                assert(p + b + e =~= p + b);
            },
        },
    }
}

} // verus!
