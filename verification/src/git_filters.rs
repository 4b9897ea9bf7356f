//! The `dodot-plist` clean/smudge filter: the `.git/config` block that
//! registers it, the `.gitattributes` lines that bind extensions to it,
//! how an existing `.gitattributes` line is recognised, and what
//! installing and showing the filters report.
//!
//! Running `git` and reading `.gitattributes` happen around this
//! module; it reads their outcomes.

use vstd::prelude::*;
use crate::adopt::{extension, extension_of};
use crate::infer::strings_view;
use crate::paths::path_join;
use crate::text::{
    ascii_lower, ascii_tokens, ascii_tokens_of, lowercase, chars_eq, chars_of, contains, copy_chars, decimal, find_from,
    join_with, push_chars, push_decimal, push_str, split_chars, split_on, string_of, trim_chars,
    trimmed,
};

verus! {

/// The result of a command that reports a message and detail lines.
#[derive(Debug)]
pub struct MessageResult {
    pub message: String,
    pub details: Vec<String>,
}

/// The lines of the `.git/config` block that registers the filter.
pub open spec fn config_block_lines() -> Seq<Seq<char>> {
    seq![
        "[filter \"dodot-plist\"]"@,
        "    clean  = dodot plist clean"@,
        "    smudge = dodot plist smudge"@,
        "    required = true"@,
    ]
}

/// The lines of the `.git/config` block.
pub fn config_block_line_list() -> (r: Vec<String>)
    ensures
        strings_view(r@) == config_block_lines(),
{
    let mut v: Vec<String> = Vec::new();
    v.push(String::from_str("[filter \"dodot-plist\"]"));
    v.push(String::from_str("    clean  = dodot plist clean"));
    v.push(String::from_str("    smudge = dodot plist smudge"));
    v.push(String::from_str("    required = true"));
    proof {
        assert(strings_view(v@) =~= config_block_lines());
    }
    v
}

/// The `.git/config` snippet that registers the filter.
pub fn config_block_text() -> (r: String)
    ensures
        r@ == join_with(config_block_lines(), "\n"@),
{
    let lines = config_block_line_list();
    let v = crate::text::join_strings(lines.as_slice(), "\n");
    proof {
        assert(Seq::new(lines@.len(), |i: int| lines@[i]@) =~= strings_view(lines@));
    }
    string_of(v.as_slice())
}

/// The `.gitattributes` line binding one extension to the filter.
pub open spec fn attributes_line(ext: Seq<char>) -> Seq<char> {
    "*."@ + ext + " filter=dodot-plist"@
}

/// The `.gitattributes` lines binding each configured extension to the
/// filter, in order.
pub fn gitattributes_lines(extensions: &[String]) -> (r: Vec<String>)
    ensures
        r@.len() == extensions@.len(),
        forall|i: int|
            0 <= i < extensions@.len() ==> (#[trigger] r@[i])@ == attributes_line(extensions@[i]@),
{
    let mut out: Vec<String> = Vec::new();
    let mut i: usize = 0;
    while i < extensions.len()
        invariant
            i <= extensions@.len(),
            out@.len() == i,
            forall|k: int| 0 <= k < i ==> (#[trigger] out@[k])@ == attributes_line(extensions@[k]@),
        decreases extensions.len() - i,
    {
        let mut v = chars_of("*.");
        push_str(&mut v, extensions[i].as_str());
        push_str(&mut v, " filter=dodot-plist");
        out.push(string_of(v.as_slice()));
        i = i + 1;
    }
    out
}

/// The pattern a `.gitattributes` line binds to the filter: its first
/// word, when a later word (before any `#`) is `filter=dodot-plist`.
pub open spec fn bound_pattern(line: Seq<char>) -> Option<Seq<char>> {
    let toks = ascii_tokens(trimmed(split_on(line, '#')[0]));
    if toks.len() > 0 && exists|k: int| 1 <= k < toks.len() && toks[k] == "filter=dodot-plist"@ {
        Some(toks[0])
    } else {
        None
    }
}

fn bound_pattern_exec(line: &str) -> (r: Option<Vec<char>>)
    ensures
        match r {
            Some(p) => bound_pattern(line@) == Some(p@),
            None => bound_pattern(line@) is None,
        },
{
    let l = chars_of(line);
    let parts = split_chars(l.as_slice(), '#');
    proof {
        crate::text::lemma_split_on_nonempty(l@, '#');
        assert(parts.deep_view()[0] =~= parts[0]@);
    }
    let before = trim_chars(parts[0].as_slice());
    let toks = ascii_tokens_of(before.as_slice());
    let ghost tv = ascii_tokens(trimmed(split_on(line@, '#')[0]));
    proof {
        assert(tv == toks.deep_view());
    }
    if toks.len() == 0 {
        return None;
    }
    let want = chars_of("filter=dodot-plist");
    let mut k: usize = 1;
    while k < toks.len()
        invariant
            1 <= k <= toks.len(),
            want@ == "filter=dodot-plist"@,
            tv == toks.deep_view(),
            tv == ascii_tokens(trimmed(split_on(line@, '#')[0])),
            forall|m: int| 1 <= m < k ==> tv[m] != "filter=dodot-plist"@,
        decreases toks.len() - k,
    {
        proof {
            assert(toks.deep_view()[k as int] =~= toks[k as int]@);
        }
        if chars_eq(toks[k].as_slice(), want.as_slice()) {
            proof {
                assert(toks.deep_view()[k as int] == "filter=dodot-plist"@);
                assert(toks.deep_view()[0] =~= toks[0]@);
                assert(exists|m: int| 1 <= m < tv.len() && tv[m] == "filter=dodot-plist"@);
            }
            return Some(copy_chars(toks[0].as_slice()));
        }
        k = k + 1;
    }
    None
}

/// Two `.gitattributes` lines bind the same pattern to the filter.
pub open spec fn spec_line_matches(existing: Seq<char>, expected: Seq<char>) -> bool {
    match (bound_pattern(existing), bound_pattern(expected)) {
        (Some(a), Some(b)) => a == b,
        _ => false,
    }
}

/// Whether an existing `.gitattributes` line binds the same pattern to
/// the filter as `expected`; whitespace, trailing attributes and
/// comments do not matter.
pub fn gitattributes_line_matches(existing: &str, expected: &str) -> (r: bool)
    ensures
        r == spec_line_matches(existing@, expected@),
{
    match (bound_pattern_exec(existing), bound_pattern_exec(expected)) {
        (Some(a), Some(b)) => chars_eq(a.as_slice(), b.as_slice()),
        _ => false,
    }
}

/// Some line of `content` binds the same pattern as `expected`. Lines
/// are taken between newlines; a carriage return before a newline, and
/// an empty last piece, change no answer, since neither can bind a
/// pattern differently.
pub open spec fn any_line_matches(content: Seq<char>, expected: Seq<char>) -> bool {
    let lines = split_on(content, '\n');
    exists|i: int| 0 <= i < lines.len() && spec_line_matches(#[trigger] lines[i], expected)
}

fn any_line_matches_exec(content: &str, expected: &str) -> (r: bool)
    ensures
        r == any_line_matches(content@, expected@),
{
    let c = chars_of(content);
    let lines = split_chars(c.as_slice(), '\n');
    let ghost lv = lines.deep_view();
    let mut i: usize = 0;
    while i < lines.len()
        invariant
            i <= lines.len(),
            lv == lines.deep_view(),
            lv == split_on(content@, '\n'),
            forall|m: int| 0 <= m < i ==> !spec_line_matches(#[trigger] lv[m], expected@),
        decreases lines.len() - i,
    {
        let line = string_of(lines[i].as_slice());
        proof {
            assert(lv[i as int] =~= lines[i as int]@);
        }
        if gitattributes_line_matches(line.as_str(), expected) {
            return true;
        }
        i = i + 1;
    }
    false
}

/// The lines of `expected` that no line of `content` matches, in order.
pub open spec fn missing_lines(expected: Seq<Seq<char>>, content: Seq<char>) -> Seq<Seq<char>> {
    expected.filter(|l: Seq<char>| !any_line_matches(content, l))
}

fn missing_lines_exec(expected: &[String], content: &str) -> (r: Vec<String>)
    ensures
        strings_view(r@) == missing_lines(strings_view(expected@), content@),
{
    let ghost all = strings_view(expected@);
    let ghost keep = |l: Seq<char>| !any_line_matches(content@, l);
    let mut out: Vec<String> = Vec::new();
    let mut i: usize = 0;
    proof {
        assert(all.take(0) =~= Seq::<Seq<char>>::empty());
        assert(strings_view(out@) =~= Seq::<Seq<char>>::empty());
    }
    while i < expected.len()
        invariant
            i <= expected@.len(),
            all == strings_view(expected@),
            keep == (|l: Seq<char>| !any_line_matches(content@, l)),
            strings_view(out@) == all.take(i as int).filter(keep),
        decreases expected.len() - i,
    {
        let ghost before = strings_view(out@);
        proof {
            assert(all.take(i + 1) =~= all.take(i as int).push(all[i as int]));
            all.take(i as int).lemma_filter_push(all[i as int], keep);
        }
        if !any_line_matches_exec(content, expected[i].as_str()) {
            let c = expected[i].clone();
            out.push(c);
            proof {
                assert(strings_view(out@) =~= before.push(c@));
            }
        }
        i = i + 1;
    }
    proof {
        assert(all.take(all.len() as int) =~= all);
    }
    out
}

/// The hint for binding the configured extensions in `.gitattributes`,
/// when some line is missing: a blank line, a headline, one `echo` line
/// per missing binding, and the commit command.
pub open spec fn spec_attributes_hint(extensions: Seq<Seq<char>>, content: Seq<char>) -> Seq<Seq<char>> {
    let expected = Seq::new(extensions.len(), |i: int| attributes_line(extensions[i]));
    let missing = missing_lines(expected, content);
    if missing.len() == 0 {
        Seq::<Seq<char>>::empty()
    } else {
        let summary = if missing.len() == 1 {
            "*."@ + extensions[0] + " to this filter"@
        } else {
            decimal(missing.len()) + " extensions to this filter"@
        };
        seq![Seq::<char>::empty(), "Next: ensure your .gitattributes binds "@ + summary + ":"@]
            + Seq::new(missing.len(), |i: int| "    echo '"@ + missing[i] + "' >> .gitattributes"@)
            + seq!["    git add .gitattributes && git commit -m 'enable plist filters'"@]
    }
}

/// The hint for binding the configured extensions in `.gitattributes`
/// (whose content is `attrs`; empty when it could not be read).
pub fn gitattributes_hint(extensions: &[String], attrs: &str) -> (r: Vec<String>)
    ensures
        strings_view(r@) == spec_attributes_hint(strings_view(extensions@), attrs@),
{
    let ghost ev = strings_view(extensions@);
    let ghost expected = Seq::new(ev.len(), |i: int| attributes_line(ev[i]));
    let lines = gitattributes_lines(extensions);
    proof {
        assert(strings_view(lines@) =~= expected);
        expected.lemma_filter_len(|l: Seq<char>| !any_line_matches(attrs@, l));
    }
    let missing = missing_lines_exec(lines.as_slice(), attrs);
    let ghost mv = strings_view(missing@);
    proof {
        assert(mv == missing_lines(expected, attrs@));
        assert(mv.len() <= expected.len());
    }
    let mut out: Vec<String> = Vec::new();
    if missing.len() == 0 {
        proof {
            assert(strings_view(out@) =~= Seq::<Seq<char>>::empty());
        }
        return out;
    }
    let ghost summary = if mv.len() == 1 {
        "*."@ + ev[0] + " to this filter"@
    } else {
        decimal(mv.len()) + " extensions to this filter"@
    };
    let mut h = chars_of("Next: ensure your .gitattributes binds ");
    let ghost h0 = h@;
    if missing.len() == 1 {
        push_str(&mut h, "*.");
        push_str(&mut h, extensions[0].as_str());
        push_str(&mut h, " to this filter");
        proof {
            assert(h@ =~= h0 + summary);
        }
    } else {
        push_decimal(&mut h, missing.len() as u64);
        push_str(&mut h, " extensions to this filter");
        proof {
            assert(h@ =~= h0 + summary);
        }
    }
    push_str(&mut h, ":");
    let ghost headline = "Next: ensure your .gitattributes binds "@ + summary + ":"@;
    proof {
        assert(h@ =~= headline);
    }
    let blank = String::new();
    out.push(blank);
    out.push(string_of(h.as_slice()));
    let ghost head = seq![Seq::<char>::empty(), headline];
    let ghost echo = |k: int| "    echo '"@ + mv[k] + "' >> .gitattributes"@;
    proof {
        assert(strings_view(out@) =~= head);
    }
    let mut i: usize = 0;
    while i < missing.len()
        invariant
            i <= missing@.len(),
            mv == strings_view(missing@),
            echo == (|k: int| "    echo '"@ + mv[k] + "' >> .gitattributes"@),
            strings_view(out@) == head + Seq::new(i as nat, echo),
        decreases missing.len() - i,
    {
        let mut e = chars_of("    echo '");
        push_str(&mut e, missing[i].as_str());
        push_str(&mut e, "' >> .gitattributes");
        let ghost before = strings_view(out@);
        let line = string_of(e.as_slice());
        proof {
            assert(line@ =~= echo(i as int));
        }
        out.push(line);
        proof {
            assert(strings_view(out@) =~= before.push(line@));
            assert(strings_view(out@) =~= head + Seq::new((i + 1) as nat, echo));
        }
        i = i + 1;
    }
    let ghost before = strings_view(out@);
    let last = String::from_str("    git add .gitattributes && git commit -m 'enable plist filters'");
    out.push(last);
    proof {
        assert(strings_view(out@) =~= before.push(last@));
        let want = spec_attributes_hint(ev, attrs@);
        assert(Seq::new(mv.len(), echo) =~= Seq::new(
            mv.len(),
            |k: int| "    echo '"@ + mv[k] + "' >> .gitattributes"@,
        ));
        assert(strings_view(out@) =~= want);
    }
    out
}

/// The note on `cfprefsd` that follows a fresh install on macOS.
pub open spec fn cfprefsd_lines() -> Seq<Seq<char>> {
    seq![
        Seq::<char>::empty(),
        "Note: macOS caches plist values in `cfprefsd`. After pulling"@,
        "plist changes from another machine, run:"@,
        "    killall cfprefsd"@,
        "to make running apps re-read their preferences. (No data loss;"@,
        "cfprefsd respawns immediately.)"@,
    ]
}

/// The `cfprefsd` note: its lines on macOS, nothing elsewhere.
pub fn cfprefsd_hint(on_macos: bool) -> (r: Vec<String>)
    ensures
        strings_view(r@) == (if on_macos {
            cfprefsd_lines()
        } else {
            Seq::<Seq<char>>::empty()
        }),
{
    let mut v: Vec<String> = Vec::new();
    if on_macos {
        v.push(String::new());
        v.push(String::from_str("Note: macOS caches plist values in `cfprefsd`. After pulling"));
        v.push(String::from_str("plist changes from another machine, run:"));
        v.push(String::from_str("    killall cfprefsd"));
        v.push(String::from_str("to make running apps re-read their preferences. (No data loss;"));
        v.push(String::from_str("cfprefsd respawns immediately.)"));
    }
    proof {
        assert(strings_view(v@) =~= (if on_macos {
            cfprefsd_lines()
        } else {
            Seq::<Seq<char>>::empty()
        }));
    }
    v
}

/// What the command runner returned for one `git` invocation.
#[derive(Debug)]
pub enum GitRun {
    /// The command ran to its end, with this exit code and output.
    Exited { exit_code: i32, stdout: String, stderr: String },
    /// The runner reported a failed command.
    CommandFailed { command: String, exit_code: i32, stderr: String },
    /// The runner failed otherwise (git missing, permissions, ...).
    Other { message: String },
}

/// A `git` invocation that the filter commands could not get past.
#[derive(Debug)]
pub enum GitError {
    CommandFailed { command: String, exit_code: i32, stderr: String },
    Other { message: String },
}

/// What the outcome of `git config --get filter.dodot-plist.clean` says
/// of the filter: `Some(installed)`, or `None` when the outcome is an
/// error to pass on.
pub open spec fn spec_installed_from(run: GitRun) -> Option<bool> {
    match run {
        GitRun::Exited { exit_code, stdout, .. } => Some(
            exit_code == 0 && trimmed(stdout@).len() > 0,
        ),
        GitRun::CommandFailed { exit_code, stderr, .. } => if exit_code == 1 || contains(
            stderr@,
            "not a git repository"@,
        ) {
            Some(false)
        } else {
            None
        },
        GitRun::Other { .. } => None,
    }
}

/// Whether the filter is registered in `.git/config`, read from the
/// outcome of `git -C <root> config --get filter.dodot-plist.clean`:
/// a missing key (exit code 1) and a directory that is no repository
/// both mean "not installed"; other failures are passed on.
pub fn is_installed(run: &GitRun) -> (r: Result<bool, GitError>)
    ensures
        match spec_installed_from(*run) {
            Some(b) => r == Ok::<bool, GitError>(b),
            None => r is Err,
        },
        match (run, r) {
            (GitRun::CommandFailed { command, exit_code, stderr }, Err(GitError::CommandFailed {
                command: c2,
                exit_code: e2,
                stderr: s2,
            })) => c2@ == command@ && e2 == exit_code && s2@ == stderr@,
            (GitRun::Other { message }, Err(GitError::Other { message: m2 })) => m2@ == message@,
            (_, Err(_)) => false,
            _ => true,
        },
{
    match run {
        GitRun::Exited { exit_code, stdout, .. } => {
            let out = chars_of(stdout.as_str());
            let t = trim_chars(out.as_slice());
            Ok(*exit_code == 0 && t.len() > 0)
        },
        GitRun::CommandFailed { command, exit_code, stderr } => {
            if *exit_code == 1 {
                return Ok(false);
            }
            let se = chars_of(stderr.as_str());
            let pat = chars_of("not a git repository");
            let found = find_from(se.as_slice(), pat.as_slice(), 0);
            proof {
                reveal_strlit("not a git repository");
            }
            match found {
                Some(_) => Ok(false),
                None => Err(
                    GitError::CommandFailed {
                        command: command.clone(),
                        exit_code: *exit_code,
                        stderr: stderr.clone(),
                    },
                ),
            }
        },
        GitRun::Other { message } => Err(GitError::Other { message: message.clone() }),
    }
}

/// The three `.git/config` settings that register the filter, as
/// (key, value) pairs in the order they are written.
pub open spec fn filter_settings() -> Seq<(Seq<char>, Seq<char>)> {
    seq![
        ("filter.dodot-plist.clean"@, "dodot plist clean"@),
        ("filter.dodot-plist.smudge"@, "dodot plist smudge"@),
        ("filter.dodot-plist.required"@, "true"@),
    ]
}

/// The settings that `git config` writes to register the filter.
pub fn filter_setting_list() -> (r: Vec<(String, String)>)
    ensures
        r@.len() == 3,
        forall|i: int|
            0 <= i < 3 ==> ((#[trigger] r@[i]).0@, r@[i].1@) == filter_settings()[i],
{
    let mut v: Vec<(String, String)> = Vec::new();
    v.push((String::from_str("filter.dodot-plist.clean"), String::from_str("dodot plist clean")));
    v.push((String::from_str("filter.dodot-plist.smudge"), String::from_str("dodot plist smudge")));
    v.push((String::from_str("filter.dodot-plist.required"), String::from_str("true")));
    v
}

/// The command line `git config` settings are reported under.
pub open spec fn config_set_command(root: Seq<char>, key: Seq<char>, value: Seq<char>) -> Seq<char> {
    "git -C "@ + root + " config "@ + key + " "@ + value
}

/// The outcome of `git -C <root> config <key> <value>`: a zero exit is
/// success; a non-zero exit, or a failure of the runner, is an error.
pub fn config_set_outcome(root: &str, key: &str, value: &str, run: &GitRun) -> (r: Result<
    (),
    GitError,
>)
    ensures
        match run {
            GitRun::Exited { exit_code, stderr, .. } => if exit_code == 0 {
                r is Ok
            } else {
                match r {
                    Err(GitError::CommandFailed { command, exit_code: e, stderr: s }) => command@
                        == config_set_command(root@, key@, value@) && e == exit_code && s@
                        == stderr@,
                    _ => false,
                }
            },
            GitRun::CommandFailed { command, exit_code, stderr } => match r {
                Err(GitError::CommandFailed { command: c, exit_code: e, stderr: s }) => c@
                    == command@ && e == exit_code && s@ == stderr@,
                _ => false,
            },
            GitRun::Other { message } => match r {
                Err(GitError::Other { message: m }) => m@ == message@,
                _ => false,
            },
        },
{
    match run {
        GitRun::Exited { exit_code, stderr, .. } => {
            if *exit_code == 0 {
                Ok(())
            } else {
                let mut c = chars_of("git -C ");
                push_str(&mut c, root);
                push_str(&mut c, " config ");
                push_str(&mut c, key);
                push_str(&mut c, " ");
                push_str(&mut c, value);
                let command = string_of(c.as_slice());
                proof {
                    assert(command@ =~= config_set_command(root@, key@, value@));
                }
                Err(GitError::CommandFailed { command, exit_code: *exit_code, stderr: stderr.clone() })
            }
        },
        GitRun::CommandFailed { command, exit_code, stderr } => Err(
            GitError::CommandFailed {
                command: command.clone(),
                exit_code: *exit_code,
                stderr: stderr.clone(),
            },
        ),
        GitRun::Other { message } => Err(GitError::Other { message: message.clone() }),
    }
}

/// The `.gitattributes` hint, or nothing when the configured extensions
/// could not be read.
pub open spec fn spec_hint_for(extensions: Option<Seq<Seq<char>>>, attrs: Seq<char>) -> Seq<
    Seq<char>,
> {
    match extensions {
        Some(e) => spec_attributes_hint(e, attrs),
        None => Seq::<Seq<char>>::empty(),
    }
}

pub open spec fn opt_strings_view(o: Option<Vec<String>>) -> Option<Seq<Seq<char>>> {
    match o {
        Some(v) => Some(strings_view(v@)),
        None => None,
    }
}

/// The plist extensions in force: the configured
/// `[symlink] plist_extensions`, or `plist` when none is configured.
pub fn plist_extensions(configured: Option<Vec<String>>) -> (r: Vec<String>)
    ensures
        match configured {
            Some(v) => r@ == v@,
            None => strings_view(r@) == seq!["plist"@],
        },
{
    match configured {
        Some(v) => v,
        None => {
            let v = vec![String::from_str("plist")];
            proof {
                assert(strings_view(v@) =~= seq!["plist"@]);
            }
            v
        },
    }
}

/// The `git config` settings `git-install-filters` writes, in order:
/// none when the filters are already installed, else the clean, smudge
/// and required settings of `filter_settings`.
pub fn filter_writes(already_installed: bool) -> (r: Vec<(String, String)>)
    ensures
        already_installed ==> r@.len() == 0,
        !already_installed ==> r@.len() == 3 && forall|i: int|
            0 <= i < 3 ==> ((#[trigger] r@[i]).0@, r@[i].1@) == filter_settings()[i],
{
    if already_installed {
        Vec::new()
    } else {
        filter_setting_list()
    }
}

/// What `dodot git-install-filters` reports once `.git/config` has been
/// looked at (and, when the filter was missing, written): with the
/// filter already present, that it was; otherwise where it was written,
/// then the `.gitattributes` hint and, on macOS, the `cfprefsd` note.
/// `extensions` is `None` when the configuration could not be read, and
/// `attrs` is the content of `.gitattributes` (empty when unreadable).
pub fn install_filters(
    root: &str,
    already_installed: bool,
    extensions: &Option<Vec<String>>,
    attrs: &str,
    on_macos: bool,
) -> (r: MessageResult)
    ensures
        already_installed ==> r.message@ == "Plist filters already installed in .git/config."@
            && strings_view(r.details@) == spec_hint_for(opt_strings_view(*extensions), attrs@),
        !already_installed ==> r.message@ == "Installed plist clean/smudge filters."@
            && strings_view(r.details@) == seq![
            "Wrote [filter \"dodot-plist\"] to "@ + root@ + "/.git/config"@,
        ] + spec_hint_for(opt_strings_view(*extensions), attrs@) + (if on_macos {
            cfprefsd_lines()
        } else {
            Seq::<Seq<char>>::empty()
        }),
{
    let hint = match extensions {
        Some(e) => gitattributes_hint(e.as_slice(), attrs),
        None => Vec::new(),
    };
    proof {
        if extensions is None {
            assert(strings_view(hint@) =~= Seq::<Seq<char>>::empty());
        }
    }
    if already_installed {
        return MessageResult {
            message: String::from_str("Plist filters already installed in .git/config."),
            details: hint,
        };
    }
    let mut w = chars_of("Wrote [filter \"dodot-plist\"] to ");
    push_str(&mut w, root);
    push_str(&mut w, "/.git/config");
    let mut details: Vec<String> = Vec::new();
    details.push(string_of(w.as_slice()));
    let ghost d0 = strings_view(details@);
    let mut hint = hint;
    let ghost hv = strings_view(hint@);
    details.append(&mut hint);
    let ghost d1 = strings_view(details@);
    proof {
        assert(d1 =~= d0 + hv);
    }
    let mut note = cfprefsd_hint(on_macos);
    let ghost nv = strings_view(note@);
    details.append(&mut note);
    proof {
        assert(strings_view(details@) =~= d1 + nv);
    }
    MessageResult { message: String::from_str("Installed plist clean/smudge filters."), details }
}

/// What `dodot git-show-filters` reports.
pub struct ShowFiltersResult {
    pub config_block: String,
    pub config_block_lines: Vec<String>,
    /// One line per configured plist extension.
    pub gitattributes_lines: Vec<String>,
    pub installed_in_git_config: bool,
    pub bound_in_gitattributes: bool,
    pub repo_root: String,
}

/// Every configured extension's line is bound in `.gitattributes`, and
/// there is at least one.
pub open spec fn spec_all_bound(extensions: Seq<Seq<char>>, attrs: Seq<char>) -> bool {
    extensions.len() > 0 && forall|i: int|
        0 <= i < extensions.len() ==> any_line_matches(attrs, attributes_line(#[trigger] extensions[i]))
}

/// The `.git/config` and `.gitattributes` snippets, without writing
/// anything, with whether each is already in place. `installed` comes
/// from `is_installed`, `attrs` is the content of `.gitattributes`
/// (empty when unreadable).
pub fn show_filters(root: &str, installed: bool, extensions: &[String], attrs: &str) -> (r:
    ShowFiltersResult)
    ensures
        r.config_block@ == join_with(config_block_lines(), "\n"@),
        strings_view(r.config_block_lines@) == config_block_lines(),
        r.gitattributes_lines@.len() == extensions@.len(),
        forall|i: int|
            0 <= i < extensions@.len() ==> (#[trigger] r.gitattributes_lines@[i])@ == attributes_line(
                extensions@[i]@,
            ),
        r.installed_in_git_config == installed,
        r.bound_in_gitattributes == spec_all_bound(strings_view(extensions@), attrs@),
        r.repo_root@ == root@,
{
    let lines = gitattributes_lines(extensions);
    let mut all = lines.len() > 0;
    let mut i: usize = 0;
    while i < lines.len() && all
        invariant
            i <= lines@.len(),
            lines@.len() == extensions@.len(),
            forall|k: int|
                0 <= k < extensions@.len() ==> (#[trigger] lines@[k])@ == attributes_line(
                    extensions@[k]@,
                ),
            all == (lines@.len() > 0 && forall|k: int|
                0 <= k < i ==> any_line_matches(attrs@, attributes_line(extensions@[k]@))),
        decreases lines.len() - i,
    {
        if !any_line_matches_exec(attrs, lines[i].as_str()) {
            all = false;
        }
        i = i + 1;
    }
    proof {
        let ev = strings_view(extensions@);
        if all {
            assert forall|k: int| 0 <= k < ev.len() implies any_line_matches(
                attrs@,
                attributes_line(#[trigger] ev[k]),
            ) by {
                assert(ev[k] == extensions@[k]@);
            }
        } else if lines@.len() > 0 {
            let k = choose|k: int|
                0 <= k < i && !any_line_matches(attrs@, attributes_line(extensions@[k]@));
            assert(ev[k] == extensions@[k]@);
        }
    }
    ShowFiltersResult {
        config_block: config_block_text(),
        config_block_lines: config_block_line_list(),
        gitattributes_lines: lines,
        installed_in_git_config: installed,
        bound_in_gitattributes: all,
        repo_root: String::from_str(root),
    }
}

/// One active pack as the walk found it: its directory, the plist
/// extensions its configuration names, and the files below it (paths
/// relative to the pack directory).
pub struct PackScan {
    pub path: String,
    pub extensions: Vec<String>,
    pub files: Vec<String>,
}

/// A plain view of a `PackScan`.
pub open spec fn pack_scan_view(p: PackScan) -> (Seq<char>, Seq<Seq<char>>, Seq<Seq<char>>) {
    (p.path@, strings_view(p.extensions@), strings_view(p.files@))
}

/// Some directory on the way to `rel` (not the file itself) is a
/// dot-directory, which the scan does not enter.
pub open spec fn under_dot_dir(rel: Seq<char>) -> bool {
    let cs = crate::paths::components(rel);
    exists|k: int| 0 <= k < cs.len() - 1 && (#[trigger] cs[k]).len() > 0 && cs[k][0] == '.'
}

/// `ext` equals one of the configured extensions, ignoring ASCII case.
pub open spec fn ext_configured(ext: Seq<char>, extensions: Seq<Seq<char>>) -> bool {
    exists|j: int|
        0 <= j < extensions.len() && lowercase(#[trigger] extensions[j]) == lowercase(ext)
}

/// A file the scan reports: outside dot-directories, with a configured
/// extension.
pub open spec fn is_detected(rel: Seq<char>, extensions: Seq<Seq<char>>) -> bool {
    !under_dot_dir(rel) && match extension(rel) {
        Some(e) => ext_configured(e, extensions),
        None => false,
    }
}

/// The reported files of one pack, joined to the pack directory, in
/// walk order.
pub open spec fn detected_in(pack: Seq<char>, extensions: Seq<Seq<char>>, files: Seq<Seq<char>>) -> Seq<
    Seq<char>,
>
    decreases files.len(),
{
    if files.len() == 0 {
        Seq::<Seq<char>>::empty()
    } else {
        let prev = detected_in(pack, extensions, files.drop_last());
        if is_detected(files.last(), extensions) {
            prev.push(path_join(pack, files.last()))
        } else {
            prev
        }
    }
}

/// The reported files of all packs, pack by pack.
pub open spec fn spec_detect(packs: Seq<(Seq<char>, Seq<Seq<char>>, Seq<Seq<char>>)>) -> Seq<
    Seq<char>,
>
    decreases packs.len(),
{
    if packs.len() == 0 {
        Seq::<Seq<char>>::empty()
    } else {
        let (p, e, f) = packs.last();
        spec_detect(packs.drop_last()) + detected_in(p, e, f)
    }
}

fn under_dot_dir_exec(rel: &str) -> (r: bool)
    ensures
        r == under_dot_dir(rel@),
{
    let v = chars_of(rel);
    let cs = crate::paths::components_of(v.as_slice());
    let ghost cv = cs.deep_view();
    if cs.len() == 0 {
        return false;
    }
    let mut k: usize = 0;
    while k + 1 < cs.len()
        invariant
            cv == cs.deep_view(),
            cv == crate::paths::components(rel@),
            cs.len() >= 1,
            k + 1 <= cs.len(),
            forall|m: int| 0 <= m < k ==> !((#[trigger] cv[m]).len() > 0 && cv[m][0] == '.'),
        decreases cs.len() - k,
    {
        proof {
            assert(cv[k as int] =~= cs[k as int]@);
        }
        if cs[k].len() > 0 && cs[k][0] == '.' {
            return true;
        }
        k = k + 1;
    }
    false
}

/// Whether `a` and `b` are equal ignoring ASCII case
/// (`str::eq_ignore_ascii_case`).
pub fn eq_ignore_case(a: &[char], b: &[char]) -> (r: bool)
    ensures
        r == (lowercase(a@) == lowercase(b@)),
{
    if a.len() != b.len() {
        proof {
            assert(lowercase(a@).len() != lowercase(b@).len());
        }
        return false;
    }
    let mut i: usize = 0;
    while i < a.len()
        invariant
            a.len() == b.len(),
            i <= a.len(),
            forall|j: int| 0 <= j < i ==> ascii_lower(a@[j]) == ascii_lower(b@[j]),
        decreases a.len() - i,
    {
        if fold_char(a[i]) != fold_char(b[i]) {
            proof {
                assert(lowercase(a@)[i as int] != lowercase(b@)[i as int]);
            }
            return false;
        }
        i = i + 1;
    }
    proof {
        assert(lowercase(a@) =~= lowercase(b@));
    }
    true
}

fn fold_char(c: char) -> (r: u32)
    ensures
        r == ascii_lower(c) as u32,
{
    if 'A' <= c && c <= 'Z' {
        (c as u32) + 32
    } else {
        c as u32
    }
}

fn is_detected_exec(rel: &str, extensions: &[String]) -> (r: bool)
    ensures
        r == is_detected(rel@, strings_view(extensions@)),
{
    if under_dot_dir_exec(rel) {
        return false;
    }
    let e = match extension_of(rel) {
        Some(e) => e,
        None => return false,
    };
    let ghost ev = strings_view(extensions@);
    let mut j: usize = 0;
    while j < extensions.len()
        invariant
            j <= extensions@.len(),
            ev == strings_view(extensions@),
            !under_dot_dir(rel@),
            extension(rel@) == Some(e@),
            forall|m: int| 0 <= m < j ==> lowercase(#[trigger] ev[m]) != lowercase(e@),
        decreases extensions.len() - j,
    {
        let c = chars_of(extensions[j].as_str());
        if eq_ignore_case(c.as_slice(), e.as_slice()) {
            proof {
                assert(lowercase(ev[j as int]) == lowercase(e@));
            }
            return true;
        }
        j = j + 1;
    }
    false
}

/// The files among the walked packs that call for the filter prompt: any
/// file with a configured plist extension (ignoring ASCII case) that
/// does not lie inside a dot-directory of its pack, as the pack
/// directory joined with its relative path, in walk order.
pub fn detect_plist_files(packs: &[PackScan]) -> (r: Vec<String>)
    ensures
        strings_view(r@) == spec_detect(Seq::new(packs@.len(), |i: int| pack_scan_view(packs@[i]))),
{
    let ghost pv = Seq::new(packs@.len(), |i: int| pack_scan_view(packs@[i]));
    let mut found: Vec<String> = Vec::new();
    let mut i: usize = 0;
    proof {
        assert(pv.take(0) =~= Seq::<(Seq<char>, Seq<Seq<char>>, Seq<Seq<char>>)>::empty());
        assert(strings_view(found@) =~= Seq::<Seq<char>>::empty());
    }
    while i < packs.len()
        invariant
            i <= packs@.len(),
            pv == Seq::new(packs@.len(), |i: int| pack_scan_view(packs@[i])),
            strings_view(found@) == spec_detect(pv.take(i as int)),
        decreases packs.len() - i,
    {
        let pack = &packs[i];
        let ghost base = strings_view(found@);
        let ghost fv = strings_view(pack.files@);
        let ghost ev = strings_view(pack.extensions@);
        let mut j: usize = 0;
        proof {
            assert(fv.take(0) =~= Seq::<Seq<char>>::empty());
            assert(base + detected_in(pack.path@, ev, fv.take(0)) =~= base);
        }
        while j < pack.files.len()
            invariant
                j <= pack.files@.len(),
                fv == strings_view(pack.files@),
                ev == strings_view(pack.extensions@),
                strings_view(found@) == base + detected_in(pack.path@, ev, fv.take(j as int)),
            decreases pack.files.len() - j,
        {
            let ghost before = strings_view(found@);
            proof {
                assert(fv.take(j + 1).drop_last() =~= fv.take(j as int));
                assert(fv.take(j + 1).last() == pack.files@[j as int]@);
            }
            if is_detected_exec(pack.files[j].as_str(), pack.extensions.as_slice()) {
                let full = crate::paths::path_join_exec(pack.path.as_str(), pack.files[j].as_str());
                found.push(full);
                proof {
                    assert(strings_view(found@) =~= before.push(full@));
                }
            }
            j = j + 1;
        }
        proof {
            assert(fv.take(fv.len() as int) =~= fv);
            assert(pv.take(i + 1).drop_last() =~= pv.take(i as int));
            assert(pv.take(i + 1).last() == pack_scan_view(packs@[i as int]));
        }
        i = i + 1;
    }
    proof {
        assert(pv.take(pv.len() as int) =~= pv);
    }
    found
}

/// What `git-show-filters` calls bound is what `git-install-filters`
/// has no hint for: every configured extension is bound in
/// `.gitattributes` exactly when there is at least one and the hint is
/// empty.
pub proof fn law_bound_iff_no_hint(extensions: Seq<Seq<char>>, attrs: Seq<char>)
    ensures
        spec_all_bound(extensions, attrs) <==> (extensions.len() > 0 && spec_attributes_hint(
            extensions,
            attrs,
        ).len() == 0),
{
    let expected = Seq::new(extensions.len(), |i: int| attributes_line(extensions[i]));
    let keep = |l: Seq<char>| !any_line_matches(attrs, l);
    let missing = expected.filter(keep);
    assert(missing_lines(expected, attrs) == missing);
    if spec_all_bound(extensions, attrs) {
        if missing.len() > 0 {
            broadcast use vstd::seq_lib::group_filter_ensures;

            assert(keep(missing[0]));
            expected.lemma_filter_contains_rev(keep, missing[0]);
            let j = choose|j: int| 0 <= j < expected.len() && expected[j] == missing[0];
            assert(any_line_matches(attrs, attributes_line(extensions[j])));
        }
    }
    if extensions.len() > 0 && missing.len() == 0 {
        assert forall|i: int| 0 <= i < extensions.len() implies any_line_matches(
            attrs,
            attributes_line(#[trigger] extensions[i]),
        ) by {
            if !any_line_matches(attrs, attributes_line(extensions[i])) {
                assert(expected[i] == attributes_line(extensions[i]));
                expected.lemma_filter_contains(keep, i);
            }
        }
    }
    if missing.len() > 0 {
        assert(spec_attributes_hint(extensions, attrs).len() > 0);
    }
}

} // verus!
