//! `dodot install`: wiring dodot into shell startup. The command names
//! the shell and the rc file and shows the hook line; with `--write` it
//! puts the marked block there. This module holds its decisions: when
//! it refuses, when the macOS bash chain is written, the notes, and the
//! report. Resolving the rc file, writing blocks and measuring the
//! activation happen around it.

use vstd::prelude::*;
use crate::paths::{path_join, same_path};
use crate::text::{chars_of, push_str, string_of};

verus! {

/// What the caller asked for.
#[derive(Debug)]
pub struct InstallOptions {
    /// Write the marked block (and then verify); without it the command
    /// only reports.
    pub write: bool,
    /// `--rc <file>`: bypasses the rc-file ladder.
    pub rc: Option<String>,
}

/// A shell dodot knows an rc file for.
#[derive(Debug, Clone, Copy, PartialEq, Eq, Structural)]
pub enum HookupShell {
    Bash,
    Zsh,
}

impl HookupShell {
    pub open spec fn spec_name(self) -> Seq<char> {
        match self {
            HookupShell::Bash => "bash"@,
            HookupShell::Zsh => "zsh"@,
        }
    }

    /// The shell's name.
    pub fn as_str(&self) -> (r: &'static str)
        ensures
            r@ == self.spec_name(),
    {
        match self {
            HookupShell::Bash => "bash",
            HookupShell::Zsh => "zsh",
        }
    }
}

/// Everything `dodot install` reports, dry or written.
#[derive(Debug)]
pub struct InstallResult {
    /// The detected shell, or `None` when only `--rc` made the run
    /// possible.
    pub shell: Option<String>,
    /// The rc file, `~/`-relative for display.
    pub rc_path: String,
    /// When the rc file is a symlink: the path the ladder picked.
    pub rc_link_source: Option<String>,
    /// Whether the rc file exists after this run.
    pub rc_exists: bool,
    /// How the hook is wired in the file now: `managed-block`, `manual`
    /// or `absent`.
    pub hook_presence: String,
    /// The exact line dodot writes.
    pub hook_line: String,
    /// Whether this run wrote to disk.
    pub wrote: bool,
    /// What the write did; `None` on a dry run.
    pub outcome: Option<String>,
    /// What was done or noticed along the way.
    pub notes: Vec<String>,
    /// The activation verdict, when there is one.
    pub shell_hookup: Option<String>,
}

/// The refusal for a shell dodot has no rc file for.
pub open spec fn spec_refusal(shell: Option<Seq<char>>, hook_line: Seq<char>) -> Seq<char> {
    let named = match shell {
        Some(s) => if s.len() > 0 {
            "your shell ("@ + s + ")"@
        } else {
            "your shell ($SHELL is not set)"@
        },
        None => "your shell ($SHELL is not set)"@,
    };
    "dodot can wire up bash and zsh; it will not guess an rc file for "@ + named
        + ". Add this line to whatever file your shell reads at startup: "@ + hook_line
        + " — or point dodot at it with `dodot install --write --rc <file>`."@
}

pub open spec fn opt_str_view(o: Option<&str>) -> Option<Seq<char>> {
    match o {
        Some(s) => Some(s@),
        None => None,
    }
}

/// The refusal for a shell (`$SHELL`, when set) that dodot has no rc
/// file for; it carries the hook line and points at `--rc`.
pub fn refusal(shell: Option<&str>, hook_line: &str) -> (r: String)
    ensures
        r@ == spec_refusal(opt_str_view(shell), hook_line@),
{
    let mut v = chars_of("dodot can wire up bash and zsh; it will not guess an rc file for ");
    let named_shell = match shell {
        Some(s) => {
            let sv = chars_of(s);
            if sv.len() > 0 {
                Some(s)
            } else {
                None
            }
        },
        None => None,
    };
    match named_shell {
        Some(s) => {
            push_str(&mut v, "your shell (");
            push_str(&mut v, s);
            push_str(&mut v, ")");
        },
        None => {
            push_str(&mut v, "your shell ($SHELL is not set)");
        },
    }
    push_str(&mut v, ". Add this line to whatever file your shell reads at startup: ");
    push_str(&mut v, hook_line);
    push_str(&mut v, " — or point dodot at it with `dodot install --write --rc <file>`.");
    let r = string_of(v.as_slice());
    proof {
        assert(r@ =~= spec_refusal(opt_str_view(shell), hook_line@));
    }
    r
}

/// After writing the hook into the rc file: whether the macOS bash chain
/// (`~/.bash_profile` sourcing `~/.bashrc`) is written too. Only for
/// bash on macOS, and only when the ladder itself chose `~/.bashrc`
/// (an `--rc` override, or any other file, gets no chain).
pub open spec fn spec_wants_bash_chain(
    shell: Option<HookupShell>,
    os: Seq<char>,
    nominal: Seq<char>,
    home: Seq<char>,
) -> bool {
    shell == Some(HookupShell::Bash) && os == "darwin"@ && same_path(
        nominal,
        path_join(home, ".bashrc"@),
    )
}

/// Whether the macOS bash chain goes with this write.
pub fn wants_bash_chain(shell: Option<HookupShell>, os: &str, nominal: &str, home: &str) -> (r: bool)
    ensures
        r == spec_wants_bash_chain(shell, os@, nominal@, home@),
{
    if shell != Some(HookupShell::Bash) {
        return false;
    }
    let o = chars_of(os);
    let d = chars_of("darwin");
    if !crate::text::chars_eq(o.as_slice(), d.as_slice()) {
        return false;
    }
    let bashrc = crate::paths::path_join_exec(home, ".bashrc");
    same_path_exec(nominal, bashrc.as_str())
}

/// Whether two paths are the same, component for component.
pub fn same_path_exec(a: &str, b: &str) -> (r: bool)
    ensures
        r == same_path(a@, b@),
{
    let av = chars_of(a);
    let bv = chars_of(b);
    let ac = crate::paths::components_of(av.as_slice());
    let bc = crate::paths::components_of(bv.as_slice());
    crate::paths::is_absolute_exec(av.as_slice()) == crate::paths::is_absolute_exec(bv.as_slice())
        && crate::paths::comps_eq(&ac, &bc)
}

/// The chain goes into `profile` unless that is the very file the hook
/// was just written to (their markers would collide).
pub fn chain_into(profile: &str, written: &str) -> (r: bool)
    ensures
        r == !same_path(profile@, written@),
{
    !same_path_exec(profile, written)
}

/// The note for an rc file the write created.
pub fn created_note(rc_display: &str) -> (r: String)
    ensures
        r@ == "created "@ + rc_display@,
{
    let mut v = chars_of("created ");
    push_str(&mut v, rc_display);
    string_of(v.as_slice())
}

/// The note for the macOS bash chain written into `profile_display`.
pub fn chain_note(profile_display: &str) -> (r: String)
    ensures
        r@ == "macOS opens login shells: chained "@ + profile_display@ + " to ~/.bashrc"@,
{
    let mut v = chars_of("macOS opens login shells: chained ");
    push_str(&mut v, profile_display);
    push_str(&mut v, " to ~/.bashrc");
    string_of(v.as_slice())
}

/// Whether the run can go ahead: a detected shell or an `--rc` file is
/// needed; without either the refusal comes back.
pub fn check_hookup(
    shell: Option<HookupShell>,
    opts: &InstallOptions,
    shell_var: Option<&str>,
    hook_line: &str,
) -> (r: Result<(), String>)
    ensures
        r is Ok <==> (shell is Some || opts.rc is Some),
        match r {
            Err(m) => m@ == spec_refusal(opt_str_view(shell_var), hook_line@),
            Ok(_) => true,
        },
{
    if shell.is_none() && opts.rc.is_none() {
        Err(refusal(shell_var, hook_line))
    } else {
        Ok(())
    }
}

/// What the rc file looks like after the run, as the caller found it.
#[derive(Debug)]
pub struct RcState {
    /// The rc file, `~/`-relative.
    pub path_display: String,
    /// The ladder's pick before symlink resolution, `~/`-relative.
    pub link_source_display: Option<String>,
    /// Whether the file existed before the run.
    pub existed: bool,
    /// `managed-block`, `manual` or `absent`, read after any write.
    pub presence: String,
}

/// The report of `dodot install`: the shell, the rc file as it stands
/// after the run (it exists when it did before or was just written),
/// the hook line, whether and how it was written, the notes and the
/// activation verdict. Refused as `check_hookup` says. A written run
/// has the write's outcome (`outcome` is given exactly then); a run
/// that only shows has none.
pub fn install(
    opts: &InstallOptions,
    shell: Option<HookupShell>,
    shell_var: Option<&str>,
    hook_line: String,
    rc: RcState,
    outcome: Option<String>,
    notes: Vec<String>,
    shell_hookup: Option<String>,
) -> (r: Result<InstallResult, String>)
    requires
        opts.write ==> outcome is Some,
    ensures
        r is Ok <==> (shell is Some || opts.rc is Some),
        match r {
            Err(m) => m@ == spec_refusal(opt_str_view(shell_var), hook_line@),
            Ok(res) => {
                &&& match shell {
                    Some(s) => res.shell matches Some(n) && n@ == s.spec_name(),
                    None => res.shell is None,
                }
                &&& res.rc_path@ == rc.path_display@
                &&& res.rc_link_source == rc.link_source_display
                &&& res.rc_exists == (rc.existed || opts.write)
                &&& res.hook_presence@ == rc.presence@
                &&& res.hook_line@ == hook_line@
                &&& res.wrote == opts.write
                &&& (res.outcome is Some <==> opts.write)
                &&& res.outcome == (if opts.write {
                    outcome
                } else {
                    None
                })
                &&& res.notes == notes
                &&& res.shell_hookup == shell_hookup
            },
        },
{
    match check_hookup(shell, opts, shell_var, hook_line.as_str()) {
        Err(m) => return Err(m),
        Ok(_) => {},
    }
    let shell_name = match shell {
        Some(s) => Some(String::from_str(s.as_str())),
        None => None,
    };
    Ok(
        InstallResult {
            shell: shell_name,
            rc_path: rc.path_display,
            rc_link_source: rc.link_source_display,
            rc_exists: rc.existed || opts.write,
            hook_presence: rc.presence,
            hook_line,
            wrote: opts.write,
            outcome: if opts.write {
                outcome
            } else {
                None
            },
            notes,
            shell_hookup,
        },
    )
}

// ── The activation verdict ──────────────────────────────────────────

/// How the activation verdict after an install is reached.
#[derive(Debug, Clone, Copy, PartialEq, Eq, Structural)]
pub struct VerdictPlan {
    /// Spawn the configured shell probe against the state just written.
    pub measure: bool,
    /// Count this terminal's missing activation stamp as evidence.
    pub session_signal: bool,
}

/// A written install with a probe timeout configured and an init script
/// on disk is measured; anything else reports the evidence it can read
/// for free. The session signal counts only where no spawn replaces it.
pub fn verdict_plan(write: bool, probe_configured: bool, script_exists: bool, tty: bool) -> (r:
    VerdictPlan)
    ensures
        r.measure == (write && probe_configured && script_exists),
        r.session_signal == (tty && !r.measure),
{
    let measure = write && probe_configured && script_exists;
    VerdictPlan { measure, session_signal: tty && !measure }
}

} // verus!
