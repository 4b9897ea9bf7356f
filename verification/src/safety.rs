//! Safety Lock's decisions at the process boundary: what each command
//! does to the dotfiles root, which root an invocation resolves to,
//! how a typed approval is read, and the words of every refusal.
//!
//! Reading the environment, running `git`, canonicalising paths and
//! prompting on a terminal happen around this module; it takes their
//! outcomes as plain values.

use vstd::prelude::*;
use crate::interactive::lower_ascii;
use crate::text::{chars_eq, chars_of, lowercase, push_str, string_of, trim_chars, trimmed};

verus! {

/// What Safety Lock is asked to allow.
#[derive(Debug, Clone, Copy, PartialEq, Eq, Structural)]
pub enum RootOperation {
    /// Reads the root.
    ReadOnly,
    /// Previews a mutation.
    DryRun,
    /// Mutates targets the root selects: needs a trusted root.
    RootSensitiveMutation,
    /// Mutates something the root did not select.
    RootIndependentMutation,
}

impl RootOperation {
    /// Only a root-sensitive mutation needs a trusted root.
    pub fn requires_trusted_root(&self) -> (r: bool)
        ensures
            r == (*self == RootOperation::RootSensitiveMutation),
    {
        match self {
            RootOperation::RootSensitiveMutation => true,
            _ => false,
        }
    }
}

/// How a command relates to the resolved dotfiles root.
#[derive(Debug, Clone, Copy)]
pub enum RootSensitivity {
    /// A mutation whose targets the root selects; gated, unless the
    /// invocation set the named preview flag.
    Mutating { preview_flag: Option<&'static str> },
    /// Reads the root and writes nothing derived from it.
    ReadOnly,
    /// Mutates something the root did not select.
    RootIndependent,
    /// Takes no dotfiles root at all.
    Rootless,
}

/// A sensitivity as plain values.
pub enum SensitivityView {
    Mutating(Option<Seq<char>>),
    ReadOnly,
    RootIndependent,
    Rootless,
}

pub open spec fn sensitivity_view(s: RootSensitivity) -> SensitivityView {
    match s {
        RootSensitivity::Mutating { preview_flag } => SensitivityView::Mutating(
            match preview_flag {
                Some(f) => Some(f@),
                None => None,
            },
        ),
        RootSensitivity::ReadOnly => SensitivityView::ReadOnly,
        RootSensitivity::RootIndependent => SensitivityView::RootIndependent,
        RootSensitivity::Rootless => SensitivityView::Rootless,
    }
}

/// Safety Lock's view of an invocation: a mutation is a preview exactly
/// when it has a preview flag and that flag was set.
pub open spec fn spec_operation(s: SensitivityView, preview_set: bool) -> RootOperation {
    match s {
        SensitivityView::Mutating(flag) => if flag is Some && preview_set {
            RootOperation::DryRun
        } else {
            RootOperation::RootSensitiveMutation
        },
        SensitivityView::ReadOnly => RootOperation::ReadOnly,
        SensitivityView::RootIndependent => RootOperation::RootIndependentMutation,
        SensitivityView::Rootless => RootOperation::RootIndependentMutation,
    }
}

/// A mutation with no preview.
pub fn mutates() -> (r: RootSensitivity)
    ensures
        sensitivity_view(r) == SensitivityView::Mutating(None),
{
    RootSensitivity::Mutating { preview_flag: None }
}

/// A mutation that `--dry-run` turns into a preview.
pub fn mutates_or_previews() -> (r: RootSensitivity)
    ensures
        sensitivity_view(r) == SensitivityView::Mutating(Some("dry-run"@)),
{
    RootSensitivity::Mutating { preview_flag: Some("dry-run") }
}

impl RootSensitivity {
    /// The flag that turns this command into a preview, if any.
    pub fn preview_flag(&self) -> (r: Option<&'static str>)
        ensures
            match sensitivity_view(*self) {
                SensitivityView::Mutating(f) => match (f, r) {
                    (Some(a), Some(b)) => a == b@,
                    (None, None) => true,
                    _ => false,
                },
                _ => r is None,
            },
    {
        match self {
            RootSensitivity::Mutating { preview_flag } => *preview_flag,
            _ => None,
        }
    }

    /// Safety Lock's view of this invocation; `preview_set` is whether the
    /// command's preview flag (if it has one) was given.
    pub fn operation(&self, preview_set: bool) -> (r: RootOperation)
        ensures
            r == spec_operation(sensitivity_view(*self), preview_set),
    {
        match self {
            RootSensitivity::Mutating { preview_flag } => if preview_flag.is_some() && preview_set {
                RootOperation::DryRun
            } else {
                RootOperation::RootSensitiveMutation
            },
            RootSensitivity::ReadOnly => RootOperation::ReadOnly,
            RootSensitivity::RootIndependent => RootOperation::RootIndependentMutation,
            RootSensitivity::Rootless => RootOperation::RootIndependentMutation,
        }
    }

    /// Whether the invocation resolves a dotfiles root at all.
    pub fn resolves_root(&self) -> (r: bool)
        ensures
            r == !(sensitivity_view(*self) is Rootless),
    {
        match self {
            RootSensitivity::Rootless => false,
            _ => true,
        }
    }
}

/// What every dispatched command does to the resolved dotfiles root,
/// keyed by dotted command path.
pub open spec fn sensitivity_table() -> Seq<(Seq<char>, SensitivityView)> {
    let m = SensitivityView::Mutating(None);
    let mp = SensitivityView::Mutating(Some("dry-run"@));
    seq![
        ("up"@, mp),
        ("down"@, mp),
        ("adopt"@, mp),
        ("init"@, m),
        ("fill"@, m),
        ("addignore"@, m),
        ("git-install-filters"@, m),
        ("template.install-filter"@, m),
        ("transform.install-hook"@, m),
        ("refresh"@, SensitivityView::Mutating(Some("list-paths"@))),
        ("transform.check"@, mp),
        ("status"@, SensitivityView::ReadOnly),
        ("list"@, SensitivityView::ReadOnly),
        ("probe"@, SensitivityView::ReadOnly),
        ("probe.deployment-map"@, SensitivityView::ReadOnly),
        ("probe.show-data-dir"@, SensitivityView::ReadOnly),
        ("probe.shell-init"@, SensitivityView::ReadOnly),
        ("probe.app"@, SensitivityView::ReadOnly),
        ("git-show-filters"@, SensitivityView::ReadOnly),
        ("git-show-alias"@, SensitivityView::ReadOnly),
        ("transform.status"@, SensitivityView::ReadOnly),
        ("secret.probe"@, SensitivityView::ReadOnly),
        ("secret.list"@, SensitivityView::ReadOnly),
        ("prompts.list"@, SensitivityView::ReadOnly),
        ("install"@, SensitivityView::RootIndependent),
        ("git-install-alias"@, SensitivityView::RootIndependent),
        ("prompts.reset"@, SensitivityView::RootIndependent),
        ("reset"@, SensitivityView::RootIndependent),
        ("roots.list"@, SensitivityView::Rootless),
        ("roots.forget"@, SensitivityView::Rootless),
    ]
}

/// The declared sensitivities, in table order.
pub fn command_sensitivity() -> (r: Vec<(&'static str, RootSensitivity)>)
    ensures
        r@.len() == sensitivity_table().len(),
        forall|i: int|
            0 <= i < r@.len() ==> ((#[trigger] r@[i]).0@, sensitivity_view(r@[i].1))
                == sensitivity_table()[i],
{
    let ro = RootSensitivity::ReadOnly;
    let ri = RootSensitivity::RootIndependent;
    let rl = RootSensitivity::Rootless;
    let v: Vec<(&'static str, RootSensitivity)> = vec![
        ("up", mutates_or_previews()),
        ("down", mutates_or_previews()),
        ("adopt", mutates_or_previews()),
        ("init", mutates()),
        ("fill", mutates()),
        ("addignore", mutates()),
        ("git-install-filters", mutates()),
        ("template.install-filter", mutates()),
        ("transform.install-hook", mutates()),
        ("refresh", RootSensitivity::Mutating { preview_flag: Some("list-paths") }),
        ("transform.check", mutates_or_previews()),
        ("status", ro),
        ("list", ro),
        ("probe", ro),
        ("probe.deployment-map", ro),
        ("probe.show-data-dir", ro),
        ("probe.shell-init", ro),
        ("probe.app", ro),
        ("git-show-filters", ro),
        ("git-show-alias", ro),
        ("transform.status", ro),
        ("secret.probe", ro),
        ("secret.list", ro),
        ("prompts.list", ro),
        ("install", ri),
        ("git-install-alias", ri),
        ("prompts.reset", ri),
        ("reset", ri),
        ("roots.list", rl),
        ("roots.forget", rl),
    ];
    proof {
        assert forall|i: int| 0 <= i < v@.len() implies ((#[trigger] v@[i]).0@, sensitivity_view(
            v@[i].1,
        )) == sensitivity_table()[i] by {}
    }
    v
}

/// The table is unambiguous: no command path is declared twice.
pub proof fn law_each_command_declared_once()
    ensures
        forall|i: int, j: int|
            0 <= i < j < sensitivity_table().len() ==> (#[trigger] sensitivity_table()[i]).0
                != (#[trigger] sensitivity_table()[j]).0,
{
    let t = sensitivity_table();
    assert forall|i: int, j: int| 0 <= i < j < t.len() implies (#[trigger] t[i]).0 != (
    #[trigger] t[j]).0 by {
        reveal_strlit("up");
        reveal_strlit("down");
        reveal_strlit("adopt");
        reveal_strlit("init");
        reveal_strlit("fill");
        reveal_strlit("addignore");
        reveal_strlit("git-install-filters");
        reveal_strlit("template.install-filter");
        reveal_strlit("transform.install-hook");
        reveal_strlit("refresh");
        reveal_strlit("transform.check");
        reveal_strlit("status");
        reveal_strlit("list");
        reveal_strlit("probe");
        reveal_strlit("probe.deployment-map");
        reveal_strlit("probe.show-data-dir");
        reveal_strlit("probe.shell-init");
        reveal_strlit("probe.app");
        reveal_strlit("git-show-filters");
        reveal_strlit("git-show-alias");
        reveal_strlit("transform.status");
        reveal_strlit("secret.probe");
        reveal_strlit("secret.list");
        reveal_strlit("prompts.list");
        reveal_strlit("install");
        reveal_strlit("git-install-alias");
        reveal_strlit("prompts.reset");
        reveal_strlit("reset");
        reveal_strlit("roots.list");
        reveal_strlit("roots.forget");
        if t[i].0 == t[j].0 {
            assert(t[i].0.len() == t[j].0.len());
            assert(t[i].0[0] == t[j].0[0]);
        }
    }
}

/// The declared sensitivity of a command path; `None` for a command
/// the table does not declare, which then gets no root at all.
pub fn sensitivity_of(path: &str) -> (r: Option<RootSensitivity>)
    ensures
        match r {
            Some(s) => exists|i: int|
                0 <= i < sensitivity_table().len() && (#[trigger] sensitivity_table()[i]).0 == path@
                    && sensitivity_table()[i].1 == sensitivity_view(s),
            None => forall|i: int|
                0 <= i < sensitivity_table().len() ==> (#[trigger] sensitivity_table()[i]).0 != path@,
        },
{
    let table = command_sensitivity();
    let p = chars_of(path);
    let mut i: usize = 0;
    while i < table.len()
        invariant
            i <= table@.len(),
            table@.len() == sensitivity_table().len(),
            forall|k: int|
                0 <= k < table@.len() ==> ((#[trigger] table@[k]).0@, sensitivity_view(table@[k].1))
                    == sensitivity_table()[k],
            p@ == path@,
            forall|k: int| 0 <= k < i ==> (#[trigger] sensitivity_table()[k]).0 != path@,
        decreases table.len() - i,
    {
        let k = chars_of(table[i].0);
        if chars_eq(k.as_slice(), p.as_slice()) {
            proof {
                assert(table@[i as int].0@ == sensitivity_table()[i as int].0);
            }
            return Some(table[i].1);
        }
        proof {
            assert(table@[i as int].0@ == sensitivity_table()[i as int].0);
        }
        i = i + 1;
    }
    None
}

/// Which input selected the dotfiles root.
#[derive(Debug, Clone, Copy, PartialEq, Eq, Structural)]
pub enum RootSource {
    /// `DOTFILES_ROOT`.
    Explicit,
    /// The top level of the enclosing Git repository.
    GitTopLevel,
    /// The directory dodot was invoked from.
    CurrentDir,
}

/// A resolved dotfiles root: its canonical spelling and what selected
/// it.
#[derive(Debug, Clone)]
pub struct ResolvedRoot {
    pub identity: String,
    pub source: RootSource,
}

/// Everything about the invoking process Safety Lock depends on, read
/// once at the boundary.
#[derive(Debug, Clone)]
pub struct ProcessFacts {
    current_dir: String,
    home: String,
    dotfiles_root: Option<String>,
    git_top_level: Option<String>,
    data_dir: String,
}

pub open spec fn opt_string_view(o: Option<String>) -> Option<Seq<char>> {
    match o {
        Some(s) => Some(s@),
        None => None,
    }
}

/// The root a selection picks: `DOTFILES_ROOT`, then the Git top
/// level, then the current directory.
pub open spec fn spec_select_root(
    dotfiles_root: Option<Seq<char>>,
    git_top_level: Option<Seq<char>>,
    current_dir: Seq<char>,
) -> (Seq<char>, RootSource) {
    match dotfiles_root {
        Some(d) => (d, RootSource::Explicit),
        None => match git_top_level {
            Some(g) => (g, RootSource::GitTopLevel),
            None => (current_dir, RootSource::CurrentDir),
        },
    }
}

impl ProcessFacts {
    pub closed spec fn spec_current_dir(&self) -> Seq<char> {
        self.current_dir@
    }

    pub closed spec fn spec_home(&self) -> Seq<char> {
        self.home@
    }

    pub closed spec fn spec_data_dir(&self) -> Seq<char> {
        self.data_dir@
    }

    pub closed spec fn spec_dotfiles_root(&self) -> Option<Seq<char>> {
        opt_string_view(self.dotfiles_root)
    }

    pub closed spec fn spec_git_top_level(&self) -> Option<Seq<char>> {
        opt_string_view(self.git_top_level)
    }

    /// The facts as read: the current directory, the home directory,
    /// `DOTFILES_ROOT` when set, the Git top level when inside a
    /// repository, and dodot's data directory.
    pub fn new(
        current_dir: String,
        home: String,
        dotfiles_root: Option<String>,
        git_top_level: Option<String>,
        data_dir: String,
    ) -> (r: Self)
        ensures
            r.spec_current_dir() == current_dir@,
            r.spec_home() == home@,
            r.spec_dotfiles_root() == opt_string_view(dotfiles_root),
            r.spec_git_top_level() == opt_string_view(git_top_level),
            r.spec_data_dir() == data_dir@,
    {
        ProcessFacts { current_dir, home, dotfiles_root, git_top_level, data_dir }
    }

    /// The directory dodot was invoked from.
    pub fn current_dir(&self) -> (r: &str)
        ensures
            r@ == self.spec_current_dir(),
    {
        self.current_dir.as_str()
    }

    /// The home directory.
    pub fn home(&self) -> (r: &str)
        ensures
            r@ == self.spec_home(),
    {
        self.home.as_str()
    }

    /// Dodot's data directory, where the trust file lives.
    pub fn data_dir(&self) -> (r: &str)
        ensures
            r@ == self.spec_data_dir(),
    {
        self.data_dir.as_str()
    }

    /// This invocation's root candidate and what selected it:
    /// `DOTFILES_ROOT`, then the Git top level, then the current
    /// directory. Canonicalising it into a `ResolvedRoot` is the
    /// caller's (it touches the filesystem).
    pub fn resolve_root(&self) -> (r: (String, RootSource))
        ensures
            (r.0@, r.1) == spec_select_root(
                self.spec_dotfiles_root(),
                self.spec_git_top_level(),
                self.spec_current_dir(),
            ),
    {
        match &self.dotfiles_root {
            Some(d) => (d.clone(), RootSource::Explicit),
            None => match &self.git_top_level {
                Some(g) => (g.clone(), RootSource::GitTopLevel),
                None => (self.current_dir.clone(), RootSource::CurrentDir),
            },
        }
    }
}

/// What `git rev-parse --show-toplevel` says: the trimmed output of a
/// successful run, unless empty; otherwise "not inside a repository".
pub open spec fn spec_git_top_level(success: bool, stdout: Seq<char>) -> Option<Seq<char>> {
    if success && trimmed(stdout).len() > 0 {
        Some(trimmed(stdout))
    } else {
        None
    }
}

/// The Git top level from the outcome of `git rev-parse --show-toplevel`.
pub fn git_top_level_from(success: bool, stdout: &str) -> (r: Option<String>)
    ensures
        opt_string_view(r) == spec_git_top_level(success, stdout@),
{
    if !success {
        return None;
    }
    let o = chars_of(stdout);
    let t = trim_chars(o.as_slice());
    if t.len() == 0 {
        None
    } else {
        Some(string_of(t.as_slice()))
    }
}

/// The authorized root and the facts it was resolved from, as handlers
/// see it; there is no way to replace the root once it is set.
#[derive(Debug, Clone)]
pub struct SafetyState {
    facts: ProcessFacts,
    root: Option<ResolvedRoot>,
}

impl SafetyState {
    pub closed spec fn spec_root(&self) -> Option<ResolvedRoot> {
        self.root
    }

    pub closed spec fn spec_facts(&self) -> ProcessFacts {
        self.facts
    }

    /// The state that passed Safety Lock: the facts, and the root (none
    /// for a rootless command).
    pub fn new(facts: ProcessFacts, root: Option<ResolvedRoot>) -> (r: Self)
        ensures
            r.spec_facts() == facts,
            r.spec_root() == root,
    {
        SafetyState { facts, root }
    }

    /// The captured process facts.
    pub fn facts(&self) -> (r: &ProcessFacts)
        ensures
            *r == self.spec_facts(),
    {
        &self.facts
    }

    /// The one dotfiles root this invocation may work under; an error
    /// for a command that resolves none.
    pub fn root(&self) -> (r: Result<&ResolvedRoot, String>)
        ensures
            match self.spec_root() {
                Some(root) => r == Ok::<&ResolvedRoot, String>(&root),
                None => r matches Err(m) && m@ == "this command does not resolve a dotfiles root"@,
            },
    {
        match &self.root {
            Some(root) => Ok(root),
            None => Err(String::from_str("this command does not resolve a dotfiles root")),
        }
    }

    /// The authorized root's canonical spelling.
    pub fn root_identity(&self) -> (r: Result<String, String>)
        ensures
            match self.spec_root() {
                Some(root) => r matches Ok(s) && s@ == root.identity@,
                None => r matches Err(m) && m@ == "this command does not resolve a dotfiles root"@,
            },
    {
        match self.root() {
            Ok(root) => Ok(root.identity.clone()),
            Err(e) => Err(e),
        }
    }
}

/// An answer approves a root only when it is `y` or `yes` (any case,
/// surrounding whitespace ignored); anything else, the empty answer of
/// end-of-input included, refuses.
pub open spec fn spec_approves(answer: Seq<char>) -> bool {
    let a = lowercase(trimmed(answer));
    a == "y"@ || a == "yes"@
}

/// Whether a typed answer approves the root.
pub fn approves(answer: &str) -> (r: bool)
    ensures
        r == spec_approves(answer@),
{
    let a = chars_of(answer);
    let t = trim_chars(a.as_slice());
    let l = lower_ascii(t.as_slice());
    let y = chars_of("y");
    let yes = chars_of("yes");
    chars_eq(l.as_slice(), y.as_slice()) || chars_eq(l.as_slice(), yes.as_slice())
}

/// The refusal when approval cannot be asked on a terminal.
pub fn no_terminal_refusal(root: &str) -> (r: String)
    ensures
        r@ == "dodot has not been approved for "@ + root@
            + ".\n  Approving needs a terminal on both sides — dodot asks on stderr and reads the answer from stdin.\n  For automation, set DOTFILES_ROOT to the root you mean."@,
{
    let mut v = chars_of("dodot has not been approved for ");
    push_str(&mut v, root);
    push_str(
        &mut v,
        ".\n  Approving needs a terminal on both sides — dodot asks on stderr and reads the answer from stdin.\n  For automation, set DOTFILES_ROOT to the root you mean.",
    );
    string_of(v.as_slice())
}

/// The refusal when the user did not approve.
pub fn not_approved_refusal(root: &str) -> (r: String)
    ensures
        r@ == "Not approved — "@ + root@ + " was left untrusted and nothing was changed."@,
{
    let mut v = chars_of("Not approved — ");
    push_str(&mut v, root);
    push_str(&mut v, " was left untrusted and nothing was changed.");
    string_of(v.as_slice())
}

/// The refusal when the approval prompt could not be rendered.
pub fn cannot_describe_refusal(root: &str, err: &str) -> (r: String)
    ensures
        r@ == "cannot describe "@ + root@ + ": "@ + err@,
{
    let mut v = chars_of("cannot describe ");
    push_str(&mut v, root);
    push_str(&mut v, ": ");
    push_str(&mut v, err);
    string_of(v.as_slice())
}

/// The refusal when the question could not be asked or answered.
pub fn cannot_ask_refusal(root: &str, err: &str) -> (r: String)
    ensures
        r@ == "cannot ask about "@ + root@ + ": "@ + err@,
{
    let mut v = chars_of("cannot ask about ");
    push_str(&mut v, root);
    push_str(&mut v, ": ");
    push_str(&mut v, err);
    string_of(v.as_slice())
}

/// The error for a command missing from the sensitivity table.
pub fn undeclared_command(command_path: &[String]) -> (r: String)
    ensures
        r@ == "`"@ + crate::text::join_with(crate::infer::strings_view(command_path@), " "@)
            + "` is not declared in dodot's root-sensitivity taxonomy, so no dotfiles root was resolved for it"@,
{
    let joined = crate::text::join_strings(command_path, " ");
    let mut v = chars_of("`");
    crate::text::push_chars(&mut v, joined.as_slice());
    push_str(
        &mut v,
        "` is not declared in dodot's root-sensitivity taxonomy, so no dotfiles root was resolved for it",
    );
    proof {
        assert(Seq::new(command_path@.len(), |j: int| command_path@[j]@)
            =~= crate::infer::strings_view(command_path@));
    }
    string_of(v.as_slice())
}

/// Only a mutation the root selects, run without its preview, needs a
/// trusted root; a declared preview flag that is set always downgrades
/// the same declaration to a dry run.
pub proof fn law_only_unpreviewed_mutations_need_trust(s: SensitivityView, preview_set: bool)
    ensures
        spec_operation(s, preview_set) == RootOperation::RootSensitiveMutation <==> (
        s is Mutating && !(s->0 is Some && preview_set)),
        s is Mutating && s->0 is Some && preview_set ==> spec_operation(s, preview_set)
            == RootOperation::DryRun,
{
}

} // verus!
