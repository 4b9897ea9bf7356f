//! The `dodot tutorial` walk-through as a state machine: the named
//! steps, what each asks, where each answer leads, the packs offered
//! and the words said on the way out. Rendering the step bodies,
//! running `status` and `up`, touching rc files and the clipboard, and
//! the prompts themselves happen around this module, which the driver
//! loop consults step by step.

use vstd::prelude::*;
use crate::infer::strings_view;
use crate::text::{
    chars_eq, chars_of, contains, debug_quoted, debug_str, decimal, find_from, join_with,
    push_chars, push_decimal, push_str, split_on, string_of, strip_cr,
};

verus! {

// ── Prompt seam ─────────────────────────────────────────────────────

/// Prompt I/O as the driver sees it: production asks on a terminal,
/// tests answer from a script. An `Err` is a cancelled prompt.
pub trait Prompts {
    /// Yes/no question; `default` is the highlighted choice.
    fn confirm(&mut self, message: &str, default: bool) -> Result<bool, String>;

    /// Single choice; returns the chosen label.
    fn select(&mut self, message: &str, options: Vec<String>) -> Result<String, String>;

    /// "Press enter to continue".
    fn press_enter(&mut self) -> Result<(), String>;
}

/// One canned answer.
#[derive(Debug, Clone, Copy, PartialEq, Eq, Structural)]
pub enum ScriptedAnswer {
    Confirm(bool),
    /// 0-based index into the options offered.
    Choice(usize),
    /// Pressing enter.
    Enter,
}

/// How an answer is named in messages: `Confirm(true)`, `Choice(0)`,
/// `Enter`.
pub open spec fn spec_describe(a: ScriptedAnswer) -> Seq<char> {
    match a {
        ScriptedAnswer::Confirm(b) => "Confirm("@ + (if b {
            "true"@
        } else {
            "false"@
        }) + ")"@,
        ScriptedAnswer::Choice(i) => "Choice("@ + decimal(i as nat) + ")"@,
        ScriptedAnswer::Enter => "Enter"@,
    }
}

pub fn describe(a: ScriptedAnswer) -> (r: String)
    ensures
        r@ == spec_describe(a),
{
    let mut v: Vec<char> = Vec::new();
    match a {
        ScriptedAnswer::Confirm(b) => {
            push_str(&mut v, "Confirm(");
            if b {
                push_str(&mut v, "true");
            } else {
                push_str(&mut v, "false");
            }
            push_str(&mut v, ")");
        },
        ScriptedAnswer::Choice(i) => {
            push_str(&mut v, "Choice(");
            push_decimal(&mut v, i as u64);
            push_str(&mut v, ")");
        },
        ScriptedAnswer::Enter => {
            push_str(&mut v, "Enter");
        },
    }
    proof {
        assert(v@ =~= spec_describe(a));
    }
    string_of(v.as_slice())
}

/// Prompts answered from a queue, one answer per prompt; a prompt of
/// another kind than the next answer is an error at that prompt.
#[derive(Debug)]
pub struct ScriptedPrompts {
    queue: Vec<ScriptedAnswer>,
    next: usize,
}

impl ScriptedPrompts {
    /// The answers still queued.
    pub closed spec fn pending(&self) -> Seq<ScriptedAnswer> {
        self.queue@.skip(self.next as int)
    }

    #[verifier::type_invariant]
    spec fn wf(&self) -> bool {
        self.next <= self.queue@.len()
    }

    /// Prompts answered by `answers`, in order.
    pub fn new(answers: Vec<ScriptedAnswer>) -> (r: Self)
        ensures
            r.pending() == answers@,
    {
        let r = ScriptedPrompts { queue: answers, next: 0 };
        proof {
            assert(r.queue@.skip(0) =~= r.queue@);
        }
        r
    }

    /// How many answers are left.
    pub fn remaining(&self) -> (r: usize)
        ensures
            r == self.pending().len(),
    {
        proof {
            use_type_invariant(self);
        }
        self.queue.len() - self.next
    }

    fn pop(&mut self, expected: &str, msg: &str) -> (r: Result<ScriptedAnswer, String>)
        ensures
            old(self).pending().len() > 0 ==> r == Ok::<ScriptedAnswer, String>(old(self).pending()[0])
                && final(self).pending() == old(self).pending().skip(1),
            old(self).pending().len() == 0 ==> (r matches Err(m) && m@
                == "ScriptedPrompts: ran out of answers; next was a `"@ + expected@ + "` prompt: "@
                + debug_quoted(msg@)) && final(self).pending() == old(self).pending(),
    {
        proof {
            use_type_invariant(&*self);
        }
        if self.next < self.queue.len() {
            let a = self.queue[self.next];
            self.next = self.next + 1;
            proof {
                assert(self.queue@.skip(self.next as int) =~= old(self).pending().skip(1));
            }
            Ok(a)
        } else {
            let mut v = chars_of("ScriptedPrompts: ran out of answers; next was a `");
            push_str(&mut v, expected);
            push_str(&mut v, "` prompt: ");
            let q = debug_str(msg);
            push_str(&mut v, q.as_str());
            Err(string_of(v.as_slice()))
        }
    }

    fn kind_error(&self, expected: &str, message: &str, got: ScriptedAnswer) -> (r: String)
        ensures
            r@ == "ScriptedPrompts: expected "@ + expected@ + " for "@ + debug_quoted(message@)
                + ", got "@ + spec_describe(got),
    {
        let mut v = chars_of("ScriptedPrompts: expected ");
        push_str(&mut v, expected);
        push_str(&mut v, " for ");
        let q = debug_str(message);
        push_str(&mut v, q.as_str());
        push_str(&mut v, ", got ");
        let d = describe(got);
        push_str(&mut v, d.as_str());
        string_of(v.as_slice())
    }
}

impl Prompts for ScriptedPrompts {
    /// The next answer, when it is a `Confirm`.
    fn confirm(&mut self, message: &str, default: bool) -> (r: Result<bool, String>)
        ensures
            old(self).pending().len() > 0 ==> final(self).pending() == old(self).pending().skip(1),
            r is Ok <==> (old(self).pending().len() > 0 && old(self).pending()[0] is Confirm),
            match r {
                Ok(b) => old(self).pending()[0] == ScriptedAnswer::Confirm(b),
                Err(_) => true,
            },
    {
        match self.pop("confirm", message) {
            Err(e) => Err(e),
            Ok(ScriptedAnswer::Confirm(b)) => Ok(b),
            Ok(other) => Err(self.kind_error("Confirm", message, other)),
        }
    }

    /// The option the next answer picks, when it is an in-range `Choice`.
    fn select(&mut self, message: &str, options: Vec<String>) -> (r: Result<String, String>)
        ensures
            old(self).pending().len() > 0 ==> final(self).pending() == old(self).pending().skip(1),
            r is Ok <==> (old(self).pending().len() > 0 && (old(self).pending()[0] matches ScriptedAnswer::Choice(i)
                && i < options@.len())),
            match r {
                Ok(o) => old(self).pending()[0] matches ScriptedAnswer::Choice(i) && o@ == options@[i as int]@,
                Err(_) => true,
            },
    {
        match self.pop("select", message) {
            Err(e) => Err(e),
            Ok(ScriptedAnswer::Choice(i)) => {
                if i < options.len() {
                    Ok(options[i].clone())
                } else {
                    let mut v = chars_of("ScriptedPrompts: Choice(");
                    push_decimal(&mut v, i as u64);
                    push_str(&mut v, ") out of range for select with ");
                    push_decimal(&mut v, options.len() as u64);
                    push_str(&mut v, " option(s) (");
                    let q = debug_str(message);
                    push_str(&mut v, q.as_str());
                    push_str(&mut v, ")");
                    Err(string_of(v.as_slice()))
                }
            },
            Ok(other) => Err(self.kind_error("Choice", message, other)),
        }
    }

    /// Succeeds when the next answer is `Enter`.
    fn press_enter(&mut self) -> (r: Result<(), String>)
        ensures
            old(self).pending().len() > 0 ==> final(self).pending() == old(self).pending().skip(1),
            r is Ok <==> (old(self).pending().len() > 0 && old(self).pending()[0] is Enter),
    {
        match self.pop("enter", "press enter") {
            Err(e) => Err(e),
            Ok(ScriptedAnswer::Enter) => Ok(()),
            Ok(other) => {
                let mut v = chars_of("ScriptedPrompts: expected Enter, got ");
                let d = describe(other);
                push_str(&mut v, d.as_str());
                Err(string_of(v.as_slice()))
            },
        }
    }
}

// ── Steps ───────────────────────────────────────────────────────────

/// The named steps of the walk-through.
#[derive(Debug, Clone, Copy, PartialEq, Eq, Structural)]
pub enum Step {
    Intro,
    CheckRoot,
    ListPacks,
    NoPacks,
    PickPack,
    ShowStatus,
    AnnotateStatus,
    ConceptTargets,
    ConceptShell,
    DryRun,
    RealUp,
    Outro,
}

pub open spec fn spec_step_id(s: Step) -> Seq<char> {
    match s {
        Step::Intro => "intro"@,
        Step::CheckRoot => "check_root"@,
        Step::ListPacks => "list_packs"@,
        Step::NoPacks => "no_packs"@,
        Step::PickPack => "pick_pack"@,
        Step::ShowStatus => "show_status"@,
        Step::AnnotateStatus => "annotate_status"@,
        Step::ConceptTargets => "concept_targets"@,
        Step::ConceptShell => "concept_shell"@,
        Step::DryRun => "dry_run"@,
        Step::RealUp => "real_up"@,
        Step::Outro => "outro"@,
    }
}

impl Step {
    /// The step's saved name.
    pub fn id(&self) -> (r: &'static str)
        ensures
            r@ == spec_step_id(*self),
    {
        match self {
            Step::Intro => "intro",
            Step::CheckRoot => "check_root",
            Step::ListPacks => "list_packs",
            Step::NoPacks => "no_packs",
            Step::PickPack => "pick_pack",
            Step::ShowStatus => "show_status",
            Step::AnnotateStatus => "annotate_status",
            Step::ConceptTargets => "concept_targets",
            Step::ConceptShell => "concept_shell",
            Step::DryRun => "dry_run",
            Step::RealUp => "real_up",
            Step::Outro => "outro",
        }
    }

    /// The step a saved name names, if any.
    pub fn from_id(id: &str) -> (r: Option<Step>)
        ensures
            r == spec_step_of(id@),
    {
        let want = chars_of(id);
        if chars_eq(want.as_slice(), chars_of("intro").as_slice()) {
            return Some(Step::Intro);
        }
        if chars_eq(want.as_slice(), chars_of("check_root").as_slice()) {
            return Some(Step::CheckRoot);
        }
        if chars_eq(want.as_slice(), chars_of("list_packs").as_slice()) {
            return Some(Step::ListPacks);
        }
        if chars_eq(want.as_slice(), chars_of("no_packs").as_slice()) {
            return Some(Step::NoPacks);
        }
        if chars_eq(want.as_slice(), chars_of("pick_pack").as_slice()) {
            return Some(Step::PickPack);
        }
        if chars_eq(want.as_slice(), chars_of("show_status").as_slice()) {
            return Some(Step::ShowStatus);
        }
        if chars_eq(want.as_slice(), chars_of("annotate_status").as_slice()) {
            return Some(Step::AnnotateStatus);
        }
        if chars_eq(want.as_slice(), chars_of("concept_targets").as_slice()) {
            return Some(Step::ConceptTargets);
        }
        if chars_eq(want.as_slice(), chars_of("concept_shell").as_slice()) {
            return Some(Step::ConceptShell);
        }
        if chars_eq(want.as_slice(), chars_of("dry_run").as_slice()) {
            return Some(Step::DryRun);
        }
        if chars_eq(want.as_slice(), chars_of("real_up").as_slice()) {
            return Some(Step::RealUp);
        }
        if chars_eq(want.as_slice(), chars_of("outro").as_slice()) {
            return Some(Step::Outro);
        }
        None
    }
}

/// The step a saved name names, if any.
pub open spec fn spec_step_of(id: Seq<char>) -> Option<Step> {
    if id == "intro"@ {
        Some(Step::Intro)
    } else if id == "check_root"@ {
        Some(Step::CheckRoot)
    } else if id == "list_packs"@ {
        Some(Step::ListPacks)
    } else if id == "no_packs"@ {
        Some(Step::NoPacks)
    } else if id == "pick_pack"@ {
        Some(Step::PickPack)
    } else if id == "show_status"@ {
        Some(Step::ShowStatus)
    } else if id == "annotate_status"@ {
        Some(Step::AnnotateStatus)
    } else if id == "concept_targets"@ {
        Some(Step::ConceptTargets)
    } else if id == "concept_shell"@ {
        Some(Step::ConceptShell)
    } else if id == "dry_run"@ {
        Some(Step::DryRun)
    } else if id == "real_up"@ {
        Some(Step::RealUp)
    } else if id == "outro"@ {
        Some(Step::Outro)
    } else {
        None
    }
}

/// Where a step leads.
#[derive(Debug, Clone, Copy, PartialEq, Eq, Structural)]
pub enum Next {
    Go(Step),
    /// Finished: the saved progress is cleared.
    Done,
    /// Left early: the saved progress stays for a later resume.
    Quit,
}

/// The question a step asks, if it asks one.
#[derive(Debug)]
pub enum Ask {
    Nothing,
    Confirm { question: &'static str, default: bool },
    Select { message: String, options: Vec<String> },
    Enter,
}

/// The yes/no question of a step that asks one.
pub open spec fn spec_confirm_question(s: Step) -> Option<Seq<char>> {
    match s {
        Step::Intro => Some("Ready to begin?"@),
        Step::CheckRoot => Some("Is this your dotfiles repo?"@),
        Step::ConceptTargets => Some("Targets look right?"@),
        Step::DryRun => Some("Apply for real?"@),
        _ => None,
    }
}

/// Steps that wait for enter after showing their body.
pub open spec fn waits_for_enter(s: Step) -> bool {
    s == Step::ShowStatus || s == Step::AnnotateStatus || s == Step::RealUp
}

/// What a yes/no step leads to, and the line said when it leads out.
pub open spec fn spec_after_confirm(s: Step, yes: bool, has_shell_files: bool) -> (Next, Seq<char>) {
    match s {
        Step::Intro => if yes {
            (Next::Go(Step::CheckRoot), ""@)
        } else {
            (Next::Quit, ""@)
        },
        Step::CheckRoot => if yes {
            (Next::Go(Step::ListPacks), ""@)
        } else {
            (Next::Quit, "\nOK — exit, cd into your dotfiles repo, and re-run `dodot tutorial`."@)
        },
        Step::ConceptTargets => if !yes {
            (
                Next::Quit,
                "\nOK — exit and edit your pack (or its `.dodot.toml`) to set explicit targets, then re-run."@,
            )
        } else if has_shell_files {
            (Next::Go(Step::ConceptShell), ""@)
        } else {
            (Next::Go(Step::DryRun), ""@)
        },
        Step::DryRun => if yes {
            (Next::Go(Step::RealUp), ""@)
        } else {
            (Next::Quit, "\nNothing was applied. Run again any time."@)
        },
        _ => (Next::Quit, ""@),
    }
}

/// The yes/no question of a step, when it has one.
pub fn confirm_question(s: Step) -> (r: Option<&'static str>)
    ensures
        match r {
            Some(q) => spec_confirm_question(s) == Some(q@),
            None => spec_confirm_question(s) is None,
        },
{
    match s {
        Step::Intro => Some("Ready to begin?"),
        Step::CheckRoot => Some("Is this your dotfiles repo?"),
        Step::ConceptTargets => Some("Targets look right?"),
        Step::DryRun => Some("Apply for real?"),
        _ => None,
    }
}

/// Where a yes/no step leads on an answer; the line said on the way
/// out is empty when there is none.
pub fn after_confirm(s: Step, yes: bool, has_shell_files: bool) -> (r: (Next, &'static str))
    requires
        spec_confirm_question(s) is Some,
    ensures
        (r.0, r.1@) == spec_after_confirm(s, yes, has_shell_files),
{
    match s {
        Step::Intro => if yes {
            (Next::Go(Step::CheckRoot), "")
        } else {
            (Next::Quit, "")
        },
        Step::CheckRoot => if yes {
            (Next::Go(Step::ListPacks), "")
        } else {
            (Next::Quit, "\nOK — exit, cd into your dotfiles repo, and re-run `dodot tutorial`.")
        },
        Step::ConceptTargets => if !yes {
            (
                Next::Quit,
                "\nOK — exit and edit your pack (or its `.dodot.toml`) to set explicit targets, then re-run.",
            )
        } else if has_shell_files {
            (Next::Go(Step::ConceptShell), "")
        } else {
            (Next::Go(Step::DryRun), "")
        },
        _ => if yes {
            (Next::Go(Step::RealUp), "")
        } else {
            (Next::Quit, "\nNothing was applied. Run again any time.")
        },
    }
}

/// Where a step that asks no yes/no question leads: the pack listing
/// branches on whether there are packs, the enter-steps move on, the
/// shell step moves to the dry run, and the last steps finish.
pub open spec fn spec_after_step(s: Step, have_packs: bool) -> Next {
    match s {
        Step::ListPacks => if have_packs {
            Next::Go(Step::PickPack)
        } else {
            Next::Go(Step::NoPacks)
        },
        Step::NoPacks => Next::Done,
        Step::PickPack => Next::Go(Step::ShowStatus),
        Step::ShowStatus => Next::Go(Step::AnnotateStatus),
        Step::AnnotateStatus => Next::Go(Step::ConceptTargets),
        Step::ConceptShell => Next::Go(Step::DryRun),
        Step::RealUp => Next::Go(Step::Outro),
        Step::Outro => Next::Done,
        _ => Next::Quit,
    }
}

pub fn after_step(s: Step, have_packs: bool) -> (r: Next)
    requires
        spec_confirm_question(s) is None,
    ensures
        r == spec_after_step(s, have_packs),
{
    match s {
        Step::ListPacks => if have_packs {
            Next::Go(Step::PickPack)
        } else {
            Next::Go(Step::NoPacks)
        },
        Step::NoPacks => Next::Done,
        Step::PickPack => Next::Go(Step::ShowStatus),
        Step::ShowStatus => Next::Go(Step::AnnotateStatus),
        Step::AnnotateStatus => Next::Go(Step::ConceptTargets),
        Step::ConceptShell => Next::Go(Step::DryRun),
        Step::RealUp => Next::Go(Step::Outro),
        _ => Next::Done,
    }
}

/// The position of a step in the walk-through.
pub open spec fn step_rank(s: Step) -> nat {
    match s {
        Step::Intro => 0,
        Step::CheckRoot => 1,
        Step::ListPacks => 2,
        Step::NoPacks => 3,
        Step::PickPack => 4,
        Step::ShowStatus => 5,
        Step::AnnotateStatus => 6,
        Step::ConceptTargets => 7,
        Step::ConceptShell => 8,
        Step::DryRun => 9,
        Step::RealUp => 10,
        Step::Outro => 11,
    }
}

/// Whatever is answered, a step leads only to a later step, so every
/// walk-through ends, finished or left, within as many steps as there
/// are.
pub proof fn law_walkthrough_only_moves_forward(
    s: Step,
    yes: bool,
    has_shell_files: bool,
    have_packs: bool,
)
    ensures
        spec_confirm_question(s) is Some ==> match spec_after_confirm(s, yes, has_shell_files).0 {
            Next::Go(t) => step_rank(t) > step_rank(s),
            _ => true,
        },
        spec_confirm_question(s) is None ==> match spec_after_step(s, have_packs) {
            Next::Go(t) => step_rank(t) > step_rank(s),
            _ => true,
        },
{
}

/// The line printed when the walk-through is left early.
pub fn exit_message() -> (r: &'static str)
    ensures
        r@ == "\nExited tutorial. Resume any time with: dodot tutorial"@,
{
    "\nExited tutorial. Resume any time with: dodot tutorial"
}

/// Where the walk-through starts: at a valid `--from` step; else at
/// the saved step of a resumed run (the intro when that name is
/// unknown); else at the intro.
pub open spec fn spec_starting_step(from: Option<Option<Step>>, resumed: Option<Option<Step>>) -> Step {
    match from {
        Some(Some(s)) => s,
        _ => match resumed {
            Some(Some(s)) => s,
            _ => Step::Intro,
        },
    }
}

pub open spec fn parsed_step(id: Option<&str>) -> Option<Option<Step>> {
    match id {
        Some(i) => Some(spec_step_of(i@)),
        None => None,
    }
}

/// The first step: `from` is `--from`, `resumed` the saved step name of
/// a run the user chose to resume.
pub fn starting_step(from: Option<&str>, resumed: Option<&str>) -> (r: Step)
    ensures
        r == spec_starting_step(parsed_step(from), parsed_step(resumed)),
{
    let f = match from {
        Some(i) => Some(Step::from_id(i)),
        None => None,
    };
    let s = match resumed {
        Some(i) => Some(Step::from_id(i)),
        None => None,
    };
    match f {
        Some(Some(st)) => st,
        _ => match s {
            Some(Some(st)) => st,
            _ => Step::Intro,
        },
    }
}

// ── Packs ───────────────────────────────────────────────────────────

/// A pack as the walk-through offers it.
#[derive(Debug, Clone)]
pub struct TutorialPack {
    pub name: String,
    /// What the pack holds (`config`, `shell`, `install`, ...).
    pub kind: String,
    /// The recommended place to start.
    pub recommended: bool,
}

/// Recommended packs first, each group in its given order (a stable
/// sort on "not recommended").
pub open spec fn spec_order_packs(packs: Seq<TutorialPack>) -> Seq<TutorialPack> {
    packs.filter(is_recommended()) + packs.filter(not_recommended())
}

pub open spec fn is_recommended() -> spec_fn(TutorialPack) -> bool {
    |p: TutorialPack| p.recommended
}

pub open spec fn not_recommended() -> spec_fn(TutorialPack) -> bool {
    |p: TutorialPack| !p.recommended
}

/// The packs in the order they are offered.
pub fn order_packs(packs: &[TutorialPack]) -> (r: Vec<TutorialPack>)
    ensures
        r@.len() == spec_order_packs(packs@).len(),
        forall|i: int|
            0 <= i < r@.len() ==> (#[trigger] r@[i]).name@ == spec_order_packs(packs@)[i].name@
                && r@[i].kind@ == spec_order_packs(packs@)[i].kind@ && r@[i].recommended
                == spec_order_packs(packs@)[i].recommended,
{
    let ghost rec = is_recommended();
    let ghost not_rec = not_recommended();
    let mut first: Vec<TutorialPack> = Vec::new();
    let mut second: Vec<TutorialPack> = Vec::new();
    let mut i: usize = 0;
    proof {
        assert(packs@.take(0) =~= Seq::<TutorialPack>::empty());
    }
    while i < packs.len()
        invariant
            i <= packs@.len(),
            rec == is_recommended(),
            not_rec == not_recommended(),
            first@.len() == packs@.take(i as int).filter(rec).len(),
            second@.len() == packs@.take(i as int).filter(not_rec).len(),
            forall|k: int|
                0 <= k < first@.len() ==> same_pack(#[trigger] first@[k], packs@.take(i as int).filter(rec)[k]),
            forall|k: int|
                0 <= k < second@.len() ==> same_pack(#[trigger] second@[k], packs@.take(i as int).filter(not_rec)[k]),
        decreases packs.len() - i,
    {
        proof {
            assert(packs@.take(i + 1) =~= packs@.take(i as int).push(packs@[i as int]));
            packs@.take(i as int).lemma_filter_push(packs@[i as int], rec);
            packs@.take(i as int).lemma_filter_push(packs@[i as int], not_rec);
        }
        let p = TutorialPack {
            name: packs[i].name.clone(),
            kind: packs[i].kind.clone(),
            recommended: packs[i].recommended,
        };
        if packs[i].recommended {
            first.push(p);
        } else {
            second.push(p);
        }
        i = i + 1;
    }
    proof {
        assert(packs@.take(packs@.len() as int) =~= packs@);
    }
    let ghost f = first@;
    let ghost sv = second@;
    first.append(&mut second);
    proof {
        assert(first@ =~= f + sv);
        let want = spec_order_packs(packs@);
        assert forall|k: int| 0 <= k < first@.len() implies (#[trigger] first@[k]).name@ == want[k].name@
            && first@[k].kind@ == want[k].kind@ && first@[k].recommended == want[k].recommended by {
            if k < f.len() {
                assert(same_pack(f[k], packs@.filter(rec)[k]));
            } else {
                assert(same_pack(sv[k - f.len()], packs@.filter(not_rec)[k - f.len()]));
            }
        }
    }
    first
}

pub open spec fn same_pack(a: TutorialPack, b: TutorialPack) -> bool {
    a.name@ == b.name@ && a.kind@ == b.kind@ && a.recommended == b.recommended
}

/// How a pack is labelled in the choice: its name, then its kind, with
/// the recommendation marked.
pub open spec fn spec_pack_label(p: TutorialPack) -> Seq<char> {
    if p.recommended {
        p.name@ + "  ← recommended ("@ + p.kind@ + ")"@
    } else {
        p.name@ + "  ("@ + p.kind@ + ")"@
    }
}

pub fn pack_label(p: &TutorialPack) -> (r: String)
    ensures
        r@ == spec_pack_label(*p),
{
    let mut v = chars_of(p.name.as_str());
    if p.recommended {
        push_str(&mut v, "  ← recommended (");
    } else {
        push_str(&mut v, "  (");
    }
    push_str(&mut v, p.kind.as_str());
    push_str(&mut v, ")");
    string_of(v.as_slice())
}

/// The pick chosen by the walk-through, with what the kind implies.
#[derive(Debug)]
pub struct ChosenPack {
    pub name: String,
    pub kind: String,
    pub has_shell_files: bool,
    pub has_install_files: bool,
}

/// The first whitespace-separated word of a label.
pub open spec fn first_word(label: Seq<char>) -> Seq<char> {
    let toks = crate::text::ascii_tokens(label);
    if toks.len() > 0 {
        toks[0]
    } else {
        ""@
    }
}

/// The pack whose name is the first word of the chosen label, with
/// whether its kind mentions `shell` and `install`; an error when no
/// offered pack has that name.
pub fn choose_pack(packs: &[TutorialPack], choice: &str) -> (r: Result<ChosenPack, String>)
    ensures
        match r {
            Ok(c) => exists|i: int|
                0 <= i < packs@.len() && (#[trigger] packs@[i]).name@ == first_word(choice@)
                    && c.name@ == packs@[i].name@ && c.kind@ == packs@[i].kind@
                    && c.has_shell_files == contains(packs@[i].kind@, "shell"@)
                    && c.has_install_files == contains(packs@[i].kind@, "install"@),
            Err(m) => m@ == "internal: chosen pack not in list"@ && forall|i: int|
                0 <= i < packs@.len() ==> (#[trigger] packs@[i]).name@ != first_word(choice@),
        },
{
    let c = chars_of(choice);
    let toks = crate::text::ascii_tokens_of(c.as_slice());
    let word: Vec<char> = if toks.len() > 0 {
        proof {
            assert(toks.deep_view()[0] =~= toks[0]@);
        }
        crate::text::copy_chars(toks[0].as_slice())
    } else {
        Vec::new()
    };
    proof {
        reveal_strlit("");
        assert(word@ == first_word(choice@));
    }
    let mut i: usize = 0;
    while i < packs.len()
        invariant
            i <= packs@.len(),
            word@ == first_word(choice@),
            forall|k: int| 0 <= k < i ==> (#[trigger] packs@[k]).name@ != first_word(choice@),
        decreases packs.len() - i,
    {
        let n = chars_of(packs[i].name.as_str());
        if chars_eq(n.as_slice(), word.as_slice()) {
            let k = chars_of(packs[i].kind.as_str());
            let shell = chars_of("shell");
            let install = chars_of("install");
            let has_shell = find_from(k.as_slice(), shell.as_slice(), 0).is_some();
            let has_install = find_from(k.as_slice(), install.as_slice(), 0).is_some();
            proof {
                if !has_shell && contains(packs@[i as int].kind@, "shell"@) {
                    let j = choose|j: int| crate::text::occurs_at(packs@[i as int].kind@, "shell"@, j);
                }
                if !has_install && contains(packs@[i as int].kind@, "install"@) {
                    let j = choose|j: int| crate::text::occurs_at(packs@[i as int].kind@, "install"@, j);
                }
            }
            return Ok(
                ChosenPack {
                    name: packs[i].name.clone(),
                    kind: packs[i].kind.clone(),
                    has_shell_files: has_shell,
                    has_install_files: has_install,
                },
            );
        }
        i = i + 1;
    }
    Err(String::from_str("internal: chosen pack not in list"))
}

// ── Resuming ────────────────────────────────────────────────────────

/// What to do with a saved walk-through.
#[derive(Debug, Clone, Copy, PartialEq, Eq, Structural)]
pub enum ResumeChoice {
    Resume,
    Restart,
    Quit,
}

/// The question asked about a saved walk-through.
pub fn resume_label(step_id: &str, pack: Option<&str>) -> (r: String)
    ensures
        r@ == "Found a saved tutorial at step '"@ + step_id@ + "' (pack: "@ + (match pack {
            Some(p) => p@,
            None => "(no pack picked yet)"@,
        }) + ")"@,
{
    let mut v = chars_of("Found a saved tutorial at step '");
    push_str(&mut v, step_id);
    push_str(&mut v, "' (pack: ");
    match pack {
        Some(p) => push_str(&mut v, p),
        None => push_str(&mut v, "(no pack picked yet)"),
    }
    push_str(&mut v, ")");
    string_of(v.as_slice())
}

/// The choices offered for a saved walk-through.
pub fn resume_options() -> (r: Vec<String>)
    ensures
        strings_view(r@) == seq!["Resume"@, "Start over"@, "Quit"@],
{
    let v = vec![String::from_str("Resume"), String::from_str("Start over"), String::from_str("Quit")];
    proof {
        assert(strings_view(v@) =~= seq!["Resume"@, "Start over"@, "Quit"@]);
    }
    v
}

/// What a chosen label means; anything unexpected quits.
pub fn resume_choice(choice: &str) -> (r: ResumeChoice)
    ensures
        r == (if choice@ == "Resume"@ {
            ResumeChoice::Resume
        } else if choice@ == "Start over"@ {
            ResumeChoice::Restart
        } else {
            ResumeChoice::Quit
        }),
{
    let c = chars_of(choice);
    if chars_eq(c.as_slice(), chars_of("Resume").as_slice()) {
        ResumeChoice::Resume
    } else if chars_eq(c.as_slice(), chars_of("Start over").as_slice()) {
        ResumeChoice::Restart
    } else {
        ResumeChoice::Quit
    }
}

// ── Shell integration ───────────────────────────────────────────────

/// What to do about the missing `eval "$(dodot init-sh)"` line.
#[derive(Debug, Clone, Copy, PartialEq, Eq, Structural)]
pub enum ShellAction {
    Append,
    Copy,
    Nothing,
}

/// The choices offered for the shell integration line.
pub fn shell_action_options() -> (r: Vec<String>)
    ensures
        strings_view(r@) == seq![
            "Append it to my rc file"@,
            "Copy to clipboard"@,
            "Nothing — I'll handle it"@,
        ],
{
    let v = vec![
        String::from_str("Append it to my rc file"),
        String::from_str("Copy to clipboard"),
        String::from_str("Nothing — I'll handle it"),
    ];
    proof {
        assert(strings_view(v@) =~= seq![
            "Append it to my rc file"@,
            "Copy to clipboard"@,
            "Nothing — I'll handle it"@,
        ]);
    }
    v
}

/// What a chosen label means; anything else leaves it to the user.
pub fn shell_action(choice: &str) -> (r: ShellAction)
    ensures
        r == (if choice@ == "Append it to my rc file"@ {
            ShellAction::Append
        } else if choice@ == "Copy to clipboard"@ {
            ShellAction::Copy
        } else {
            ShellAction::Nothing
        }),
{
    let c = chars_of(choice);
    if chars_eq(c.as_slice(), chars_of("Append it to my rc file").as_slice()) {
        ShellAction::Append
    } else if chars_eq(c.as_slice(), chars_of("Copy to clipboard").as_slice()) {
        ShellAction::Copy
    } else {
        ShellAction::Nothing
    }
}

/// The line said after an action on the shell integration line.
/// `copy_error` is the clipboard failure, when copying failed.
pub open spec fn spec_shell_action_message(
    action: ShellAction,
    rc_path: Seq<char>,
    eval_line: Seq<char>,
    copy_error: Option<Seq<char>>,
) -> Seq<char> {
    match action {
        ShellAction::Append => "\n  ✓ appended to "@ + rc_path + " (open a new shell to pick it up)"@,
        ShellAction::Copy => match copy_error {
            None => "\n  ✓ copied to clipboard"@,
            Some(e) => "\n  ! couldn't copy to clipboard ("@ + e + "); paste manually:\n  "@
                + eval_line,
        },
        ShellAction::Nothing => "\n  Add to "@ + rc_path + " when you're ready:\n  "@ + eval_line,
    }
}

pub fn shell_action_message(
    action: ShellAction,
    rc_path: &str,
    eval_line: &str,
    copy_error: Option<&str>,
) -> (r: String)
    ensures
        r@ == spec_shell_action_message(
            action,
            rc_path@,
            eval_line@,
            match copy_error {
                Some(e) => Some(e@),
                None => None,
            },
        ),
{
    let mut v: Vec<char> = Vec::new();
    match action {
        ShellAction::Append => {
            push_str(&mut v, "\n  ✓ appended to ");
            push_str(&mut v, rc_path);
            push_str(&mut v, " (open a new shell to pick it up)");
        },
        ShellAction::Copy => match copy_error {
            None => push_str(&mut v, "\n  ✓ copied to clipboard"),
            Some(e) => {
                push_str(&mut v, "\n  ! couldn't copy to clipboard (");
                push_str(&mut v, e);
                push_str(&mut v, "); paste manually:\n  ");
                push_str(&mut v, eval_line);
            },
        },
        ShellAction::Nothing => {
            push_str(&mut v, "\n  Add to ");
            push_str(&mut v, rc_path);
            push_str(&mut v, " when you're ready:\n  ");
            push_str(&mut v, eval_line);
        },
    }
    proof {
        assert(v@ =~= spec_shell_action_message(
            action,
            rc_path@,
            eval_line@,
            match copy_error {
                Some(e) => Some(e@),
                None => None,
            },
        ));
    }
    string_of(v.as_slice())
}

// ── The step's question ─────────────────────────────────────────────

/// What a step asks: the yes/no steps their question (defaulting to
/// yes), the pack pick its labels, the shell step its actions unless
/// the line is already present, the enter-steps a key press.
pub fn step_prompt(step: Step, packs: &[TutorialPack], line_present: bool) -> (r: Ask)
    ensures
        match spec_confirm_question(step) {
            Some(q) => r matches Ask::Confirm { question, default } && question@ == q && default,
            None => if step == Step::PickPack {
                r matches Ask::Select { message, options } && message@ == "Pick a pack to start with:"@
                    && options@.len() == packs@.len()
            } else if step == Step::ConceptShell {
                if line_present {
                    r is Nothing
                } else {
                    r matches Ask::Select { message, options } && message@
                        == "What do you want me to do?"@ && options@.len() == 3
                }
            } else if waits_for_enter(step) {
                r is Enter
            } else {
                r is Nothing
            },
        },
{
    match confirm_question(step) {
        Some(q) => return Ask::Confirm { question: q, default: true },
        None => {},
    }
    match step {
        Step::PickPack => {
            let ordered = order_packs(packs);
            let mut labels: Vec<String> = Vec::new();
            let mut i: usize = 0;
            while i < ordered.len()
                invariant
                    i <= ordered@.len(),
                    labels@.len() == i,
                    ordered@.len() == spec_order_packs(packs@).len(),
                decreases ordered.len() - i,
            {
                labels.push(pack_label(&ordered[i]));
                i = i + 1;
            }
            proof {
                lemma_partition_len(packs@);
            }
            Ask::Select { message: String::from_str("Pick a pack to start with:"), options: labels }
        },
        Step::ConceptShell => if line_present {
            Ask::Nothing
        } else {
            let options = shell_action_options();
            proof {
                assert(strings_view(options@).len() == 3);
            }
            Ask::Select { message: String::from_str("What do you want me to do?"), options }
        },
        Step::ShowStatus | Step::AnnotateStatus | Step::RealUp => Ask::Enter,
        _ => Ask::Nothing,
    }
}

proof fn lemma_partition_len(s: Seq<TutorialPack>)
    ensures
        spec_order_packs(s).len() == s.len(),
    decreases s.len(),
{
    let rec = is_recommended();
    let not_rec = not_recommended();
    if s.len() > 0 {
        lemma_partition_len(s.drop_last());
        s.drop_last().lemma_filter_push(s.last(), rec);
        s.drop_last().lemma_filter_push(s.last(), not_rec);
        assert(s.drop_last().push(s.last()) =~= s);
    }
}

// ── Output helpers ──────────────────────────────────────────────────

/// `str::lines`: the pieces between `\n`s, a `\r` before a `\n` dropped,
/// and no empty last piece after a final line break.
pub open spec fn spec_lines(s: Seq<char>) -> Seq<Seq<char>> {
    let p = split_on(s, '\n');
    let n = if p.len() > 0 && p.last().len() == 0 {
        p.len() - 1
    } else {
        p.len() as int
    };
    Seq::new(n as nat, |i: int| if i < p.len() - 1 {
        strip_cr(p[i])
    } else {
        p[i]
    })
}

/// Every line of `s` behind `prefix`, joined with `\n`.
pub open spec fn spec_indent(s: Seq<char>, prefix: Seq<char>) -> Seq<char> {
    join_with(spec_lines(s).map_values(|l: Seq<char>| prefix + l), "\n"@)
}

/// Every line of `s` behind `prefix`.
pub fn indent(s: &str, prefix: &str) -> (r: String)
    ensures
        r@ == spec_indent(s@, prefix@),
{
    let c = chars_of(s);
    let parts = crate::text::split_chars(c.as_slice(), '\n');
    let ghost p = parts.deep_view();
    proof {
        crate::text::lemma_split_on_nonempty(s@, '\n');
    }
    let n: usize = if parts[parts.len() - 1].len() == 0 {
        parts.len() - 1
    } else {
        parts.len()
    };
    proof {
        assert(p.last() =~= parts[parts.len() - 1]@);
    }
    let mut lines: Vec<String> = Vec::new();
    let mut i: usize = 0;
    while i < n
        invariant
            n <= parts@.len(),
            p == parts.deep_view(),
            p == split_on(s@, '\n'),
            n == spec_lines(s@).len(),
            i <= n,
            lines@.len() == i,
            forall|k: int|
                0 <= k < i ==> (#[trigger] lines@[k])@ == prefix@ + spec_lines(s@)[k],
        decreases n - i,
    {
        let part = &parts[i];
        proof {
            assert(p[i as int] =~= part@);
        }
        let mut v = chars_of(prefix);
        if i + 1 < parts.len() && part.len() > 0 && part[part.len() - 1] == '\r' {
            let body = crate::text::copy_range(part.as_slice(), 0, part.len() - 1);
            proof {
                assert(body@ =~= part@.drop_last());
            }
            push_chars(&mut v, body.as_slice());
        } else {
            push_chars(&mut v, part.as_slice());
        }
        lines.push(string_of(v.as_slice()));
        i = i + 1;
    }
    let joined = crate::text::join_strings(lines.as_slice(), "\n");
    proof {
        assert(Seq::new(lines@.len(), |k: int| lines@[k]@) =~= spec_lines(s@).map_values(
            |l: Seq<char>| prefix@ + l,
        ));
    }
    string_of(joined.as_slice())
}

// ── Environment ─────────────────────────────────────────────────────

/// The dotfiles root the walk-through works on, and where it came
/// from (shown in the root check).
#[derive(Debug)]
pub struct TutorialEnv {
    pub dotfiles_root: String,
    pub root_origin: String,
}

/// The root: `DOTFILES_ROOT` when set and existing, else the Git top
/// level when there is one, else the current directory (`.` when even
/// that is unknown).
pub open spec fn spec_tutorial_root(
    env_root: Option<Seq<char>>,
    env_root_exists: bool,
    git_top_level: Option<Seq<char>>,
    cwd: Option<Seq<char>>,
) -> (Seq<char>, Seq<char>) {
    match env_root {
        Some(r) if env_root_exists => (r, "DOTFILES_ROOT env var"@),
        _ => match git_top_level {
            Some(g) => (g, "git toplevel"@),
            None => (
                match cwd {
                    Some(c) => c,
                    None => "."@,
                },
                "current directory"@,
            ),
        },
    }
}

impl TutorialEnv {
    /// The walk-through's environment from what the process found:
    /// `DOTFILES_ROOT` and whether that path exists, the Git top level
    /// (see `safety::git_top_level_from`), and the current directory.
    pub fn from_process_env(
        env_root: Option<String>,
        env_root_exists: bool,
        git_top_level: Option<String>,
        cwd: Option<String>,
    ) -> (r: TutorialEnv)
        ensures
            (r.dotfiles_root@, r.root_origin@) == spec_tutorial_root(
                crate::safety::opt_string_view(env_root),
                env_root_exists,
                crate::safety::opt_string_view(git_top_level),
                crate::safety::opt_string_view(cwd),
            ),
    {
        match env_root {
            Some(r) => if env_root_exists {
                return TutorialEnv { dotfiles_root: r, root_origin: String::from_str("DOTFILES_ROOT env var") };
            },
            None => {},
        }
        match git_top_level {
            Some(g) => TutorialEnv { dotfiles_root: g, root_origin: String::from_str("git toplevel") },
            None => TutorialEnv {
                dotfiles_root: match cwd {
                    Some(c) => c,
                    None => String::from_str("."),
                },
                root_origin: String::from_str("current directory"),
            },
        }
    }
}

} // verus!
