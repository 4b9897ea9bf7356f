//! Decisions the command handlers make around the library calls: which
//! shell-init view an invocation asks for, the argument rules of
//! `prompts reset`, the tidy-up of configuration listings, and the two
//! prompts that may follow a successful `dodot up` (the install ladder
//! and the macOS `cfprefsd` nudge). Terminal I/O, the prompt registry on
//! disk and running installers happen around this module.

use vstd::prelude::*;
use crate::infer::strings_view;
use crate::interactive::YesNoShow;
use crate::text::{
    chars_eq, chars_of, copy_range, decimal, find_from, first_occurrence, lemma_first_occurrence_facts,
    occurs_at, push_chars, push_decimal, push_str, string_of,
};

verus! {

/// The pack-status width: the terminal's when known, 80 otherwise.
pub fn pack_status_width(terminal_width: Option<usize>) -> (r: usize)
    ensures
        r == match terminal_width {
            Some(w) => w,
            None => 80,
        },
{
    match terminal_width {
        Some(w) => w,
        None => 80,
    }
}

// ── The dotfiles root ───────────────────────────────────────────────

/// The dotfiles root the commands work on: `$DOTFILES_ROOT` when it is
/// set and names something on disk, else the enclosing git checkout's
/// top level, else the current directory.
pub open spec fn spec_discover_root(
    env_root: Option<Seq<char>>,
    env_root_exists: bool,
    git_top_level: Option<Seq<char>>,
    cwd: Seq<char>,
) -> Seq<char> {
    match env_root {
        Some(e) if env_root_exists => e,
        _ => match git_top_level {
            Some(g) => g,
            None => cwd,
        },
    }
}

/// Pick the dotfiles root from what the process found: the value of
/// `$DOTFILES_ROOT` and whether it exists, the git top level (as
/// `safety::git_top_level_from` reads it), and the current directory.
pub fn discover_dotfiles_root(
    env_root: Option<String>,
    env_root_exists: bool,
    git_top_level: Option<String>,
    cwd: String,
) -> (r: String)
    ensures
        r@ == spec_discover_root(
            crate::safety::opt_string_view(env_root),
            env_root_exists,
            crate::safety::opt_string_view(git_top_level),
            cwd@,
        ),
{
    match env_root {
        Some(e) if env_root_exists => e,
        _ => match git_top_level {
            Some(g) => g,
            None => cwd,
        },
    }
}

// ── probe shell-init ────────────────────────────────────────────────

/// How many recent profiles the drill-down and errors views examine.
pub const DEFAULT_FILTER_RUNS: usize = 20;

/// How many history rows are shown at most.
pub const DEFAULT_HISTORY_LIMIT: usize = 50;

/// Which shell-init view an invocation asks for.
#[derive(Debug)]
pub enum ShellInitMode {
    /// Failing targets across recent runs.
    Errors { runs: usize },
    /// One pack (or file) across recent runs.
    Filter { filter: String, runs: usize },
    /// Per-target statistics over the last `runs` runs.
    Aggregate { runs: usize },
    /// One row per recent run.
    History { limit: usize },
    /// The most recent run.
    Latest,
}

/// `--errors-only` wins, then a `<pack>[/<file>]` filter, then
/// `--runs N`, then `--history`; otherwise the latest run.
pub fn shell_init_mode(errors_only: bool, filter: Option<String>, runs: Option<usize>, history: bool) -> (r:
    ShellInitMode)
    ensures
        errors_only ==> (r matches ShellInitMode::Errors { runs: n } && n == DEFAULT_FILTER_RUNS),
        !errors_only && filter is Some ==> (r matches ShellInitMode::Filter { filter: f, runs: n } && f
            == filter->0 && n == DEFAULT_FILTER_RUNS),
        !errors_only && filter is None && runs is Some ==> (r matches ShellInitMode::Aggregate {
            runs: n,
        } && n == runs->0),
        !errors_only && filter is None && runs is None && history ==> (r matches ShellInitMode::History {
            limit: n,
        } && n == DEFAULT_HISTORY_LIMIT),
        !errors_only && filter is None && runs is None && !history ==> r is Latest,
{
    if errors_only {
        ShellInitMode::Errors { runs: DEFAULT_FILTER_RUNS }
    } else {
        match filter {
            Some(f) => ShellInitMode::Filter { filter: f, runs: DEFAULT_FILTER_RUNS },
            None => match runs {
                Some(n) => ShellInitMode::Aggregate { runs: n },
                None => if history {
                    ShellInitMode::History { limit: DEFAULT_HISTORY_LIMIT }
                } else {
                    ShellInitMode::Latest
                },
            },
        }
    }
}

// ── prompts reset ───────────────────────────────────────────────────

/// `dodot prompts reset` takes a key or `--all`, exactly one of them.
pub fn check_prompts_reset(key: Option<&str>, all: bool) -> (r: Result<(), String>)
    ensures
        r is Ok <==> (all != key is Some),
        all && key is Some ==> (r matches Err(m) && m@
            == "`dodot prompts reset` accepts a key or --all, not both"@),
        !all && key is None ==> (r matches Err(m) && m@
            == "`dodot prompts reset` requires either a key or --all"@),
{
    if all && key.is_some() {
        return Err(String::from_str("`dodot prompts reset` accepts a key or --all, not both"));
    }
    if !all && key.is_none() {
        return Err(String::from_str("`dodot prompts reset` requires either a key or --all"));
    }
    Ok(())
}

// ── Configuration listings ──────────────────────────────────────────

/// Every `String("value")` in a configuration listing rewritten as
/// `"value"`, leftmost first and again from the start after each
/// rewrite, until none is left or an opening has no closing `")`.
pub open spec fn spec_clean_debug(s: Seq<char>) -> Seq<char>
    decreases s.len(),
{
    match first_occurrence(s, "String(\""@, 0) {
        Some(start) => if 0 <= start && start + 8 <= s.len() {
            match first_occurrence(s, "\")"@, start + 8) {
                Some(end) => if start + 8 <= end && end + 2 <= s.len() {
                    spec_clean_debug(
                        s.take(start) + seq!['"'] + s.subrange(start + 8, end) + seq!['"'] + s.skip(end + 2),
                    )
                } else {
                    s
                },
                None => s,
            }
        } else {
            s
        },
        None => s,
    }
}

/// A configuration listing with its `String("...")` wrappers removed.
pub fn clean_debug_format(input: &str) -> (r: String)
    ensures
        r@ == spec_clean_debug(input@),
{
    let open = chars_of("String(\"");
    let close = chars_of("\")");
    proof {
        reveal_strlit("String(\"");
        reveal_strlit("\")");
    }
    let mut r = chars_of(input);
    loop
        invariant
            open@ == "String(\""@,
            close@ == "\")"@,
            open@.len() == 8,
            close@.len() == 2,
            spec_clean_debug(r@) == spec_clean_debug(input@),
        ensures
            r@ == spec_clean_debug(input@),
        decreases r@.len(),
    {
        let n = r.len();
        let start = match find_from(r.as_slice(), open.as_slice(), 0) {
            Some(s) => s,
            None => break,
        };
        assert(start + 8 <= n);
        let end = match find_from(r.as_slice(), close.as_slice(), start + 8) {
            Some(e) => e,
            None => break,
        };
        assert(end + 2 <= n);
        let mut next = copy_range(r.as_slice(), 0, start);
        next.push('"');
        let value = copy_range(r.as_slice(), start + 8, end);
        push_chars(&mut next, value.as_slice());
        next.push('"');
        let tail = copy_range(r.as_slice(), end + 2, r.len());
        push_chars(&mut next, tail.as_slice());
        proof {
            assert(next@ =~= r@.take(start as int) + seq!['"'] + r@.subrange(start + 8, end as int) + seq!['"']
                + r@.skip(end + 2));
        }
        r = next;
    }
    string_of(r.as_slice())
}

// ── The install ladder ──────────────────────────────────────────────

/// One installable piece offered after `dodot up`.
#[derive(Debug, Clone, Copy)]
pub struct LadderRung {
    /// Label in the prompt body and the preview.
    pub name: &'static str,
    /// Prompt-registry key of this rung's own dismissal.
    pub component_key: &'static str,
    /// One-liner listing what would be installed.
    pub summary: &'static str,
}

pub open spec fn rung_key(r: LadderRung) -> Seq<char> {
    r.component_key@
}

/// The pre-commit hook rung.
pub fn rung_hook() -> (r: LadderRung)
    ensures
        r.name@ == "pre-commit hook"@,
        r.component_key@ == "template.install_hook"@,
        r.summary@ == "pre-commit hook (refreshes templates + safety check on `git commit`)"@,
{
    LadderRung {
        name: "pre-commit hook",
        component_key: "template.install_hook",
        summary: "pre-commit hook (refreshes templates + safety check on `git commit`)",
    }
}

/// The plist filter rung.
pub fn rung_plist_filter() -> (r: LadderRung)
    ensures
        r.name@ == "plist clean/smudge filters"@,
        r.component_key@ == "plist.install_filters"@,
        r.summary@ == "dodot-plist clean/smudge filters (binary↔XML for plists)"@,
{
    LadderRung {
        name: "plist clean/smudge filters",
        component_key: "plist.install_filters",
        summary: "dodot-plist clean/smudge filters (binary↔XML for plists)",
    }
}

/// The template filter rung.
pub fn rung_template_filter() -> (r: LadderRung)
    ensures
        r.name@ == "template clean filter"@,
        r.component_key@ == "template.install_filter"@,
        r.summary@ == "dodot-template clean filter (live diffs in `git status` / `git diff`)"@,
{
    LadderRung {
        name: "template clean filter",
        component_key: "template.install_filter",
        summary: "dodot-template clean filter (live diffs in `git status` / `git diff`)",
    }
}

/// The ladder's own registry key.
pub fn ladder_key() -> (r: &'static str)
    ensures
        r@ == "magic.install_ladder"@,
{
    "magic.install_ladder"
}

/// What the repository and the registry say, as found.
#[derive(Debug)]
pub struct LadderFacts {
    /// Some template baselines exist.
    pub templates_present: bool,
    /// Some active pack holds a plist file.
    pub plist_present: bool,
    /// The dotfiles root has a `.git` directory.
    pub in_git_worktree: bool,
    pub hook_installed: bool,
    pub filters_installed: bool,
    pub template_filter_installed: bool,
}

/// The keys of the rungs the ladder offers, in install order: the hook
/// when templates exist in a Git worktree without it; the plist
/// filters when plists exist without them; the template filter when
/// templates exist without it; each only while its own dismissal is
/// not recorded. Nothing when the ladder itself was dismissed.
pub open spec fn spec_ladder_keys(facts: LadderFacts, dismissed: Seq<Seq<char>>) -> Seq<Seq<char>> {
    if dismissed.contains("magic.install_ladder"@) {
        Seq::<Seq<char>>::empty()
    } else {
        let hook = facts.templates_present && facts.in_git_worktree && !facts.hook_installed
            && !dismissed.contains("template.install_hook"@);
        let plist = facts.plist_present && !facts.filters_installed && !dismissed.contains(
            "plist.install_filters"@,
        );
        let template = facts.templates_present && !facts.template_filter_installed
            && !dismissed.contains("template.install_filter"@);
        (if hook {
            seq!["template.install_hook"@]
        } else {
            Seq::<Seq<char>>::empty()
        }) + (if plist {
            seq!["plist.install_filters"@]
        } else {
            Seq::<Seq<char>>::empty()
        }) + (if template {
            seq!["template.install_filter"@]
        } else {
            Seq::<Seq<char>>::empty()
        })
    }
}

fn is_dismissed(dismissed: &[String], key: &str) -> (r: bool)
    ensures
        r == strings_view(dismissed@).contains(key@),
{
    let k = chars_of(key);
    let mut i: usize = 0;
    while i < dismissed.len()
        invariant
            i <= dismissed@.len(),
            k@ == key@,
            forall|j: int| 0 <= j < i ==> (#[trigger] dismissed@[j])@ != key@,
        decreases dismissed.len() - i,
    {
        let d = chars_of(dismissed[i].as_str());
        if chars_eq(d.as_slice(), k.as_slice()) {
            proof {
                assert(strings_view(dismissed@)[i as int] == key@);
            }
            return true;
        }
        i = i + 1;
    }
    proof {
        if strings_view(dismissed@).contains(key@) {
            let j = choose|j: int|
                0 <= j < strings_view(dismissed@).len() && strings_view(dismissed@)[j] == key@;
            assert(dismissed@[j]@ == key@);
        }
    }
    false
}

/// The rungs the ladder offers, in install order.
pub fn active_rungs(facts: &LadderFacts, dismissed: &[String]) -> (r: Vec<LadderRung>)
    ensures
        r@.map_values(|x: LadderRung| rung_key(x)) == spec_ladder_keys(*facts, strings_view(dismissed@)),
{
    let mut out: Vec<LadderRung> = Vec::new();
    if is_dismissed(dismissed, "magic.install_ladder") {
        proof {
            assert(out@.map_values(|x: LadderRung| rung_key(x)) =~= Seq::<Seq<char>>::empty());
        }
        return out;
    }
    if facts.templates_present && facts.in_git_worktree && !facts.hook_installed && !is_dismissed(
        dismissed,
        "template.install_hook",
    ) {
        out.push(rung_hook());
    }
    let ghost a = out@.map_values(|x: LadderRung| rung_key(x));
    if facts.plist_present && !facts.filters_installed && !is_dismissed(
        dismissed,
        "plist.install_filters",
    ) {
        out.push(rung_plist_filter());
    }
    let ghost b = out@.map_values(|x: LadderRung| rung_key(x));
    if facts.templates_present && !facts.template_filter_installed && !is_dismissed(
        dismissed,
        "template.install_filter",
    ) {
        out.push(rung_template_filter());
    }
    proof {
        assert(out@.map_values(|x: LadderRung| rung_key(x)) =~= spec_ladder_keys(
            *facts,
            strings_view(dismissed@),
        ));
    }
    out
}

/// The prompt body for the offered rungs: what dodot can wire up, one
/// bullet per rung, a blank line, and the question (singular for one
/// rung).
pub open spec fn spec_ladder_body(summaries: Seq<Seq<char>>) -> Seq<Seq<char>> {
    seq!["dodot can wire git up to handle the files in this repo:"@] + summaries.map_values(
        |s: Seq<char>| "  - "@ + s,
    ) + seq![
        Seq::<char>::empty(),
        if summaries.len() == 1 {
            "Install it now? `show` previews first; `no` skips and won't ask again."@
        } else {
            "Install all "@ + decimal(summaries.len()) + "? `show` previews each; `no` skips and won't ask again."@
        },
    ]
}

/// The prompt body for the offered rungs.
pub fn ladder_body(rungs: &[LadderRung]) -> (r: Vec<String>)
    ensures
        strings_view(r@) == spec_ladder_body(rungs@.map_values(|x: LadderRung| x.summary@)),
{
    let ghost sums = rungs@.map_values(|x: LadderRung| x.summary@);
    let mut out: Vec<String> = Vec::new();
    out.push(String::from_str("dodot can wire git up to handle the files in this repo:"));
    let ghost head = strings_view(out@);
    let mut i: usize = 0;
    while i < rungs.len()
        invariant
            i <= rungs@.len(),
            sums == rungs@.map_values(|x: LadderRung| x.summary@),
            strings_view(out@) == head + sums.take(i as int).map_values(|s: Seq<char>| "  - "@ + s),
        decreases rungs.len() - i,
    {
        let mut v = chars_of("  - ");
        push_str(&mut v, rungs[i].summary);
        let ghost before = strings_view(out@);
        let line = string_of(v.as_slice());
        out.push(line);
        proof {
            assert(strings_view(out@) =~= before.push(line@));
            assert(sums.take(i + 1).map_values(|s: Seq<char>| "  - "@ + s) =~= sums.take(
                i as int,
            ).map_values(|s: Seq<char>| "  - "@ + s).push("  - "@ + sums[i as int]));
        }
        i = i + 1;
    }
    let ghost mid = strings_view(out@);
    out.push(String::new());
    let last = if rungs.len() == 1 {
        String::from_str("Install it now? `show` previews first; `no` skips and won't ask again.")
    } else {
        let mut v = chars_of("Install all ");
        push_decimal(&mut v, rungs.len() as u64);
        push_str(&mut v, "? `show` previews each; `no` skips and won't ask again.");
        string_of(v.as_slice())
    };
    let ghost lv = last@;
    out.push(last);
    proof {
        assert(sums.take(sums.len() as int) =~= sums);
        assert(strings_view(out@) =~= mid + seq![Seq::<char>::empty(), lv]);
        assert(strings_view(out@) =~= spec_ladder_body(sums));
    }
    out
}

/// The ladder's prompt, when there is one to ask.
#[derive(Debug)]
pub struct LadderPrompt {
    pub rungs: Vec<LadderRung>,
    pub body: Vec<String>,
}

/// Whether to offer the install ladder after `dodot up`, and with what:
/// only on a terminal, and only when some rung is on offer. The answer
/// is decided by `ladder_plan` over the offered rungs: yes installs and
/// saves, no dismisses every offered rung and the ladder and saves, show
/// previews and records nothing. Nothing about the prompt can fail the
/// `up` that offered it: this function and `ladder_plan` are total, and
/// the caller reports a failed install or save without failing `up`.
pub fn maybe_prompt_install_ladder(tty: bool, facts: &LadderFacts, dismissed: &[String]) -> (r: Option<
    LadderPrompt,
>)
    ensures
        r is Some <==> (tty && spec_ladder_keys(*facts, strings_view(dismissed@)).len() > 0),
        match r {
            Some(p) => p.rungs@.map_values(|x: LadderRung| rung_key(x)) == spec_ladder_keys(
                *facts,
                strings_view(dismissed@),
            ) && strings_view(p.body@) == spec_ladder_body(
                p.rungs@.map_values(|x: LadderRung| x.summary@),
            ),
            None => true,
        },
{
    if !tty {
        return None;
    }
    let rungs = active_rungs(facts, dismissed);
    if rungs.len() == 0 {
        return None;
    }
    let body = ladder_body(rungs.as_slice());
    Some(LadderPrompt { rungs, body })
}

/// What to do with the answer to the ladder.
#[derive(Debug)]
pub struct LadderPlan {
    /// Rungs to install, in order; each is dismissed once installed.
    pub install: Vec<LadderRung>,
    /// Rungs to preview.
    pub preview: Vec<LadderRung>,
    /// Keys to dismiss now.
    pub dismiss: Vec<&'static str>,
    /// Whether the registry is saved afterwards.
    pub save: bool,
    /// What to tell the user, when anything.
    pub message: Option<String>,
}

/// The answer to the ladder: yes installs every offered rung in order
/// (each dismissed as it succeeds) and saves; show previews them and
/// records nothing; no dismisses every offered rung and the ladder
/// itself, saves, and says how to bring a rung back.
pub fn ladder_plan(rungs: &[LadderRung], response: YesNoShow) -> (r: LadderPlan)
    ensures
        r.save <==> response != YesNoShow::Show,
        response == YesNoShow::Yes ==> r.install@ == rungs@ && r.preview@.len() == 0
            && r.dismiss@.len() == 0 && r.save && r.message is None,
        response == YesNoShow::Show ==> r.preview@ == rungs@ && r.install@.len() == 0
            && r.dismiss@.len() == 0 && !r.save && r.message is None,
        response == YesNoShow::No ==> r.install@.len() == 0 && r.preview@.len() == 0 && r.save
            && r.dismiss@.map_values(|k: &'static str| k@) == rungs@.map_values(
            |x: LadderRung| rung_key(x),
        ).push("magic.install_ladder"@) && (r.message matches Some(m) && m@
            == "Skipped install ladder. Re-run `dodot prompts reset <key>` to surface a specific rung again, or `dodot prompts reset magic.install_ladder` for the lot."@),
{
    let mut copy: Vec<LadderRung> = Vec::new();
    let mut i: usize = 0;
    while i < rungs.len()
        invariant
            i <= rungs@.len(),
            copy@ == rungs@.take(i as int),
        decreases rungs.len() - i,
    {
        copy.push(rungs[i]);
        proof {
            assert(rungs@.take(i + 1) =~= rungs@.take(i as int).push(rungs@[i as int]));
        }
        i = i + 1;
    }
    proof {
        assert(rungs@.take(rungs@.len() as int) =~= rungs@);
    }
    match response {
        YesNoShow::Yes => LadderPlan {
            install: copy,
            preview: Vec::new(),
            dismiss: Vec::new(),
            save: true,
            message: None,
        },
        YesNoShow::Show => LadderPlan {
            install: Vec::new(),
            preview: copy,
            dismiss: Vec::new(),
            save: false,
            message: None,
        },
        YesNoShow::No => {
            let mut keys: Vec<&'static str> = Vec::new();
            let mut j: usize = 0;
            while j < copy.len()
                invariant
                    j <= copy@.len(),
                    copy@ == rungs@,
                    keys@.map_values(|k: &'static str| k@) == rungs@.take(j as int).map_values(
                        |x: LadderRung| rung_key(x),
                    ),
                decreases copy.len() - j,
            {
                let ghost before = keys@;
                keys.push(copy[j].component_key);
                proof {
                    assert(keys@ =~= before.push(copy@[j as int].component_key));
                    assert(keys@.map_values(|k: &'static str| k@) =~= before.map_values(
                        |k: &'static str| k@,
                    ).push(copy@[j as int].component_key@));
                    assert(rungs@.take(j + 1) =~= rungs@.take(j as int).push(rungs@[j as int]));
                    assert(keys@.map_values(|k: &'static str| k@) =~= rungs@.take(j + 1).map_values(
                        |x: LadderRung| rung_key(x),
                    ));
                }
                j = j + 1;
            }
            let ghost before = keys@;
            keys.push(ladder_key());
            proof {
                assert(rungs@.take(rungs@.len() as int) =~= rungs@);
                assert(keys@ =~= before.push(keys@[keys@.len() - 1]));
                assert(keys@.map_values(|k: &'static str| k@) =~= rungs@.map_values(
                    |x: LadderRung| rung_key(x),
                ).push("magic.install_ladder"@));
            }
            LadderPlan {
                install: Vec::new(),
                preview: Vec::new(),
                dismiss: keys,
                save: true,
                message: Some(
                    String::from_str(
                        "Skipped install ladder. Re-run `dodot prompts reset <key>` to surface a specific rung again, or `dodot prompts reset magic.install_ladder` for the lot.",
                    ),
                ),
            }
        },
    }
}

/// The header line of a rung's preview.
pub fn rung_preview_header(rung: &LadderRung) -> (r: String)
    ensures
        r@ == "── "@ + rung.name@ + " ──"@,
{
    let mut v = chars_of("── ");
    push_str(&mut v, rung.name);
    push_str(&mut v, " ──");
    string_of(v.as_slice())
}

/// The closing line of the ladder's previews.
pub fn ladder_preview_footer() -> (r: &'static str)
    ensures
        r@ == "Re-run `dodot up` to answer the prompt, or run the install commands directly."@,
{
    "Re-run `dodot up` to answer the prompt, or run the install commands directly."
}

// ── The cfprefsd nudge ──────────────────────────────────────────────

/// Whether to ask about restarting `cfprefsd` after `dodot up`.
#[derive(Debug, Clone, Copy, PartialEq, Eq, Structural)]
pub enum CfprefsdStep {
    /// Nothing to do.
    Skip,
    /// A plist changed, but the prompt was dismissed: only clear the
    /// change marker.
    ClearMarker,
    /// Ask.
    Ask,
}

/// Only on macOS, on a terminal, and when a plist change was marked;
/// a dismissed prompt only clears the marker.
pub fn maybe_prompt_invalidate_cfprefsd(
    on_macos: bool,
    tty: bool,
    marker_exists: bool,
    dismissed: bool,
) -> (r: CfprefsdStep)
    ensures
        r == (if !on_macos || !tty || !marker_exists {
            CfprefsdStep::Skip
        } else if dismissed {
            CfprefsdStep::ClearMarker
        } else {
            CfprefsdStep::Ask
        }),
{
    if !on_macos || !tty || !marker_exists {
        CfprefsdStep::Skip
    } else if dismissed {
        CfprefsdStep::ClearMarker
    } else {
        CfprefsdStep::Ask
    }
}

/// The registry key of the `cfprefsd` prompt.
pub fn cfprefsd_key() -> (r: &'static str)
    ensures
        r@ == "plist.cfprefsd_invalidate"@,
{
    "plist.cfprefsd_invalidate"
}

/// The question about `cfprefsd`.
pub fn cfprefsd_prompt_lines() -> (r: Vec<&'static str>)
    ensures
        r@.map_values(|l: &'static str| l@) == seq![
            "dodot detected a plist change on this `up`."@,
            "macOS caches plist values via cfprefsd; running apps may show stale values until"@,
            "cfprefsd is restarted. Run `killall cfprefsd` now? (cfprefsd respawns immediately;"@,
            "no data loss.) `no` skips and won't ask again."@,
        ],
{
    let v = vec![
        "dodot detected a plist change on this `up`.",
        "macOS caches plist values via cfprefsd; running apps may show stale values until",
        "cfprefsd is restarted. Run `killall cfprefsd` now? (cfprefsd respawns immediately;",
        "no data loss.) `no` skips and won't ask again.",
    ];
    proof {
        assert(v@.map_values(|l: &'static str| l@) =~= seq![
            "dodot detected a plist change on this `up`."@,
            "macOS caches plist values via cfprefsd; running apps may show stale values until"@,
            "cfprefsd is restarted. Run `killall cfprefsd` now? (cfprefsd respawns immediately;"@,
            "no data loss.) `no` skips and won't ask again."@,
        ]);
    }
    v
}

/// What to do with the answer about `cfprefsd`.
#[derive(Debug)]
pub struct CfprefsdPlan {
    pub run_killall: bool,
    pub dismiss: bool,
    pub clear_marker: bool,
    /// Lines to print now (the preview, or the skip notice).
    pub lines: Vec<String>,
}

/// Every answer clears the marker, so the prompt does not fire again on
/// the next `up` unless a plist changes again; only no dismisses the
/// prompt for good (and says how to bring it back). Yes runs `killall
/// cfprefsd`; show prints what would run.
pub fn cfprefsd_plan(response: YesNoShow) -> (r: CfprefsdPlan)
    ensures
        r.clear_marker,
        r.dismiss <==> response == YesNoShow::No,
        r.run_killall <==> response == YesNoShow::Yes,
        response == YesNoShow::Yes ==> r.lines@.len() == 0,
        response == YesNoShow::No ==> strings_view(
            r.lines@,
        ) == seq![
            "Skipped. Re-run `dodot prompts reset plist.cfprefsd_invalidate` to surface this prompt again."@,
        ],
        response == YesNoShow::Show ==> strings_view(r.lines@) == seq![
            ""@,
            "Would run:"@,
            "    killall cfprefsd"@,
            ""@,
            "That tells macOS to drop its cached plist values; the daemon respawns"@,
            "automatically. No data loss; running apps re-read the plist on next access."@,
        ],
{
    match response {
        YesNoShow::Yes => CfprefsdPlan { run_killall: true, dismiss: false, clear_marker: true, lines: Vec::new() },
        YesNoShow::No => {
            let v = vec![
                String::from_str(
                    "Skipped. Re-run `dodot prompts reset plist.cfprefsd_invalidate` to surface this prompt again.",
                ),
            ];
            proof {
                assert(strings_view(v@) =~= seq![
                    "Skipped. Re-run `dodot prompts reset plist.cfprefsd_invalidate` to surface this prompt again."@,
                ]);
            }
            CfprefsdPlan { run_killall: false, dismiss: true, clear_marker: true, lines: v }
        },
        YesNoShow::Show => {
            let v = vec![
                String::new(),
                String::from_str("Would run:"),
                String::from_str("    killall cfprefsd"),
                String::new(),
                String::from_str("That tells macOS to drop its cached plist values; the daemon respawns"),
                String::from_str("automatically. No data loss; running apps re-read the plist on next access."),
            ];
            proof {
                reveal_strlit("");
                assert(""@ =~= Seq::<char>::empty());
                assert(strings_view(v@) =~= seq![
                    ""@,
                    "Would run:"@,
                    "    killall cfprefsd"@,
                    ""@,
                    "That tells macOS to drop its cached plist values; the daemon respawns"@,
                    "automatically. No data loss; running apps re-read the plist on next access."@,
                ]);
            }
            CfprefsdPlan { run_killall: false, dismiss: false, clear_marker: true, lines: v }
        },
    }
}

/// The report of the `killall cfprefsd` run; any exit counts as done.
pub fn killall_report(result: Result<(), &str>) -> (r: String)
    ensures
        match result {
            Ok(_) => r@ == "Ran `killall cfprefsd`."@,
            Err(e) => r@ == "Tried to run `killall cfprefsd` but failed: "@ + e@
                + ". You can run it yourself if running apps still show stale plist values."@,
        },
{
    match result {
        Ok(_) => String::from_str("Ran `killall cfprefsd`."),
        Err(e) => {
            let mut v = chars_of("Tried to run `killall cfprefsd` but failed: ");
            push_str(&mut v, e);
            push_str(&mut v, ". You can run it yourself if running apps still show stale plist values.");
            string_of(v.as_slice())
        },
    }
}

} // verus!
