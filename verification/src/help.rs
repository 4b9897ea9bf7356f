//! Which hand-written help page a command line asks for.
//!
//! `--help`, `-h` and a leading `help` word are recognised before the
//! ordinary argument parser runs, and the words before them (or after
//! `help`) name the command, joined with `.` (`probe.shell-init`). A
//! command with no page of its own falls back to its nearest parent's,
//! and finally to the top-level page (`""`). The pages themselves are
//! written here, one per registered path.

use vstd::prelude::*;
use crate::text::{chars_eq, chars_of, join_with, last_occurrence, rfind_chars, string_of};

verus! {

/// One command-line argument as the scan sees it: its text (a lossy
/// rendering when it is not valid Unicode) and whether it was valid
/// Unicode. Only valid Unicode arguments can be markers.
#[derive(Debug)]
pub struct HelpArg {
    pub text: String,
    pub unicode: bool,
}

/// Where the scan stands after some arguments.
pub struct ScanState {
    pub path: Seq<Seq<char>>,
    pub found: bool,
    /// After a leading `help` word, the remaining words name the command.
    pub rest_as_path: bool,
    /// After `--`, nothing looks like a flag or a marker.
    pub terminated: bool,
    /// `--help` / `-h` ends the scan.
    pub stopped: bool,
}

pub open spec fn scan_start() -> ScanState {
    ScanState {
        path: Seq::<Seq<char>>::empty(),
        found: false,
        rest_as_path: false,
        terminated: false,
        stopped: false,
    }
}

pub open spec fn is_marker_word(text: Seq<char>, unicode: bool, w: Seq<char>) -> bool {
    unicode && text == w
}

/// One argument more.
pub open spec fn scan_step(st: ScanState, text: Seq<char>, unicode: bool) -> ScanState {
    let flag_like = text.len() > 0 && text[0] == '-';
    if st.stopped {
        st
    } else if !st.terminated && is_marker_word(text, unicode, "--"@) {
        ScanState { terminated: true, ..st }
    } else if st.rest_as_path {
        if !st.terminated && flag_like {
            st
        } else {
            ScanState { path: st.path.push(text), ..st }
        }
    } else if !st.terminated && (is_marker_word(text, unicode, "--help"@) || is_marker_word(
        text,
        unicode,
        "-h"@,
    )) {
        ScanState { found: true, stopped: true, ..st }
    } else if !st.terminated && is_marker_word(text, unicode, "help"@) && st.path.len() == 0 {
        ScanState { found: true, rest_as_path: true, ..st }
    } else if !st.terminated && flag_like {
        st
    } else {
        ScanState { path: st.path.push(text), ..st }
    }
}

pub open spec fn scan_args(args: Seq<HelpArg>) -> ScanState
    decreases args.len(),
{
    if args.len() == 0 {
        scan_start()
    } else {
        scan_step(scan_args(args.drop_last()), args.last().text@, args.last().unicode)
    }
}

/// The help request in a command line (program name first), as a
/// dotted command path; `None` when there is none.
pub open spec fn spec_help_request(argv: Seq<HelpArg>) -> Option<Seq<char>> {
    let st = scan_args(if argv.len() > 0 {
        argv.skip(1)
    } else {
        argv
    });
    if st.found {
        Some(join_with(st.path, "."@))
    } else {
        None
    }
}

fn word_is(v: &Vec<char>, w: &str) -> (r: bool)
    ensures
        r == (v@ == w@),
{
    let wv = chars_of(w);
    chars_eq(v.as_slice(), wv.as_slice())
}

/// The help request in a command line (program name first): the
/// command path the help is for, or `None` when the line asks for no
/// help and ordinary dispatch should go on.
pub fn detect_help_request(argv: &[HelpArg]) -> (r: Option<String>)
    ensures
        match r {
            Some(p) => spec_help_request(argv@) == Some(p@),
            None => spec_help_request(argv@) is None,
        },
{
    let ghost args = if argv@.len() > 0 {
        argv@.skip(1)
    } else {
        argv@
    };
    let mut path: Vec<String> = Vec::new();
    let mut found = false;
    let mut rest_as_path = false;
    let mut terminated = false;
    let mut stopped = false;
    let mut i: usize = if argv.len() > 0 {
        1
    } else {
        0
    };
    let start = i;
    proof {
        assert(args.take(0) =~= Seq::<HelpArg>::empty());
        assert(crate::infer::strings_view(path@) =~= Seq::<Seq<char>>::empty());
    }
    while i < argv.len()
        invariant
            start <= i <= argv@.len(),
            start == (if argv@.len() > 0 {
                1usize
            } else {
                0usize
            }),
            args == (if argv@.len() > 0 {
                argv@.skip(1)
            } else {
                argv@
            }),
            ({
                let st = scan_args(args.take(i - start));
                &&& st.path == crate::infer::strings_view(path@)
                &&& st.found == found
                &&& st.rest_as_path == rest_as_path
                &&& st.terminated == terminated
                &&& st.stopped == stopped
            }),
        decreases argv.len() - i,
    {
        let ghost k = i - start;
        proof {
            assert(args.take(k + 1).drop_last() =~= args.take(k));
            assert(args.take(k + 1).last() == argv@[i as int]);
        }
        let a = &argv[i];
        let t = chars_of(a.text.as_str());
        let flag_like = t.len() > 0 && t[0] == '-';
        let ghost before = crate::infer::strings_view(path@);
        if stopped {
        } else if !terminated && a.unicode && word_is(&t, "--") {
            terminated = true;
        } else if rest_as_path {
            if !terminated && flag_like {
            } else {
                path.push(a.text.clone());
                proof {
                    assert(crate::infer::strings_view(path@) =~= before.push(a.text@));
                }
            }
        } else if !terminated && a.unicode && (word_is(&t, "--help") || word_is(&t, "-h")) {
            found = true;
            stopped = true;
        } else if !terminated && a.unicode && word_is(&t, "help") && path.len() == 0 {
            found = true;
            rest_as_path = true;
        } else if !terminated && flag_like {
        } else {
            path.push(a.text.clone());
            proof {
                assert(crate::infer::strings_view(path@) =~= before.push(a.text@));
            }
        }
        i = i + 1;
    }
    proof {
        assert(args.take(i - start) =~= args);
    }
    if !found {
        return None;
    }
    let joined = crate::text::join_strings(path.as_slice(), ".");
    proof {
        assert(Seq::new(path@.len(), |j: int| path@[j]@) =~= crate::infer::strings_view(path@));
    }
    Some(string_of(joined.as_slice()))
}

/// The command paths that have a help page of their own, more specific
/// paths before their prefixes.
pub open spec fn help_keys() -> Seq<Seq<char>> {
    seq![
        ""@,
        "up"@,
        "down"@,
        "status"@,
        "list"@,
        "init"@,
        "fill"@,
        "adopt"@,
        "addignore"@,
        "tutorial"@,
        "init-sh"@,
        "install"@,
        "plist"@,
        "git-install-filters"@,
        "git-show-filters"@,
        "prompts"@,
        "roots"@,
        "reset"@,
        "config"@,
        "refresh"@,
        "transform"@,
        "secret"@,
        "template"@,
        "git-show-alias"@,
        "git-install-alias"@,
        "probe.deployment-map"@,
        "probe.show-data-dir"@,
        "probe.shell-init"@,
        "probe.app"@,
        "probe"@,
    ]
}

/// The registered command paths, as static text.
pub fn help_key_list() -> (r: Vec<&'static str>)
    ensures
        r@.len() == help_keys().len(),
        forall|i: int| 0 <= i < r@.len() ==> (#[trigger] r@[i])@ == help_keys()[i],
{
    let v: Vec<&'static str> = vec![
        "",
        "up",
        "down",
        "status",
        "list",
        "init",
        "fill",
        "adopt",
        "addignore",
        "tutorial",
        "init-sh",
        "install",
        "plist",
        "git-install-filters",
        "git-show-filters",
        "prompts",
        "roots",
        "reset",
        "config",
        "refresh",
        "transform",
        "secret",
        "template",
        "git-show-alias",
        "git-install-alias",
        "probe.deployment-map",
        "probe.show-data-dir",
        "probe.shell-init",
        "probe.app",
        "probe",
    ];
    proof {
        assert forall|i: int| 0 <= i < v@.len() implies (#[trigger] v@[i])@ == help_keys()[i] by {
            reveal_strlit("");
            reveal_strlit("up");
        }
    }
    v
}

/// The page shown for a command path: its own when it has one, else
/// its parent's (the path up to its last `.`), and the top-level page
/// when no prefix has one.
pub open spec fn spec_lookup(path: Seq<char>) -> Seq<char>
    decreases path.len(),
{
    if help_keys().contains(path) {
        path
    } else {
        match last_occurrence(path, seq!['.'], path.len() as int) {
            Some(i) => if 0 <= i < path.len() {
                spec_lookup(path.take(i))
            } else {
                ""@
            },
            None => ""@,
        }
    }
}

/// The registered command path whose help page `path` gets.
pub fn help_path(path: &str) -> (r: &'static str)
    ensures
        r@ == spec_lookup(path@),
{
    let keys = help_key_list();
    let mut cur = chars_of(path);
    let dot = chars_of(".");
    proof {
        reveal_strlit(".");
        assert(dot@ =~= seq!['.']);
    }
    loop
        invariant
            keys@.len() == help_keys().len(),
            forall|i: int| 0 <= i < keys@.len() ==> (#[trigger] keys@[i])@ == help_keys()[i],
            dot@ == seq!['.'],
            spec_lookup(cur@) == spec_lookup(path@),
        decreases cur@.len(),
    {
        let mut k: usize = 0;
        while k < keys.len()
            invariant
                keys@.len() == help_keys().len(),
                forall|i: int| 0 <= i < keys@.len() ==> (#[trigger] keys@[i])@ == help_keys()[i],
                k <= keys@.len(),
                spec_lookup(cur@) == spec_lookup(path@),
                forall|i: int| 0 <= i < k ==> help_keys()[i] != cur@,
            decreases keys.len() - k,
        {
            let kv = chars_of(keys[k]);
            if chars_eq(kv.as_slice(), cur.as_slice()) {
                proof {
                    assert(help_keys()[k as int] == cur@);
                    assert(help_keys().contains(cur@));
                }
                return keys[k];
            }
            k = k + 1;
        }
        proof {
            assert(!help_keys().contains(cur@));
        }
        match rfind_chars(cur.as_slice(), dot.as_slice()) {
            Some(i) => {
                let parent = crate::text::copy_range(cur.as_slice(), 0, i);
                proof {
                    assert(parent@ =~= cur@.take(i as int));
                }
                cur = parent;
            },
            None => {
                proof {
                    reveal_strlit("");
                }
                return "";
            },
        }
    }
}

/// The hand-written help page registered under `key`; the top-level
/// page for any other key.
pub open spec fn spec_help_page(key: Seq<char>) -> Seq<char> {
    if key == "up"@ {
        "[title]dodot up — deploy packs[/title]\n\n[header]USAGE[/header]\n  dodot up [--dry-run] [packs...]\n\nDeploys every pack (or the packs named): symlinks config files, sources\nshell files at startup, adds bin/ directories to PATH and runs install\nscripts and Brewfiles once.\nRead-only preview: [cmd]dodot up --dry-run[/cmd] shows the plan and writes nothing.\n\n[header]OPTIONS[/header]\n  [item]--dry-run[/item]   Show what would be deployed without changing anything\n  [item]--force[/item]     Replace files already at a target\n\n[header]EXAMPLES[/header]\n  dodot up\n  dodot up git nvim\n  dodot up --dry-run\n\n[header]SAFETY LOCK[/header]\n  This command changes files under the dotfiles root, so Safety Lock\n  checks the root first. When the root was found implicitly (the git\n  checkout or the current directory) and has not been approved, dodot\n  shows it and asks before the first root-sensitive mutation. A\n  non-interactive invocation refuses instead of asking; for automation,\n  set [item]DOTFILES_ROOT[/item] to the root you mean, which never asks.\n  Approvals are listed and withdrawn with [cmd]dodot roots[/cmd].\n"@
    } else if key == "down"@ {
        "[title]dodot down — remove deployments[/title]\n\n[header]USAGE[/header]\n  dodot down [--dry-run] [packs...]\n\nRemoves what [cmd]dodot up[/cmd] deployed for every pack (or the packs named),\nand the leftovers of packs that no longer exist. Pack sources are untouched.\nRead-only preview: [cmd]dodot down --dry-run[/cmd] lists what would be removed.\n\n[header]OPTIONS[/header]\n  [item]--dry-run[/item]   List what would be removed without removing it\n\n[header]EXAMPLES[/header]\n  dodot down git\n  dodot down --dry-run\n\n[header]SAFETY LOCK[/header]\n  This command changes files under the dotfiles root, so Safety Lock\n  checks the root first. When the root was found implicitly (the git\n  checkout or the current directory) and has not been approved, dodot\n  shows it and asks before the first root-sensitive mutation. A\n  non-interactive invocation refuses instead of asking; for automation,\n  set [item]DOTFILES_ROOT[/item] to the root you mean, which never asks.\n  Approvals are listed and withdrawn with [cmd]dodot roots[/cmd].\n"@
    } else if key == "status"@ {
        "[title]dodot status — what dodot will do[/title]\n\n[header]USAGE[/header]\n  dodot status [packs...]\n\nShows each pack's files, the handler that takes each one and whether it\nis deployed. Read-only: status never asks Safety Lock for approval.\n\n[header]OPTIONS[/header]\n  [item]--short[/item]       One line per pack\n  [item]--by-status[/item]   Group files by status\n\n[header]EXAMPLES[/header]\n  dodot status\n  dodot status nvim\n"@
    } else if key == "list"@ {
        "[title]dodot list — list packs[/title]\n\n[header]USAGE[/header]\n  dodot list\n\nLists the packs in the dotfiles root in the order dodot applies them,\nwith the directories that are ignored and why. Read-only.\n"@
    } else if key == "init"@ {
        "[title]dodot init — create a pack[/title]\n\n[header]USAGE[/header]\n  dodot init <pack>\n\nCreates a new pack directory in the dotfiles root with starter files.\n\n[header]EXAMPLES[/header]\n  dodot init zsh\n\n[header]SAFETY LOCK[/header]\n  This command changes files under the dotfiles root, so Safety Lock\n  checks the root first. When the root was found implicitly (the git\n  checkout or the current directory) and has not been approved, dodot\n  shows it and asks before the first root-sensitive mutation. A\n  non-interactive invocation refuses instead of asking; for automation,\n  set [item]DOTFILES_ROOT[/item] to the root you mean, which never asks.\n  Approvals are listed and withdrawn with [cmd]dodot roots[/cmd].\n"@
    } else if key == "fill"@ {
        "[title]dodot fill — add template files[/title]\n\n[header]USAGE[/header]\n  dodot fill <pack>\n\nAdds the template files a pack does not have yet (aliases.sh, install.sh,\nbin/ ...). Existing files are never overwritten.\n\n[header]EXAMPLES[/header]\n  dodot fill nvim\n\n[header]SAFETY LOCK[/header]\n  This command changes files under the dotfiles root, so Safety Lock\n  checks the root first. When the root was found implicitly (the git\n  checkout or the current directory) and has not been approved, dodot\n  shows it and asks before the first root-sensitive mutation. A\n  non-interactive invocation refuses instead of asking; for automation,\n  set [item]DOTFILES_ROOT[/item] to the root you mean, which never asks.\n  Approvals are listed and withdrawn with [cmd]dodot roots[/cmd].\n"@
    } else if key == "adopt"@ {
        "[title]dodot adopt — bring existing files into a pack[/title]\n\n[header]USAGE[/header]\n  dodot adopt [--into <pack>] [--dry-run] [--force] [--no-follow] [--only-os <label>] <sources...>\n\nMoves existing files into a pack and links them back, so the file at\nits old location becomes a dodot deployment. The pack is inferred from\nthe source path (~/.config/nvim/init.lua lands in pack nvim) unless\n[item]--into[/item] names an existing pack. The run plans and validates\neverything before it writes: a refused run leaves sources and packs as\nthey were. Read-only preview: [cmd]dodot adopt --dry-run[/cmd] shows the plan.\n\n[header]OPTIONS[/header]\n  [item]--into <pack>[/item]      Adopt into this existing pack\n  [item]--dry-run[/item]          Show the plan without changing anything\n  [item]--force[/item]            Replace entries already in the pack\n  [item]--no-follow[/item]        Adopt a symlink source as a link\n  [item]--only-os <label>[/item]  Deploy only on hosts matching a gate label\n\n[header]EXAMPLES[/header]\n  dodot adopt ~/.config/nvim\n  dodot adopt --into git ~/.gitconfig\n\n[header]SAFETY LOCK[/header]\n  This command changes files under the dotfiles root, so Safety Lock\n  checks the root first. When the root was found implicitly (the git\n  checkout or the current directory) and has not been approved, dodot\n  shows it and asks before the first root-sensitive mutation. A\n  non-interactive invocation refuses instead of asking; for automation,\n  set [item]DOTFILES_ROOT[/item] to the root you mean, which never asks.\n  Approvals are listed and withdrawn with [cmd]dodot roots[/cmd].\n"@
    } else if key == "addignore"@ {
        "[title]dodot addignore — ignore a pack[/title]\n\n[header]USAGE[/header]\n  dodot addignore <pack>\n\nWrites a .dodotignore marker into the pack so every dodot run skips it.\n\n[header]EXAMPLES[/header]\n  dodot addignore old-vim\n\n[header]SAFETY LOCK[/header]\n  This command changes files under the dotfiles root, so Safety Lock\n  checks the root first. When the root was found implicitly (the git\n  checkout or the current directory) and has not been approved, dodot\n  shows it and asks before the first root-sensitive mutation. A\n  non-interactive invocation refuses instead of asking; for automation,\n  set [item]DOTFILES_ROOT[/item] to the root you mean, which never asks.\n  Approvals are listed and withdrawn with [cmd]dodot roots[/cmd].\n"@
    } else if key == "tutorial"@ {
        "[title]dodot tutorial — a guided first run[/title]\n\n[header]USAGE[/header]\n  dodot tutorial [--reset] [--from <step>]\n\nWalks through your dotfiles root: checks the root, picks a pack, shows\nits status, explains targets and shell integration (with the\n[cmd]install --write[/cmd] step), then runs a dry-run preview before the\nreal deployment. The tutorial can save progress and resume where you left.\nEverything up to the dry-run preview is read-only; the real deployment is\nthe first root-sensitive mutation, where Safety Lock asks.\n\n[header]OPTIONS[/header]\n  [item]--reset[/item]         Forget saved progress and start over\n  [item]--from <step>[/item]   Start at a named step\n\n[header]SAFETY LOCK[/header]\n  This command changes files under the dotfiles root, so Safety Lock\n  checks the root first. When the root was found implicitly (the git\n  checkout or the current directory) and has not been approved, dodot\n  shows it and asks before the first root-sensitive mutation. A\n  non-interactive invocation refuses instead of asking; for automation,\n  set [item]DOTFILES_ROOT[/item] to the root you mean, which never asks.\n  Approvals are listed and withdrawn with [cmd]dodot roots[/cmd].\n"@
    } else if key == "init-sh"@ {
        "[title]dodot init-sh — shell init script[/title]\n\n[header]USAGE[/header]\n  eval \"$(dodot init-sh)\"\n\nPrints the script your shell sources at startup to load the shell files\nand PATH entries of deployed packs.\n"@
    } else if key == "install"@ {
        "[title]dodot install — wire up your shell[/title]\n\n[header]USAGE[/header]\n  dodot install [--write] [--rc <file>]\n\nShows (or with [item]--write[/item] writes) the line that loads dodot from\nyour shell's rc file: ~/.zshrc for zsh, ~/.bashrc for bash.\n\n[header]OPTIONS[/header]\n  [item]--write[/item]       Write the block instead of showing it\n  [item]--rc <file>[/item]    Use this rc file\n"@
    } else if key == "plist"@ {
        "[title]dodot plist — git filters for plists[/title]\n\n[header]USAGE[/header]\n  dodot plist clean|smudge\n\nGit clean and smudge filters: clean turns a binary plist on stdin into\ncanonical XML on stdout, smudge turns it back. Git runs them; see\n[cmd]dodot git-install-filters[/cmd].\n"@
    } else if key == "git-install-filters"@ {
        "[title]dodot git-install-filters[/title]\n\n[header]USAGE[/header]\n  dodot git-install-filters\n\nWires the plist filters into this clone's .git/config and tells you the\n.gitattributes lines the repository needs.\n\n[header]SAFETY LOCK[/header]\n  This command changes files under the dotfiles root, so Safety Lock\n  checks the root first. When the root was found implicitly (the git\n  checkout or the current directory) and has not been approved, dodot\n  shows it and asks before the first root-sensitive mutation. A\n  non-interactive invocation refuses instead of asking; for automation,\n  set [item]DOTFILES_ROOT[/item] to the root you mean, which never asks.\n  Approvals are listed and withdrawn with [cmd]dodot roots[/cmd].\n"@
    } else if key == "git-show-filters"@ {
        "[title]dodot git-show-filters[/title]\n\n[header]USAGE[/header]\n  dodot git-show-filters\n\nPrints the .git/config and .gitattributes snippets for the plist filters\nand whether they are in place. Read-only.\n"@
    } else if key == "prompts"@ {
        "[title]dodot prompts — one-time prompts[/title]\n\n[header]USAGE[/header]\n  dodot prompts list | reset [<key>]\n\nLists the prompts you dismissed, or makes them ask again.\n"@
    } else if key == "roots"@ {
        "[title]dodot roots — Safety Lock approvals[/title]\n\n[header]USAGE[/header]\n  dodot roots list | forget <root>\n\n[cmd]roots list[/cmd] shows the dotfiles roots you approved.\n[cmd]roots forget[/cmd] withdraws an approval:\nthe next root-sensitive mutation that implicitly\ndiscovers that root asks again. Selecting the root\nexplicitly with [item]DOTFILES_ROOT[/item] never asks.\n"@
    } else if key == "reset"@ {
        "[title]dodot reset — forget local state[/title]\n\n[header]USAGE[/header]\n  dodot reset\n\nRemoves dodot's local state, including the Safety Lock approvals in\nsafety-lock.toml, so every implicitly discovered root asks again.\n"@
    } else if key == "config"@ {
        "[title]dodot config — configuration[/title]\n\n[header]USAGE[/header]\n  dodot config list | get | set | gen\n\nInspects and changes the layered configuration: built-in defaults, the\nroot .dodot.toml, then a pack's .dodot.toml. [cmd]list[/cmd] and [cmd]get[/cmd]\nare read-only. [cmd]set[/cmd] writes to the [item]local[/item] scope;\n[item]local[/item] is the only supported persist scope.\n\n[header]EXAMPLES[/header]\n  dodot config list\n  dodot config gen -o .dodot.toml\n\n[header]SAFETY LOCK[/header]\n  This command changes files under the dotfiles root, so Safety Lock\n  checks the root first. When the root was found implicitly (the git\n  checkout or the current directory) and has not been approved, dodot\n  shows it and asks before the first root-sensitive mutation. A\n  non-interactive invocation refuses instead of asking; for automation,\n  set [item]DOTFILES_ROOT[/item] to the root you mean, which never asks.\n  Approvals are listed and withdrawn with [cmd]dodot roots[/cmd].\n"@
    } else if key == "refresh"@ {
        "[title]dodot refresh — refresh deployed state[/title]\n\n[header]USAGE[/header]\n  dodot refresh [--list-paths] [--quiet]\n\nBrings deployed state up to date with the packs.\nRead-only preview: [cmd]dodot refresh --list-paths[/cmd] lists the paths it would touch.\n\n[header]OPTIONS[/header]\n  [item]--list-paths[/item]   List the paths without refreshing\n  [item]--quiet[/item]        Print nothing on success\n\n[header]SAFETY LOCK[/header]\n  This command changes files under the dotfiles root, so Safety Lock\n  checks the root first. When the root was found implicitly (the git\n  checkout or the current directory) and has not been approved, dodot\n  shows it and asks before the first root-sensitive mutation. A\n  non-interactive invocation refuses instead of asking; for automation,\n  set [item]DOTFILES_ROOT[/item] to the root you mean, which never asks.\n  Approvals are listed and withdrawn with [cmd]dodot roots[/cmd].\n"@
    } else if key == "transform"@ {
        "[title]dodot transform — template transforms[/title]\n\n[header]USAGE[/header]\n  dodot transform check [--dry-run] | status | install-hook\n\nChecks rendered templates against their sources, shows their status, or\ninstalls the pre-commit hook. Read-only preview: [cmd]dodot transform check --dry-run[/cmd].\n\n[header]OPTIONS[/header]\n  [item]--dry-run[/item]   Report without writing (check)\n\n[header]SAFETY LOCK[/header]\n  This command changes files under the dotfiles root, so Safety Lock\n  checks the root first. When the root was found implicitly (the git\n  checkout or the current directory) and has not been approved, dodot\n  shows it and asks before the first root-sensitive mutation. A\n  non-interactive invocation refuses instead of asking; for automation,\n  set [item]DOTFILES_ROOT[/item] to the root you mean, which never asks.\n  Approvals are listed and withdrawn with [cmd]dodot roots[/cmd].\n"@
    } else if key == "secret"@ {
        "[title]dodot secret — secret providers[/title]\n\n[header]USAGE[/header]\n  dodot secret probe | list\n\nProbes the configured secret providers and lists the secrets packs use. Read-only.\n"@
    } else if key == "template"@ {
        "[title]dodot template — template filters[/title]\n\n[header]USAGE[/header]\n  dodot template clean | install-filter\n\n[cmd]template clean[/cmd] is a git clean filter (stdin to stdout) and writes\nnothing under the root; [cmd]template install-filter[/cmd] wires it into .git/config.\n\n[header]SAFETY LOCK[/header]\n  This command changes files under the dotfiles root, so Safety Lock\n  checks the root first. When the root was found implicitly (the git\n  checkout or the current directory) and has not been approved, dodot\n  shows it and asks before the first root-sensitive mutation. A\n  non-interactive invocation refuses instead of asking; for automation,\n  set [item]DOTFILES_ROOT[/item] to the root you mean, which never asks.\n  Approvals are listed and withdrawn with [cmd]dodot roots[/cmd].\n"@
    } else if key == "git-show-alias"@ {
        "[title]dodot git-show-alias[/title]\n\n[header]USAGE[/header]\n  dodot git-show-alias [--shell <shell>]\n\nPrints the git alias block for your shell's rc file. Read-only.\n"@
    } else if key == "git-install-alias"@ {
        "[title]dodot git-install-alias[/title]\n\n[header]USAGE[/header]\n  dodot git-install-alias [--shell <shell>]\n\nWrites the git alias block into your shell's rc file, replacing an older\nblock in place.\n"@
    } else if key == "probe.deployment-map"@ {
        "[title]dodot probe deployment-map[/title]\n\n[header]USAGE[/header]\n  dodot probe deployment-map\n\nLists every deployed path and the pack source it comes from.\n"@
    } else if key == "probe.show-data-dir"@ {
        "[title]dodot probe show-data-dir[/title]\n\n[header]USAGE[/header]\n  dodot probe show-data-dir [--depth <n>]\n\nShows dodot's data directory as a tree with sizes.\n"@
    } else if key == "probe.shell-init"@ {
        "[title]dodot probe shell-init[/title]\n\n[header]USAGE[/header]\n  dodot probe shell-init [--runs [<n>]] [--history] [--errors] [<filter>]\n\nShows how long each sourced file took in the last shell startup, or\naggregates, history and failures over recent startups.\n"@
    } else if key == "probe.app"@ {
        "[title]dodot probe app[/title]\n\n[header]USAGE[/header]\n  dodot probe app <name>\n\nShows where a macOS app keeps its settings.\n"@
    } else if key == "probe"@ {
        "[title]dodot probe — introspection[/title]\n\n[header]USAGE[/header]\n  dodot probe <view>\n\nRead-only views of dodot's state: [cmd]deployment-map[/cmd],\n[cmd]show-data-dir[/cmd], [cmd]shell-init[/cmd], [cmd]app[/cmd].\n"@
    } else {
        "[title]dodot[/title] — a dotfiles manager that deploys packs with symlinks\n\n[header]USAGE[/header]\n  dodot <command> [options] [packs...]\n\nYour dotfiles repository is your live configuration: each directory in\nit is a pack, and dodot links, sources and installs its files by name\nconvention. Edits to either side apply immediately.\n\n[header]COMMANDS[/header]\n  [cmd]status[/cmd]       Show what dodot will do and has done\n  [cmd]up[/cmd]           Deploy packs (symlinks, shell, PATH, installs)\n  [cmd]down[/cmd]         Remove a pack's deployments\n  [cmd]list[/cmd]         List the packs in the dotfiles root\n  [cmd]init[/cmd]         Create a new pack\n  [cmd]fill[/cmd]         Add template files to an existing pack\n  [cmd]adopt[/cmd]        Move existing files into a pack and link them back\n  [cmd]addignore[/cmd]    Mark a pack as ignored\n  [cmd]tutorial[/cmd]     A guided first run\n  [cmd]init-sh[/cmd]      Print the shell init script for eval\n  [cmd]install[/cmd]      Wire the shell init line into your rc file\n  [cmd]config[/cmd]       Inspect and change configuration\n  [cmd]plist[/cmd]        Git clean/smudge filters for macOS plists\n  [cmd]git-install-filters[/cmd] / [cmd]git-show-filters[/cmd]\n  [cmd]git-install-alias[/cmd] / [cmd]git-show-alias[/cmd]\n  [cmd]prompts[/cmd]      Inspect and reset dismissed prompts\n  [cmd]probe[/cmd]        Introspection views\n  [cmd]roots[/cmd]        Safety Lock approvals\n  [cmd]reset[/cmd]        Forget dodot's local state\n\n[header]SAFETY LOCK[/header]\n  Safety Lock guards the dotfiles root. The root is [item]DOTFILES_ROOT[/item]\n  when set, else the git checkout you are in, else the current directory.\n  A root found implicitly is shown and approved once, at the\n  first root-sensitive mutation; a non-interactive invocation refuses\n  rather than asks. Read-only commands and the documented previews (such as\n  [cmd]up --dry-run[/cmd]) never ask and never approve. Setting\n  [item]DOTFILES_ROOT[/item] selects a root explicitly and is never asked about.\n  See approvals with [cmd]dodot roots list[/cmd], withdraw one with\n  [cmd]dodot roots forget[/cmd], and clear them all with [cmd]dodot reset[/cmd].\n\nNew here? Run [cmd]dodot tutorial[/cmd]. Every command takes [item]--help[/item].\n"@
    }
}

/// The help page registered under `key`.
pub fn help_page(key: &str) -> (r: &'static str)
    ensures
        r@ == spec_help_page(key@),
{
    let k = chars_of(key);
    if chars_eq(k.as_slice(), chars_of("up").as_slice()) {
        return "[title]dodot up — deploy packs[/title]\n\n[header]USAGE[/header]\n  dodot up [--dry-run] [packs...]\n\nDeploys every pack (or the packs named): symlinks config files, sources\nshell files at startup, adds bin/ directories to PATH and runs install\nscripts and Brewfiles once.\nRead-only preview: [cmd]dodot up --dry-run[/cmd] shows the plan and writes nothing.\n\n[header]OPTIONS[/header]\n  [item]--dry-run[/item]   Show what would be deployed without changing anything\n  [item]--force[/item]     Replace files already at a target\n\n[header]EXAMPLES[/header]\n  dodot up\n  dodot up git nvim\n  dodot up --dry-run\n\n[header]SAFETY LOCK[/header]\n  This command changes files under the dotfiles root, so Safety Lock\n  checks the root first. When the root was found implicitly (the git\n  checkout or the current directory) and has not been approved, dodot\n  shows it and asks before the first root-sensitive mutation. A\n  non-interactive invocation refuses instead of asking; for automation,\n  set [item]DOTFILES_ROOT[/item] to the root you mean, which never asks.\n  Approvals are listed and withdrawn with [cmd]dodot roots[/cmd].\n";
    }
    if chars_eq(k.as_slice(), chars_of("down").as_slice()) {
        return "[title]dodot down — remove deployments[/title]\n\n[header]USAGE[/header]\n  dodot down [--dry-run] [packs...]\n\nRemoves what [cmd]dodot up[/cmd] deployed for every pack (or the packs named),\nand the leftovers of packs that no longer exist. Pack sources are untouched.\nRead-only preview: [cmd]dodot down --dry-run[/cmd] lists what would be removed.\n\n[header]OPTIONS[/header]\n  [item]--dry-run[/item]   List what would be removed without removing it\n\n[header]EXAMPLES[/header]\n  dodot down git\n  dodot down --dry-run\n\n[header]SAFETY LOCK[/header]\n  This command changes files under the dotfiles root, so Safety Lock\n  checks the root first. When the root was found implicitly (the git\n  checkout or the current directory) and has not been approved, dodot\n  shows it and asks before the first root-sensitive mutation. A\n  non-interactive invocation refuses instead of asking; for automation,\n  set [item]DOTFILES_ROOT[/item] to the root you mean, which never asks.\n  Approvals are listed and withdrawn with [cmd]dodot roots[/cmd].\n";
    }
    if chars_eq(k.as_slice(), chars_of("status").as_slice()) {
        return "[title]dodot status — what dodot will do[/title]\n\n[header]USAGE[/header]\n  dodot status [packs...]\n\nShows each pack's files, the handler that takes each one and whether it\nis deployed. Read-only: status never asks Safety Lock for approval.\n\n[header]OPTIONS[/header]\n  [item]--short[/item]       One line per pack\n  [item]--by-status[/item]   Group files by status\n\n[header]EXAMPLES[/header]\n  dodot status\n  dodot status nvim\n";
    }
    if chars_eq(k.as_slice(), chars_of("list").as_slice()) {
        return "[title]dodot list — list packs[/title]\n\n[header]USAGE[/header]\n  dodot list\n\nLists the packs in the dotfiles root in the order dodot applies them,\nwith the directories that are ignored and why. Read-only.\n";
    }
    if chars_eq(k.as_slice(), chars_of("init").as_slice()) {
        return "[title]dodot init — create a pack[/title]\n\n[header]USAGE[/header]\n  dodot init <pack>\n\nCreates a new pack directory in the dotfiles root with starter files.\n\n[header]EXAMPLES[/header]\n  dodot init zsh\n\n[header]SAFETY LOCK[/header]\n  This command changes files under the dotfiles root, so Safety Lock\n  checks the root first. When the root was found implicitly (the git\n  checkout or the current directory) and has not been approved, dodot\n  shows it and asks before the first root-sensitive mutation. A\n  non-interactive invocation refuses instead of asking; for automation,\n  set [item]DOTFILES_ROOT[/item] to the root you mean, which never asks.\n  Approvals are listed and withdrawn with [cmd]dodot roots[/cmd].\n";
    }
    if chars_eq(k.as_slice(), chars_of("fill").as_slice()) {
        return "[title]dodot fill — add template files[/title]\n\n[header]USAGE[/header]\n  dodot fill <pack>\n\nAdds the template files a pack does not have yet (aliases.sh, install.sh,\nbin/ ...). Existing files are never overwritten.\n\n[header]EXAMPLES[/header]\n  dodot fill nvim\n\n[header]SAFETY LOCK[/header]\n  This command changes files under the dotfiles root, so Safety Lock\n  checks the root first. When the root was found implicitly (the git\n  checkout or the current directory) and has not been approved, dodot\n  shows it and asks before the first root-sensitive mutation. A\n  non-interactive invocation refuses instead of asking; for automation,\n  set [item]DOTFILES_ROOT[/item] to the root you mean, which never asks.\n  Approvals are listed and withdrawn with [cmd]dodot roots[/cmd].\n";
    }
    if chars_eq(k.as_slice(), chars_of("adopt").as_slice()) {
        return "[title]dodot adopt — bring existing files into a pack[/title]\n\n[header]USAGE[/header]\n  dodot adopt [--into <pack>] [--dry-run] [--force] [--no-follow] [--only-os <label>] <sources...>\n\nMoves existing files into a pack and links them back, so the file at\nits old location becomes a dodot deployment. The pack is inferred from\nthe source path (~/.config/nvim/init.lua lands in pack nvim) unless\n[item]--into[/item] names an existing pack. The run plans and validates\neverything before it writes: a refused run leaves sources and packs as\nthey were. Read-only preview: [cmd]dodot adopt --dry-run[/cmd] shows the plan.\n\n[header]OPTIONS[/header]\n  [item]--into <pack>[/item]      Adopt into this existing pack\n  [item]--dry-run[/item]          Show the plan without changing anything\n  [item]--force[/item]            Replace entries already in the pack\n  [item]--no-follow[/item]        Adopt a symlink source as a link\n  [item]--only-os <label>[/item]  Deploy only on hosts matching a gate label\n\n[header]EXAMPLES[/header]\n  dodot adopt ~/.config/nvim\n  dodot adopt --into git ~/.gitconfig\n\n[header]SAFETY LOCK[/header]\n  This command changes files under the dotfiles root, so Safety Lock\n  checks the root first. When the root was found implicitly (the git\n  checkout or the current directory) and has not been approved, dodot\n  shows it and asks before the first root-sensitive mutation. A\n  non-interactive invocation refuses instead of asking; for automation,\n  set [item]DOTFILES_ROOT[/item] to the root you mean, which never asks.\n  Approvals are listed and withdrawn with [cmd]dodot roots[/cmd].\n";
    }
    if chars_eq(k.as_slice(), chars_of("addignore").as_slice()) {
        return "[title]dodot addignore — ignore a pack[/title]\n\n[header]USAGE[/header]\n  dodot addignore <pack>\n\nWrites a .dodotignore marker into the pack so every dodot run skips it.\n\n[header]EXAMPLES[/header]\n  dodot addignore old-vim\n\n[header]SAFETY LOCK[/header]\n  This command changes files under the dotfiles root, so Safety Lock\n  checks the root first. When the root was found implicitly (the git\n  checkout or the current directory) and has not been approved, dodot\n  shows it and asks before the first root-sensitive mutation. A\n  non-interactive invocation refuses instead of asking; for automation,\n  set [item]DOTFILES_ROOT[/item] to the root you mean, which never asks.\n  Approvals are listed and withdrawn with [cmd]dodot roots[/cmd].\n";
    }
    if chars_eq(k.as_slice(), chars_of("tutorial").as_slice()) {
        return "[title]dodot tutorial — a guided first run[/title]\n\n[header]USAGE[/header]\n  dodot tutorial [--reset] [--from <step>]\n\nWalks through your dotfiles root: checks the root, picks a pack, shows\nits status, explains targets and shell integration (with the\n[cmd]install --write[/cmd] step), then runs a dry-run preview before the\nreal deployment. The tutorial can save progress and resume where you left.\nEverything up to the dry-run preview is read-only; the real deployment is\nthe first root-sensitive mutation, where Safety Lock asks.\n\n[header]OPTIONS[/header]\n  [item]--reset[/item]         Forget saved progress and start over\n  [item]--from <step>[/item]   Start at a named step\n\n[header]SAFETY LOCK[/header]\n  This command changes files under the dotfiles root, so Safety Lock\n  checks the root first. When the root was found implicitly (the git\n  checkout or the current directory) and has not been approved, dodot\n  shows it and asks before the first root-sensitive mutation. A\n  non-interactive invocation refuses instead of asking; for automation,\n  set [item]DOTFILES_ROOT[/item] to the root you mean, which never asks.\n  Approvals are listed and withdrawn with [cmd]dodot roots[/cmd].\n";
    }
    if chars_eq(k.as_slice(), chars_of("init-sh").as_slice()) {
        return "[title]dodot init-sh — shell init script[/title]\n\n[header]USAGE[/header]\n  eval \"$(dodot init-sh)\"\n\nPrints the script your shell sources at startup to load the shell files\nand PATH entries of deployed packs.\n";
    }
    if chars_eq(k.as_slice(), chars_of("install").as_slice()) {
        return "[title]dodot install — wire up your shell[/title]\n\n[header]USAGE[/header]\n  dodot install [--write] [--rc <file>]\n\nShows (or with [item]--write[/item] writes) the line that loads dodot from\nyour shell's rc file: ~/.zshrc for zsh, ~/.bashrc for bash.\n\n[header]OPTIONS[/header]\n  [item]--write[/item]       Write the block instead of showing it\n  [item]--rc <file>[/item]    Use this rc file\n";
    }
    if chars_eq(k.as_slice(), chars_of("plist").as_slice()) {
        return "[title]dodot plist — git filters for plists[/title]\n\n[header]USAGE[/header]\n  dodot plist clean|smudge\n\nGit clean and smudge filters: clean turns a binary plist on stdin into\ncanonical XML on stdout, smudge turns it back. Git runs them; see\n[cmd]dodot git-install-filters[/cmd].\n";
    }
    if chars_eq(k.as_slice(), chars_of("git-install-filters").as_slice()) {
        return "[title]dodot git-install-filters[/title]\n\n[header]USAGE[/header]\n  dodot git-install-filters\n\nWires the plist filters into this clone's .git/config and tells you the\n.gitattributes lines the repository needs.\n\n[header]SAFETY LOCK[/header]\n  This command changes files under the dotfiles root, so Safety Lock\n  checks the root first. When the root was found implicitly (the git\n  checkout or the current directory) and has not been approved, dodot\n  shows it and asks before the first root-sensitive mutation. A\n  non-interactive invocation refuses instead of asking; for automation,\n  set [item]DOTFILES_ROOT[/item] to the root you mean, which never asks.\n  Approvals are listed and withdrawn with [cmd]dodot roots[/cmd].\n";
    }
    if chars_eq(k.as_slice(), chars_of("git-show-filters").as_slice()) {
        return "[title]dodot git-show-filters[/title]\n\n[header]USAGE[/header]\n  dodot git-show-filters\n\nPrints the .git/config and .gitattributes snippets for the plist filters\nand whether they are in place. Read-only.\n";
    }
    if chars_eq(k.as_slice(), chars_of("prompts").as_slice()) {
        return "[title]dodot prompts — one-time prompts[/title]\n\n[header]USAGE[/header]\n  dodot prompts list | reset [<key>]\n\nLists the prompts you dismissed, or makes them ask again.\n";
    }
    if chars_eq(k.as_slice(), chars_of("roots").as_slice()) {
        return "[title]dodot roots — Safety Lock approvals[/title]\n\n[header]USAGE[/header]\n  dodot roots list | forget <root>\n\n[cmd]roots list[/cmd] shows the dotfiles roots you approved.\n[cmd]roots forget[/cmd] withdraws an approval:\nthe next root-sensitive mutation that implicitly\ndiscovers that root asks again. Selecting the root\nexplicitly with [item]DOTFILES_ROOT[/item] never asks.\n";
    }
    if chars_eq(k.as_slice(), chars_of("reset").as_slice()) {
        return "[title]dodot reset — forget local state[/title]\n\n[header]USAGE[/header]\n  dodot reset\n\nRemoves dodot's local state, including the Safety Lock approvals in\nsafety-lock.toml, so every implicitly discovered root asks again.\n";
    }
    if chars_eq(k.as_slice(), chars_of("config").as_slice()) {
        return "[title]dodot config — configuration[/title]\n\n[header]USAGE[/header]\n  dodot config list | get | set | gen\n\nInspects and changes the layered configuration: built-in defaults, the\nroot .dodot.toml, then a pack's .dodot.toml. [cmd]list[/cmd] and [cmd]get[/cmd]\nare read-only. [cmd]set[/cmd] writes to the [item]local[/item] scope;\n[item]local[/item] is the only supported persist scope.\n\n[header]EXAMPLES[/header]\n  dodot config list\n  dodot config gen -o .dodot.toml\n\n[header]SAFETY LOCK[/header]\n  This command changes files under the dotfiles root, so Safety Lock\n  checks the root first. When the root was found implicitly (the git\n  checkout or the current directory) and has not been approved, dodot\n  shows it and asks before the first root-sensitive mutation. A\n  non-interactive invocation refuses instead of asking; for automation,\n  set [item]DOTFILES_ROOT[/item] to the root you mean, which never asks.\n  Approvals are listed and withdrawn with [cmd]dodot roots[/cmd].\n";
    }
    if chars_eq(k.as_slice(), chars_of("refresh").as_slice()) {
        return "[title]dodot refresh — refresh deployed state[/title]\n\n[header]USAGE[/header]\n  dodot refresh [--list-paths] [--quiet]\n\nBrings deployed state up to date with the packs.\nRead-only preview: [cmd]dodot refresh --list-paths[/cmd] lists the paths it would touch.\n\n[header]OPTIONS[/header]\n  [item]--list-paths[/item]   List the paths without refreshing\n  [item]--quiet[/item]        Print nothing on success\n\n[header]SAFETY LOCK[/header]\n  This command changes files under the dotfiles root, so Safety Lock\n  checks the root first. When the root was found implicitly (the git\n  checkout or the current directory) and has not been approved, dodot\n  shows it and asks before the first root-sensitive mutation. A\n  non-interactive invocation refuses instead of asking; for automation,\n  set [item]DOTFILES_ROOT[/item] to the root you mean, which never asks.\n  Approvals are listed and withdrawn with [cmd]dodot roots[/cmd].\n";
    }
    if chars_eq(k.as_slice(), chars_of("transform").as_slice()) {
        return "[title]dodot transform — template transforms[/title]\n\n[header]USAGE[/header]\n  dodot transform check [--dry-run] | status | install-hook\n\nChecks rendered templates against their sources, shows their status, or\ninstalls the pre-commit hook. Read-only preview: [cmd]dodot transform check --dry-run[/cmd].\n\n[header]OPTIONS[/header]\n  [item]--dry-run[/item]   Report without writing (check)\n\n[header]SAFETY LOCK[/header]\n  This command changes files under the dotfiles root, so Safety Lock\n  checks the root first. When the root was found implicitly (the git\n  checkout or the current directory) and has not been approved, dodot\n  shows it and asks before the first root-sensitive mutation. A\n  non-interactive invocation refuses instead of asking; for automation,\n  set [item]DOTFILES_ROOT[/item] to the root you mean, which never asks.\n  Approvals are listed and withdrawn with [cmd]dodot roots[/cmd].\n";
    }
    if chars_eq(k.as_slice(), chars_of("secret").as_slice()) {
        return "[title]dodot secret — secret providers[/title]\n\n[header]USAGE[/header]\n  dodot secret probe | list\n\nProbes the configured secret providers and lists the secrets packs use. Read-only.\n";
    }
    if chars_eq(k.as_slice(), chars_of("template").as_slice()) {
        return "[title]dodot template — template filters[/title]\n\n[header]USAGE[/header]\n  dodot template clean | install-filter\n\n[cmd]template clean[/cmd] is a git clean filter (stdin to stdout) and writes\nnothing under the root; [cmd]template install-filter[/cmd] wires it into .git/config.\n\n[header]SAFETY LOCK[/header]\n  This command changes files under the dotfiles root, so Safety Lock\n  checks the root first. When the root was found implicitly (the git\n  checkout or the current directory) and has not been approved, dodot\n  shows it and asks before the first root-sensitive mutation. A\n  non-interactive invocation refuses instead of asking; for automation,\n  set [item]DOTFILES_ROOT[/item] to the root you mean, which never asks.\n  Approvals are listed and withdrawn with [cmd]dodot roots[/cmd].\n";
    }
    if chars_eq(k.as_slice(), chars_of("git-show-alias").as_slice()) {
        return "[title]dodot git-show-alias[/title]\n\n[header]USAGE[/header]\n  dodot git-show-alias [--shell <shell>]\n\nPrints the git alias block for your shell's rc file. Read-only.\n";
    }
    if chars_eq(k.as_slice(), chars_of("git-install-alias").as_slice()) {
        return "[title]dodot git-install-alias[/title]\n\n[header]USAGE[/header]\n  dodot git-install-alias [--shell <shell>]\n\nWrites the git alias block into your shell's rc file, replacing an older\nblock in place.\n";
    }
    if chars_eq(k.as_slice(), chars_of("probe.deployment-map").as_slice()) {
        return "[title]dodot probe deployment-map[/title]\n\n[header]USAGE[/header]\n  dodot probe deployment-map\n\nLists every deployed path and the pack source it comes from.\n";
    }
    if chars_eq(k.as_slice(), chars_of("probe.show-data-dir").as_slice()) {
        return "[title]dodot probe show-data-dir[/title]\n\n[header]USAGE[/header]\n  dodot probe show-data-dir [--depth <n>]\n\nShows dodot's data directory as a tree with sizes.\n";
    }
    if chars_eq(k.as_slice(), chars_of("probe.shell-init").as_slice()) {
        return "[title]dodot probe shell-init[/title]\n\n[header]USAGE[/header]\n  dodot probe shell-init [--runs [<n>]] [--history] [--errors] [<filter>]\n\nShows how long each sourced file took in the last shell startup, or\naggregates, history and failures over recent startups.\n";
    }
    if chars_eq(k.as_slice(), chars_of("probe.app").as_slice()) {
        return "[title]dodot probe app[/title]\n\n[header]USAGE[/header]\n  dodot probe app <name>\n\nShows where a macOS app keeps its settings.\n";
    }
    if chars_eq(k.as_slice(), chars_of("probe").as_slice()) {
        return "[title]dodot probe — introspection[/title]\n\n[header]USAGE[/header]\n  dodot probe <view>\n\nRead-only views of dodot's state: [cmd]deployment-map[/cmd],\n[cmd]show-data-dir[/cmd], [cmd]shell-init[/cmd], [cmd]app[/cmd].\n";
    }
    "[title]dodot[/title] — a dotfiles manager that deploys packs with symlinks\n\n[header]USAGE[/header]\n  dodot <command> [options] [packs...]\n\nYour dotfiles repository is your live configuration: each directory in\nit is a pack, and dodot links, sources and installs its files by name\nconvention. Edits to either side apply immediately.\n\n[header]COMMANDS[/header]\n  [cmd]status[/cmd]       Show what dodot will do and has done\n  [cmd]up[/cmd]           Deploy packs (symlinks, shell, PATH, installs)\n  [cmd]down[/cmd]         Remove a pack's deployments\n  [cmd]list[/cmd]         List the packs in the dotfiles root\n  [cmd]init[/cmd]         Create a new pack\n  [cmd]fill[/cmd]         Add template files to an existing pack\n  [cmd]adopt[/cmd]        Move existing files into a pack and link them back\n  [cmd]addignore[/cmd]    Mark a pack as ignored\n  [cmd]tutorial[/cmd]     A guided first run\n  [cmd]init-sh[/cmd]      Print the shell init script for eval\n  [cmd]install[/cmd]      Wire the shell init line into your rc file\n  [cmd]config[/cmd]       Inspect and change configuration\n  [cmd]plist[/cmd]        Git clean/smudge filters for macOS plists\n  [cmd]git-install-filters[/cmd] / [cmd]git-show-filters[/cmd]\n  [cmd]git-install-alias[/cmd] / [cmd]git-show-alias[/cmd]\n  [cmd]prompts[/cmd]      Inspect and reset dismissed prompts\n  [cmd]probe[/cmd]        Introspection views\n  [cmd]roots[/cmd]        Safety Lock approvals\n  [cmd]reset[/cmd]        Forget dodot's local state\n\n[header]SAFETY LOCK[/header]\n  Safety Lock guards the dotfiles root. The root is [item]DOTFILES_ROOT[/item]\n  when set, else the git checkout you are in, else the current directory.\n  A root found implicitly is shown and approved once, at the\n  first root-sensitive mutation; a non-interactive invocation refuses\n  rather than asks. Read-only commands and the documented previews (such as\n  [cmd]up --dry-run[/cmd]) never ask and never approve. Setting\n  [item]DOTFILES_ROOT[/item] selects a root explicitly and is never asked about.\n  See approvals with [cmd]dodot roots list[/cmd], withdraw one with\n  [cmd]dodot roots forget[/cmd], and clear them all with [cmd]dodot reset[/cmd].\n\nNew here? Run [cmd]dodot tutorial[/cmd]. Every command takes [item]--help[/item].\n"
}

/// The help page for a command path: the page of the registered path
/// `spec_lookup` picks for it.
pub fn lookup(path: &str) -> (r: &'static str)
    ensures
        r@ == spec_help_page(spec_lookup(path@)),
{
    let key = help_path(path);
    help_page(key)
}

/// Every registered command path gets its own page.
pub proof fn law_registered_paths_have_own_page(i: int)
    requires
        0 <= i < help_keys().len(),
    ensures
        spec_lookup(help_keys()[i]) == help_keys()[i],
{
    assert(help_keys().contains(help_keys()[i]));
}

/// A path with no page of its own gets its parent's page: the page for
/// `p.c` is the page for `p` when `p.c` is not registered and `c` holds
/// no `.`.
pub proof fn law_unregistered_falls_back_to_parent(parent: Seq<char>, child: Seq<char>)
    requires
        !help_keys().contains(parent + seq!['.'] + child),
        crate::text::lacks(child, '.'),
    ensures
        spec_lookup(parent + seq!['.'] + child) == spec_lookup(parent),
{
    let p = parent + seq!['.'] + child;
    let k = parent.len() as int;
    assert(crate::text::occurs_at(p, seq!['.'], k)) by {
        assert(p.subrange(k, k + 1) =~= seq!['.']);
    }
    assert forall|j: int| k < j <= p.len() implies !crate::text::occurs_at(p, seq!['.'], j) by {
        if crate::text::occurs_at(p, seq!['.'], j) {
            assert(p.subrange(j, j + 1)[0] == p[j]);
            assert(p[j] == child[j - k - 1]);
        }
    }
    lemma_last_dot(p, k, p.len() as int);
    assert(p.take(k) =~= parent);
}

proof fn lemma_last_dot(p: Seq<char>, k: int, i: int)
    requires
        0 <= k <= i,
        crate::text::occurs_at(p, seq!['.'], k),
        forall|j: int| k < j <= i ==> !crate::text::occurs_at(p, seq!['.'], j),
    ensures
        last_occurrence(p, seq!['.'], i) == Some(k),
    decreases i - k,
{
    if i > k {
        lemma_last_dot(p, k, i - 1);
    }
}

} // verus!
