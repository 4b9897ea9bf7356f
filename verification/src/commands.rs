//! The small pack commands — `addignore`, `config gen`, `init`, `fill`
//! and `list` — as decisions on what was read: the files to write, and
//! the result to report.

use vstd::prelude::*;
use crate::rules::{display_name_for, spec_display_name};
use crate::infer::strings_view;
use crate::text::{
    chars_eq, chars_of, decimal, lemma_lex_transitive, lemma_lex_trichotomy, lex_less, lex_lt, push_decimal,
    push_str, replace_all, replace_str, string_of,
};

verus! {

/// Why a pack command refused.
#[derive(Debug, PartialEq, Eq)]
pub enum CommandError {
    /// No pack of that name exists.
    PackNotFound { name: String },
    /// The pack cannot be created or used as asked.
    PackInvalid { name: String, reason: String },
}

// ── addignore ───────────────────────────────────────────────────────

/// What `addignore` reports.
#[derive(Debug)]
pub struct AddIgnoreResult {
    pub message: String,
    pub details: Vec<String>,
}

/// The report of marking the pack in directory `pack_dir` ignored:
/// `already_ignored` when its `.dodotignore` existed (nothing was
/// written), else the marker at `ignore_path` was created, with a
/// warning when the pack is still deployed.
pub fn addignore(pack_dir: &str, ignore_path: &str, already_ignored: bool, deployed: bool) -> (r:
    AddIgnoreResult)
    ensures
        already_ignored ==> r.message@ == "Pack '"@ + spec_display_name(pack_dir@)
            + "' is already ignored."@ && r.details@.len() == 0,
        !already_ignored ==> r.message@ == "Pack '"@ + spec_display_name(pack_dir@)
            + "' marked as ignored."@,
        !already_ignored ==> r.details@.len() == (if deployed {
            2int
        } else {
            1int
        }) && r.details@[0]@ == "Created "@ + ignore_path@,
        !already_ignored && deployed ==> r.details@[1]@ == "Warning: pack '"@ + spec_display_name(
            pack_dir@,
        ) + "' is currently deployed. Run 'dodot down "@ + spec_display_name(pack_dir@)
            + "' to clean up."@,
{
    let display = display_name_for(pack_dir);
    if already_ignored {
        let mut m = chars_of("Pack '");
        push_str(&mut m, display.as_str());
        push_str(&mut m, "' is already ignored.");
        return AddIgnoreResult { message: string_of(m.as_slice()), details: Vec::new() };
    }
    let mut details: Vec<String> = Vec::new();
    let mut c = chars_of("Created ");
    push_str(&mut c, ignore_path);
    details.push(string_of(c.as_slice()));
    if deployed {
        let mut w = chars_of("Warning: pack '");
        push_str(&mut w, display.as_str());
        push_str(&mut w, "' is currently deployed. Run 'dodot down ");
        push_str(&mut w, display.as_str());
        push_str(&mut w, "' to clean up.");
        details.push(string_of(w.as_slice()));
    }
    let mut m = chars_of("Pack '");
    push_str(&mut m, display.as_str());
    push_str(&mut m, "' marked as ignored.");
    AddIgnoreResult { message: string_of(m.as_slice()), details }
}

// ── config gen ──────────────────────────────────────────────────────

/// What `config gen` reports.
#[derive(Debug)]
pub struct GenConfigResult {
    pub message: Option<String>,
    pub content: String,
}

/// The commented default configuration.
pub open spec fn default_config_text() -> Seq<char> {
    "# dodot configuration\n# Place this file at your dotfiles root as .dodot.toml\n# or in a pack directory for pack-specific overrides.\n\n[pack]\n# Glob patterns for pack directories to ignore\n# ignore = [\"scratch\", \"*.bak\"]\n\n[symlink]\n# Files/directories forced to $HOME instead of $XDG_CONFIG_HOME\n# force_home = [\"ssh\", \"bashrc\", \"zshrc\"]\n\n# Paths that must never be symlinked (security)\n# protected_paths = [\".ssh/id_rsa\", \".gnupg\"]\n\n[mappings]\n# File-to-handler mappings (override defaults)\n# path = \"bin\"\n# install = \"install.sh\"\n# shell = [\"aliases.sh\", \"profile.sh\"]\n# homebrew = \"Brewfile\"\n# ignore = [\"*.tmp\"]\n"@
}

/// The commented default configuration.
pub fn default_config() -> (r: &'static str)
    ensures
        r@ == default_config_text(),
{
    "# dodot configuration\n# Place this file at your dotfiles root as .dodot.toml\n# or in a pack directory for pack-specific overrides.\n\n[pack]\n# Glob patterns for pack directories to ignore\n# ignore = [\"scratch\", \"*.bak\"]\n\n[symlink]\n# Files/directories forced to $HOME instead of $XDG_CONFIG_HOME\n# force_home = [\"ssh\", \"bashrc\", \"zshrc\"]\n\n# Paths that must never be symlinked (security)\n# protected_paths = [\".ssh/id_rsa\", \".gnupg\"]\n\n[mappings]\n# File-to-handler mappings (override defaults)\n# path = \"bin\"\n# install = \"install.sh\"\n# shell = [\"aliases.sh\", \"profile.sh\"]\n# homebrew = \"Brewfile\"\n# ignore = [\"*.tmp\"]\n"
}

/// The default configuration, and — when it was written to
/// `config_path` — a message saying so.
pub fn genconfig(write: bool, config_path: &str) -> (r: GenConfigResult)
    ensures
        r.content@ == default_config_text(),
        write ==> r.message is Some && r.message.unwrap()@ == "Config written to "@ + config_path@,
        !write ==> r.message is None,
{
    let content = String::from_str(default_config());
    if write {
        let mut m = chars_of("Config written to ");
        push_str(&mut m, config_path);
        GenConfigResult { message: Some(string_of(m.as_slice())), content }
    } else {
        GenConfigResult { message: None, content }
    }
}

// ── init ────────────────────────────────────────────────────────────

/// What `init` reports.
#[derive(Debug)]
pub struct InitResult {
    pub message: String,
    pub details: Vec<String>,
}

/// The `.dodot.toml` a new pack starts with.
pub open spec fn spec_init_config(pack_name: Seq<char>) -> Seq<char> {
    "# dodot configuration for "@ + pack_name
        + "\n# See: dodot config gen --help\n\n[pack]\n# ignore = [\"*.bak\", \"*.tmp\"]\n\n[symlink]\n# force_home = []\n# protected_paths = []\n\n[mappings]\n# install = \"install.sh\"\n# shell = [\"aliases.sh\"]\n# homebrew = \"Brewfile\"\n# skip = []\n"@
}

/// The `.dodot.toml` a new pack starts with.
pub fn init_config(pack_name: &str) -> (r: String)
    ensures
        r@ == spec_init_config(pack_name@),
{
    let mut v = chars_of("# dodot configuration for ");
    push_str(&mut v, pack_name);
    push_str(
        &mut v,
        "\n# See: dodot config gen --help\n\n[pack]\n# ignore = [\"*.bak\", \"*.tmp\"]\n\n[symlink]\n# force_home = []\n# protected_paths = []\n\n[mappings]\n# install = \"install.sh\"\n# shell = [\"aliases.sh\"]\n# homebrew = \"Brewfile\"\n# skip = []\n",
    );
    string_of(v.as_slice())
}

/// What creating pack `pack_name` at `pack_path` reports; refused when
/// the directory already exists.
pub fn init(pack_name: &str, pack_path: &str, exists: bool) -> (r: Result<InitResult, CommandError>)
    ensures
        exists <==> r is Err,
        match r {
            Ok(res) => res.message@ == "Pack '"@ + pack_name@ + "' initialized."@
                && res.details@.len() == 2 && res.details@[0]@ == "Created "@ + pack_path@
                && res.details@[1]@ == "Created "@ + pack_path@ + "/.dodot.toml"@,
            Err(_) => true,
        },
        match r {
            Err(CommandError::PackInvalid { name, reason }) => name@ == pack_name@ && reason@
                == "directory already exists"@,
            Err(_) => false,
            Ok(_) => true,
        },
{
    if exists {
        return Err(
            CommandError::PackInvalid {
                name: String::from_str(pack_name),
                reason: String::from_str("directory already exists"),
            },
        );
    }
    let mut a = chars_of("Created ");
    push_str(&mut a, pack_path);
    let mut b = chars_of("Created ");
    push_str(&mut b, pack_path);
    push_str(&mut b, "/.dodot.toml");
    let mut details: Vec<String> = Vec::new();
    details.push(string_of(a.as_slice()));
    details.push(string_of(b.as_slice()));
    let mut m = chars_of("Pack '");
    push_str(&mut m, pack_name);
    push_str(&mut m, "' initialized.");
    Ok(InitResult { message: string_of(m.as_slice()), details })
}

// ── fill ────────────────────────────────────────────────────────────

/// What `fill` reports.
#[derive(Debug)]
pub struct FillResult {
    pub message: String,
    pub details: Vec<String>,
}

/// The placeholder files `fill` adds, in order: name and template text,
/// with `PACK_NAME` standing for the pack.
pub open spec fn templates() -> Seq<(Seq<char>, Seq<char>)> {
    seq![
        ("install.sh"@, r#"#!/usr/bin/env bash
# Install script for PACK_NAME
#
# Runs ONCE during `dodot up`. Re-runs only if this file changes
# (tracked by content checksum). Should be idempotent.

set -euo pipefail

echo "Installing PACK_NAME..."

# Add your installation commands below
# Examples:
# mkdir -p "$HOME/.config/PACK_NAME"
# curl -fsSL https://example.com/install.sh | bash
"#@),
        ("aliases.sh"@, r#"#!/usr/bin/env sh
# Shell aliases for PACK_NAME
#
# Sourced into your shell on every session via dodot-init.sh.
# Changes take effect in new shells or after `dodot up`.

# Add your aliases below
# Examples:
# alias ll='ls -la'
# alias g='git'
"#@),
        ("Brewfile"@, r#"# Homebrew dependencies for PACK_NAME
#
# Processed during `dodot up`. Re-runs only if this file changes.
# Uses standard Brewfile syntax:
# https://github.com/Homebrew/homebrew-bundle

# Examples:
# brew 'git'
# brew 'tmux'
# cask 'firefox'
"#@),
    ]
}

/// The template names, in order.
pub fn template_names() -> (r: Vec<&'static str>)
    ensures
        r@.len() == 3,
        forall|i: int| 0 <= i < 3 ==> (#[trigger] r@[i])@ == templates()[i].0,
{
    let mut v: Vec<&'static str> = Vec::new();
    v.push("install.sh");
    v.push("aliases.sh");
    v.push("Brewfile");
    v
}

fn template_text(i: usize) -> (r: &'static str)
    requires
        i < 3,
    ensures
        r@ == templates()[i as int].1,
{
    if i == 0 {
        r#"#!/usr/bin/env bash
# Install script for PACK_NAME
#
# Runs ONCE during `dodot up`. Re-runs only if this file changes
# (tracked by content checksum). Should be idempotent.

set -euo pipefail

echo "Installing PACK_NAME..."

# Add your installation commands below
# Examples:
# mkdir -p "$HOME/.config/PACK_NAME"
# curl -fsSL https://example.com/install.sh | bash
"#
    } else if i == 1 {
        r#"#!/usr/bin/env sh
# Shell aliases for PACK_NAME
#
# Sourced into your shell on every session via dodot-init.sh.
# Changes take effect in new shells or after `dodot up`.

# Add your aliases below
# Examples:
# alias ll='ls -la'
# alias g='git'
"#
    } else {
        r#"# Homebrew dependencies for PACK_NAME
#
# Processed during `dodot up`. Re-runs only if this file changes.
# Uses standard Brewfile syntax:
# https://github.com/Homebrew/homebrew-bundle

# Examples:
# brew 'git'
# brew 'tmux'
# cask 'firefox'
"#
    }
}

/// One placeholder file to write.
#[derive(Debug)]
pub struct FillWrite {
    pub filename: String,
    pub content: String,
    /// Shell scripts are made executable.
    pub executable: bool,
}

/// The detail line for one template.
pub open spec fn fill_detail(name: Seq<char>, exists: bool) -> Seq<char> {
    "  "@ + name + if exists {
        " (exists, skipped)"@
    } else {
        " (created)"@
    }
}

/// How many of the first `n` templates do not exist yet.
pub open spec fn created_count(existing: Seq<bool>, n: int) -> nat
    decreases n,
{
    if n <= 0 {
        0
    } else {
        created_count(existing, n - 1) + if existing[n - 1] {
            0nat
        } else {
            1nat
        }
    }
}

/// The report of filling pack `pack_name` (which must exist), given
/// which templates already exist there (in template order).
pub fn fill(pack_name: &str, pack_exists: bool, existing: &[bool]) -> (r: Result<FillResult, CommandError>)
    requires
        existing@.len() == 3,
    ensures
        !pack_exists <==> r is Err,
        match r {
            Err(CommandError::PackNotFound { name }) => name@ == pack_name@,
            Err(_) => false,
            Ok(res) => {
                &&& res.details@.len() == 3
                &&& forall|i: int|
                    0 <= i < 3 ==> (#[trigger] res.details@[i])@ == fill_detail(
                        templates()[i].0,
                        existing@[i],
                    )
                &&& res.message@ == if created_count(existing@, 3) == 0 {
                    "Pack '"@ + pack_name@ + "' already has all template files."@
                } else {
                    "Added "@ + decimal(created_count(existing@, 3)) + " template file(s) to '"@
                        + pack_name@ + "'."@
                }
            },
        },
{
    if !pack_exists {
        return Err(CommandError::PackNotFound { name: String::from_str(pack_name) });
    }
    let names = template_names();
    let mut details: Vec<String> = Vec::new();
    let mut created: u64 = 0;
    let mut i: usize = 0;
    while i < 3
        invariant
            i <= 3,
            existing@.len() == 3,
            names@.len() == 3,
            forall|k: int| 0 <= k < 3 ==> (#[trigger] names@[k])@ == templates()[k].0,
            details@.len() == i,
            created == created_count(existing@, i as int),
            created <= i,
            forall|k: int|
                0 <= k < i ==> (#[trigger] details@[k])@ == fill_detail(templates()[k].0, existing@[k]),
        decreases 3 - i,
    {
        let mut d = chars_of("  ");
        push_str(&mut d, names[i]);
        if existing[i] {
            push_str(&mut d, " (exists, skipped)");
        } else {
            push_str(&mut d, " (created)");
            created = created + 1;
        }
        details.push(string_of(d.as_slice()));
        i = i + 1;
    }
    let mut m: Vec<char>;
    if created == 0 {
        m = chars_of("Pack '");
        push_str(&mut m, pack_name);
        push_str(&mut m, "' already has all template files.");
    } else {
        m = chars_of("Added ");
        push_decimal(&mut m, created);
        push_str(&mut m, " template file(s) to '");
        push_str(&mut m, pack_name);
        push_str(&mut m, "'.");
    }
    Ok(FillResult { message: string_of(m.as_slice()), details })
}

/// The indices of the templates among the first `n` that do not exist
/// yet, in order.
pub open spec fn missing_templates(existing: Seq<bool>, n: int) -> Seq<int>
    decreases n,
{
    if n <= 0 {
        Seq::<int>::empty()
    } else if existing[n - 1] {
        missing_templates(existing, n - 1)
    } else {
        missing_templates(existing, n - 1).push(n - 1)
    }
}

/// A write is template `k`, with the pack's name filled in.
pub open spec fn write_ok(w: FillWrite, k: int, pack_name: Seq<char>) -> bool {
    &&& w.filename@ == templates()[k].0
    &&& w.content@ == replace_all(templates()[k].1, "PACK_NAME"@, pack_name)
    &&& w.executable == (k < 2)
}

/// The files `fill` writes: each template that does not exist yet, with
/// `PACK_NAME` replaced by the pack's name; the `.sh` ones executable.
pub fn fill_writes(pack_name: &str, existing: &[bool]) -> (r: Vec<FillWrite>)
    requires
        existing@.len() == 3,
    ensures
        r@.len() == missing_templates(existing@, 3).len(),
        forall|i: int|
            0 <= i < r@.len() ==> write_ok(
                #[trigger] r@[i],
                missing_templates(existing@, 3)[i],
                pack_name@,
            ),
{
    let names = template_names();
    let mut out: Vec<FillWrite> = Vec::new();
    let mut i: usize = 0;
    proof {
        reveal_strlit("PACK_NAME");
    }
    while i < 3
        invariant
            i <= 3,
            existing@.len() == 3,
            names@.len() == 3,
            "PACK_NAME"@.len() > 0,
            forall|k: int| 0 <= k < 3 ==> (#[trigger] names@[k])@ == templates()[k].0,
            out@.len() == missing_templates(existing@, i as int).len(),
            forall|j: int|
                0 <= j < out@.len() ==> write_ok(
                    #[trigger] out@[j],
                    missing_templates(existing@, i as int)[j],
                    pack_name@,
                ),
        decreases 3 - i,
    {
        if !existing[i] {
            let content = replace_str(template_text(i), "PACK_NAME", pack_name);
            out.push(
                FillWrite { filename: String::from_str(names[i]), content, executable: i < 2 },
            );
        }
        i = i + 1;
    }
    out
}

// ── list ────────────────────────────────────────────────────────────

/// One pack in the listing.
#[derive(Debug)]
pub struct ListPack {
    /// The display name (ordering prefix stripped).
    pub name: String,
    pub ignored: bool,
}

/// What `list` reports.
#[derive(Debug)]
pub struct ListResult {
    pub packs: Vec<ListPack>,
}

/// A listing entry as values: directory name, display name, ignored.
pub type EntryView = (Seq<char>, Seq<char>, bool);

/// `a` sorts no later than `b`.
pub open spec fn lex_le(a: Seq<char>, b: Seq<char>) -> bool {
    a == b || lex_lt(a, b)
}

/// How many entries of `sorted` sort no later than `key`.
pub open spec fn count_le(sorted: Seq<EntryView>, key: Seq<char>) -> nat
    decreases sorted.len(),
{
    if sorted.len() == 0 {
        0
    } else {
        count_le(sorted.drop_last(), key) + if lex_le(sorted.last().0, key) {
            1nat
        } else {
            0nat
        }
    }
}

/// `x` inserted into the sorted `sorted` after every entry whose
/// directory sorts no later than its own, which keeps equal names in
/// arrival order.
pub open spec fn insert_stable(sorted: Seq<EntryView>, x: EntryView) -> Seq<EntryView> {
    let p = count_le(sorted, x.0) as int;
    sorted.take(p).push(x) + sorted.skip(p)
}

/// A stable sort of entries by directory name.
pub open spec fn stable_sort(s: Seq<EntryView>) -> Seq<EntryView>
    decreases s.len(),
{
    if s.len() == 0 {
        Seq::<EntryView>::empty()
    } else {
        insert_stable(stable_sort(s.drop_last()), s.last())
    }
}

/// The entries of a listing before sorting: the active packs (directory
/// and display name), then the `.dodotignore`d directories.
pub open spec fn list_entries(packs: Seq<(String, String)>, ignored: Seq<String>) -> Seq<EntryView> {
    Seq::new(packs.len(), |i: int| (packs[i].0@, packs[i].1@, false)) + Seq::new(
        ignored.len(),
        |i: int| (ignored[i]@, spec_display_name(ignored[i]@), true),
    )
}

pub open spec fn listed(v: Seq<ListPack>) -> Seq<(Seq<char>, bool)> {
    Seq::new(v.len(), |i: int| (v[i].name@, v[i].ignored))
}

pub open spec fn names_of(v: Seq<EntryView>) -> Seq<(Seq<char>, bool)> {
    Seq::new(v.len(), |i: int| (v[i].1, v[i].2))
}

/// The listing of the packs in a dotfiles root: active packs and
/// ignored directories together, in the order dodot applies them (by
/// directory name).
pub fn list(packs: &[(String, String)], ignored: &[String]) -> (r: ListResult)
    ensures
        listed(r.packs@) == names_of(stable_sort(list_entries(packs@, ignored@))),
{
    let ghost all = list_entries(packs@, ignored@);
    let mut entries: Vec<(String, String, bool)> = Vec::new();
    let mut i: usize = 0;
    while i < packs.len()
        invariant
            i <= packs@.len(),
            entries@.len() == i,
            forall|k: int|
                0 <= k < i ==> (#[trigger] entries@[k]).0@ == packs@[k].0@ && entries@[k].1@
                    == packs@[k].1@ && !entries@[k].2,
        decreases packs.len() - i,
    {
        entries.push((packs[i].0.clone(), packs[i].1.clone(), false));
        i = i + 1;
    }
    let mut j: usize = 0;
    while j < ignored.len()
        invariant
            j <= ignored@.len(),
            entries@.len() == packs@.len() + j,
            forall|k: int|
                0 <= k < packs@.len() ==> (#[trigger] entries@[k]).0@ == packs@[k].0@
                    && entries@[k].1@ == packs@[k].1@ && !entries@[k].2,
            forall|k: int|
                0 <= k < j ==> (#[trigger] entries@[packs@.len() + k]).0@ == ignored@[k]@
                    && entries@[packs@.len() + k].1@ == spec_display_name(ignored@[k]@)
                    && entries@[packs@.len() + k].2,
        decreases ignored.len() - j,
    {
        entries.push((ignored[j].clone(), display_name_for(ignored[j].as_str()), true));
        j = j + 1;
    }
    let ghost ev = Seq::new(entries@.len(), |k: int| (entries@[k].0@, entries@[k].1@, entries@[k].2));
    proof {
        assert forall|t: int| 0 <= t < all.len() implies ev[t] == all[t] by {
            if t < packs@.len() {
                assert(entries@[t].0@ == packs@[t].0@);
            } else {
                assert(entries@[packs@.len() + (t - packs@.len())].0@ == ignored@[t - packs@.len()]@);
            }
        }
        assert(ev =~= all);
    }
    // Insertion sort, stable.
    let mut sorted: Vec<(String, String, bool)> = Vec::new();
    let mut k: usize = 0;
    proof {
        assert(all.take(0) =~= Seq::<EntryView>::empty());
    }
    while k < entries.len()
        invariant
            k <= entries@.len(),
            ev == Seq::new(entries@.len(), |k: int| (entries@[k].0@, entries@[k].1@, entries@[k].2)),
            ev == all,
            Seq::new(sorted@.len(), |m: int| (sorted@[m].0@, sorted@[m].1@, sorted@[m].2))
                == stable_sort(all.take(k as int)),
        decreases entries.len() - k,
    {
        let ghost sv = Seq::new(sorted@.len(), |m: int| (sorted@[m].0@, sorted@[m].1@, sorted@[m].2));
        let key = chars_of(entries[k].0.as_str());
        let mut p: usize = 0;
        let mut m: usize = 0;
        proof {
            assert(sv.take(0) =~= Seq::<EntryView>::empty());
        }
        while m < sorted.len()
            invariant
                m <= sorted@.len(),
                p <= m,
                sv == Seq::new(sorted@.len(), |m: int| (sorted@[m].0@, sorted@[m].1@, sorted@[m].2)),
                k < ev.len(),
                key@ == ev[k as int].0,
                p == count_le(sv.take(m as int), key@),
            decreases sorted.len() - m,
        {
            let cur = chars_of(sorted[m].0.as_str());
            proof {
                assert(sv.take(m + 1).drop_last() =~= sv.take(m as int));
                assert(sv.take(m + 1).last() == sv[m as int]);
            }
            if crate::text::chars_eq(cur.as_slice(), key.as_slice()) || lex_less(
                cur.as_slice(),
                key.as_slice(),
            ) {
                p = p + 1;
            }
            m = m + 1;
        }
        proof {
            assert(sv.take(sv.len() as int) =~= sv);
        }
        let e = (entries[k].0.clone(), entries[k].1.clone(), entries[k].2);
        sorted.insert(p, e);
        proof {
            let nv = Seq::new(sorted@.len(), |m: int| (sorted@[m].0@, sorted@[m].1@, sorted@[m].2));
            assert(all.take(k + 1).drop_last() =~= all.take(k as int));
            assert(all.take(k + 1).last() == ev[k as int]);
            assert(nv =~= insert_stable(sv, ev[k as int]));
        }
        k = k + 1;
    }
    proof {
        assert(all.take(all.len() as int) =~= all);
    }
    let ghost fin = Seq::new(sorted@.len(), |m: int| (sorted@[m].0@, sorted@[m].1@, sorted@[m].2));
    let mut out: Vec<ListPack> = Vec::new();
    let mut q: usize = 0;
    while q < sorted.len()
        invariant
            q <= sorted@.len(),
            fin == Seq::new(sorted@.len(), |m: int| (sorted@[m].0@, sorted@[m].1@, sorted@[m].2)),
            out@.len() == q,
            forall|t: int| 0 <= t < q ==> (#[trigger] out@[t]).name@ == fin[t].1 && out@[t].ignored == fin[t].2,
        decreases sorted.len() - q,
    {
        out.push(ListPack { name: sorted[q].1.clone(), ignored: sorted[q].2 });
        q = q + 1;
    }
    proof {
        assert(listed(out@) =~= names_of(fin));
    }
    ListResult { packs: out }
}

/// Entries in order of directory name (equal names allowed).
pub open spec fn dir_sorted(s: Seq<EntryView>) -> bool {
    forall|i: int, j: int| 0 <= i < j < s.len() ==> lex_le(#[trigger] s[i].0, #[trigger] s[j].0)
}

proof fn lemma_lex_le_transitive(a: Seq<char>, b: Seq<char>, c: Seq<char>)
    requires
        lex_le(a, b),
        lex_le(b, c),
    ensures
        lex_le(a, c),
{
    if lex_lt(a, b) && lex_lt(b, c) {
        lemma_lex_transitive(a, b, c);
    }
}

/// In a sorted listing, the entries sorting no later than `key` are
/// exactly the first `count_le` of them.
proof fn lemma_count_le_splits(s: Seq<EntryView>, key: Seq<char>)
    requires
        dir_sorted(s),
    ensures
        count_le(s, key) <= s.len(),
        forall|i: int| 0 <= i < count_le(s, key) ==> lex_le(#[trigger] s[i].0, key),
        forall|i: int| count_le(s, key) <= i < s.len() ==> lex_lt(key, #[trigger] s[i].0),
    decreases s.len(),
{
    if s.len() > 0 {
        let t = s.drop_last();
        assert(dir_sorted(t)) by {
            assert forall|i: int, j: int| 0 <= i < j < t.len() implies lex_le(
                #[trigger] t[i].0,
                #[trigger] t[j].0,
            ) by {
                assert(t[i] == s[i] && t[j] == s[j]);
            }
        }
        lemma_count_le_splits(t, key);
        let last = s.last();
        lemma_lex_trichotomy(last.0, key);
        if lex_le(last.0, key) {
            assert forall|i: int| 0 <= i < t.len() implies lex_le(#[trigger] t[i].0, key) by {
                assert(t[i] == s[i]);
                assert(lex_le(s[i].0, s[s.len() - 1].0));
                lemma_lex_le_transitive(t[i].0, last.0, key);
            }
            if count_le(t, key) < t.len() {
                let i = count_le(t, key) as int;
                assert(lex_le(t[i].0, key));
                assert(lex_lt(key, t[i].0));
                lemma_lex_trichotomy(key, t[i].0);
            }
            assert forall|i: int| 0 <= i < count_le(s, key) implies lex_le(#[trigger] s[i].0, key) by {
                if i < t.len() {
                    assert(t[i] == s[i]);
                }
            }
        } else {
            assert forall|i: int| count_le(s, key) <= i < s.len() implies lex_lt(
                key,
                #[trigger] s[i].0,
            ) by {
                if i < t.len() {
                    assert(t[i] == s[i]);
                }
            }
            assert forall|i: int| 0 <= i < count_le(s, key) implies lex_le(#[trigger] s[i].0, key) by {
                assert(t[i] == s[i]);
            }
        }
    }
}

proof fn lemma_insert_stable_sorted(s: Seq<EntryView>, x: EntryView)
    requires
        dir_sorted(s),
    ensures
        dir_sorted(insert_stable(s, x)),
        insert_stable(s, x).len() == s.len() + 1,
{
    lemma_count_le_splits(s, x.0);
    let p = count_le(s, x.0) as int;
    let r = insert_stable(s, x);
    assert(r.len() == s.len() + 1);
    assert forall|i: int, j: int| 0 <= i < j < r.len() implies lex_le(#[trigger] r[i].0, #[trigger] r[j].0) by {
        if j < p {
            assert(r[i] == s[i] && r[j] == s[j]);
        } else if j == p {
            assert(r[j] == x);
            assert(r[i] == s[i]);
        } else if i > p {
            assert(r[i] == s[i - 1] && r[j] == s[j - 1]);
        } else if i == p {
            assert(r[i] == x && r[j] == s[j - 1]);
        } else {
            assert(r[i] == s[i] && r[j] == s[j - 1]);
            lemma_lex_le_transitive(s[i].0, x.0, s[j - 1].0);
        }
    }
}

// ── Scanning the root for `list` ────────────────────────────────────

/// A directory of the dotfiles root: its name and whether it holds a
/// `.dodotignore` marker.
#[derive(Debug)]
pub struct RootDir {
    pub name: String,
    pub marked: bool,
}

pub open spec fn root_view(v: Seq<RootDir>) -> Seq<(Seq<char>, bool)> {
    Seq::new(v.len(), |i: int| (v[i].name@, v[i].marked))
}

/// A directory the scan keeps (no skip rule applies to its name).
pub open spec fn scan_keeps(name: Seq<char>, pats: Seq<Seq<char>>) -> bool {
    crate::rules::spec_classify_pack_dir(name, pats) is None
}

/// The active packs of a root, in the order given.
pub open spec fn active_dirs(d: Seq<(Seq<char>, bool)>, pats: Seq<Seq<char>>) -> Seq<Seq<char>>
    decreases d.len(),
{
    if d.len() == 0 {
        Seq::empty()
    } else {
        let rest = active_dirs(d.drop_last(), pats);
        if scan_keeps(d.last().0, pats) && !d.last().1 {
            rest.push(d.last().0)
        } else {
            rest
        }
    }
}

/// The `.dodotignore`d directories of a root, in the order given.
pub open spec fn marked_dirs(d: Seq<(Seq<char>, bool)>, pats: Seq<Seq<char>>) -> Seq<Seq<char>>
    decreases d.len(),
{
    if d.len() == 0 {
        Seq::empty()
    } else {
        let rest = marked_dirs(d.drop_last(), pats);
        if scan_keeps(d.last().0, pats) && d.last().1 {
            rest.push(d.last().0)
        } else {
            rest
        }
    }
}

/// The refusal for a directory that reads as an ordering prefix with no
/// name after it.
pub open spec fn spec_empty_stem_error(dir: Seq<char>) -> Seq<char> {
    "pack directory `"@ + dir
        + "` reads as an ordering prefix with no name after the separator; rename it"@
}

/// The refusal for two packs with one display name.
pub open spec fn spec_collision_error(a: Seq<char>, b: Seq<char>) -> Seq<char> {
    "packs `"@ + a + "` and `"@ + b + "` both read as `"@ + spec_display_name(a)
        + "`, so their order is ambiguous; rename one of them"@
}

/// The first directory at or after `i` that reads as an empty stem.
pub open spec fn first_empty_stem(d: Seq<(Seq<char>, bool)>, pats: Seq<Seq<char>>, i: int) -> Option<
    Seq<char>,
>
    decreases d.len() - i,
{
    if i < 0 || i >= d.len() {
        None
    } else if crate::rules::spec_classify_pack_dir(d[i].0, pats)
        == Some(crate::rules::PackDirSkipView::EmptyStem) {
        Some(d[i].0)
    } else {
        first_empty_stem(d, pats, i + 1)
    }
}

/// The first pair of active packs at or after `(i, j)` with one display
/// name.
pub open spec fn first_collision(a: Seq<Seq<char>>, i: int, j: int) -> Option<(Seq<char>, Seq<char>)>
    decreases a.len() - i, a.len() + 1 - j,
{
    if i < 0 || i >= a.len() {
        None
    } else if j <= i || j >= a.len() {
        first_collision(a, i + 1, i + 2)
    } else if spec_display_name(a[i]) == spec_display_name(a[j]) {
        Some((a[i], a[j]))
    } else {
        first_collision(a, i, j + 1)
    }
}

/// What stops a scan of the root: an empty-stem directory, else two
/// packs with one display name.
pub open spec fn spec_scan_error(d: Seq<(Seq<char>, bool)>, pats: Seq<Seq<char>>) -> Option<Seq<char>> {
    match first_empty_stem(d, pats, 0) {
        Some(dir) => Some(spec_empty_stem_error(dir)),
        None => match first_collision(active_dirs(d, pats), 0, 1) {
            Some((a, b)) => Some(spec_collision_error(a, b)),
            None => None,
        },
    }
}

pub open spec fn pairs_view(p: Seq<(String, String)>) -> Seq<(Seq<char>, Seq<char>)> {
    Seq::new(p.len(), |i: int| (p[i].0@, p[i].1@))
}

/// `dodot list` on the directories of a root: refused when the scan
/// fails (an empty-stem directory, or two packs with one display name),
/// else the listing of `list` over the active packs and the ignored
/// directories the scan keeps.
pub fn list_root(dirs: &[RootDir], patterns: &[String]) -> (r: Result<ListResult, String>)
    ensures
        match r {
            Err(m) => spec_scan_error(root_view(dirs@), strings_view(patterns@)) == Some(m@),
            Ok(res) => spec_scan_error(root_view(dirs@), strings_view(patterns@)) is None && exists|
                p: Seq<(String, String)>,
                g: Seq<String>,
            |
                #![trigger list_entries(p, g)]
                pairs_view(p) == active_dirs(root_view(dirs@), strings_view(patterns@)).map_values(
                    |d: Seq<char>| (d, spec_display_name(d)),
                ) && strings_view(g) == marked_dirs(root_view(dirs@), strings_view(patterns@))
                    && listed(res.packs@) == names_of(stable_sort(list_entries(p, g))),
        },
{
    let ghost d = root_view(dirs@);
    let ghost pats = strings_view(patterns@);
    let mut k: usize = 0;
    while k < dirs.len()
        invariant
            k <= dirs@.len(),
            d == root_view(dirs@),
            pats == strings_view(patterns@),
            first_empty_stem(d, pats, 0) == first_empty_stem(d, pats, k as int),
        decreases dirs.len() - k,
    {
        let skip = crate::rules::classify_pack_dir(dirs[k].name.as_str(), patterns);
        match skip {
            Some(crate::rules::PackDirSkip::EmptyStem) => {
                let mut v = chars_of("pack directory `");
                push_str(&mut v, dirs[k].name.as_str());
                push_str(
                    &mut v,
                    "` reads as an ordering prefix with no name after the separator; rename it",
                );
                return Err(string_of(v.as_slice()));
            },
            _ => {},
        }
        k = k + 1;
    }
    let mut packs: Vec<(String, String)> = Vec::new();
    let mut active: Vec<String> = Vec::new();
    let mut ignored: Vec<String> = Vec::new();
    let mut i: usize = 0;
    proof {
        assert(d.take(0) =~= Seq::<(Seq<char>, bool)>::empty());
        assert(strings_view(active@) =~= Seq::<Seq<char>>::empty());
        assert(strings_view(ignored@) =~= Seq::<Seq<char>>::empty());
        assert(pairs_view(packs@) =~= Seq::<(Seq<char>, Seq<char>)>::empty());
    }
    while i < dirs.len()
        invariant
            i <= dirs@.len(),
            d == root_view(dirs@),
            pats == strings_view(patterns@),
            first_empty_stem(d, pats, 0) is None,
            strings_view(active@) == active_dirs(d.take(i as int), pats),
            strings_view(ignored@) == marked_dirs(d.take(i as int), pats),
            pairs_view(packs@) == strings_view(active@).map_values(
                |x: Seq<char>| (x, spec_display_name(x)),
            ),
        decreases dirs.len() - i,
    {
        proof {
            assert(d.take(i + 1).drop_last() =~= d.take(i as int));
            assert(d.take(i + 1).last() == d[i as int]);
        }
        let kept = crate::rules::classify_pack_dir(dirs[i].name.as_str(), patterns).is_none();
        if kept {
            let n = dirs[i].name.clone();
            if dirs[i].marked {
                let ghost before = ignored@;
                ignored.push(n);
                proof {
                    assert(strings_view(ignored@) =~= strings_view(before).push(dirs@[i as int].name@));
                }
            } else {
                let shown = display_name_for(n.as_str());
                let ghost ab = active@;
                let ghost pb = packs@;
                active.push(n.clone());
                packs.push((n, shown));
                proof {
                    assert(strings_view(active@) =~= strings_view(ab).push(dirs@[i as int].name@));
                    assert(pairs_view(packs@) =~= pairs_view(pb).push(
                        (dirs@[i as int].name@, spec_display_name(dirs@[i as int].name@)),
                    ));
                    assert(pairs_view(packs@) =~= strings_view(active@).map_values(
                        |x: Seq<char>| (x, spec_display_name(x)),
                    ));
                }
            }
        }
        i = i + 1;
    }
    proof {
        assert(d.take(d.len() as int) =~= d);
    }
    let ghost act = strings_view(active@);
    assert(act == active_dirs(d, pats));
    let n = active.len();
    let mut a: usize = 0;
    while a < n
        invariant
            n == active@.len(),
            a <= n,
            act == strings_view(active@),
            d == root_view(dirs@),
            pats == strings_view(patterns@),
            first_empty_stem(d, pats, 0) is None,
            act == active_dirs(d, pats),
            first_collision(act, 0, 1) == first_collision(act, a as int, a + 1),
        decreases n - a,
    {
        let mut b: usize = a + 1;
        while b < n
            invariant
                n == active@.len(),
                a < n,
                a + 1 <= b <= n,
                act == strings_view(active@),
                d == root_view(dirs@),
                pats == strings_view(patterns@),
                first_empty_stem(d, pats, 0) is None,
                act == active_dirs(d, pats),
                first_collision(act, 0, 1) == first_collision(act, a as int, b as int),
            decreases n - b,
        {
            let x = display_name_for(active[a].as_str());
            let y = display_name_for(active[b].as_str());
            let xv = chars_of(x.as_str());
            let yv = chars_of(y.as_str());
            if chars_eq(xv.as_slice(), yv.as_slice()) {
                proof {
                    assert(act[a as int] == active@[a as int]@);
                    assert(act[b as int] == active@[b as int]@);
                    assert(first_collision(act, a as int, b as int) == Some(
                        (act[a as int], act[b as int]),
                    ));
                }
                let mut v = chars_of("packs `");
                push_str(&mut v, active[a].as_str());
                push_str(&mut v, "` and `");
                push_str(&mut v, active[b].as_str());
                push_str(&mut v, "` both read as `");
                push_str(&mut v, x.as_str());
                push_str(&mut v, "`, so their order is ambiguous; rename one of them");
                return Err(string_of(v.as_slice()));
            }
            proof {
                assert(act[a as int] == active@[a as int]@);
                assert(act[b as int] == active@[b as int]@);
            }
            b = b + 1;
        }
        a = a + 1;
    }
    let res = list(packs.as_slice(), ignored.as_slice());
    proof {
        assert(pairs_view(packs@) == active_dirs(d, pats).map_values(
            |x: Seq<char>| (x, spec_display_name(x)),
        ));
        assert(list_entries(packs@, ignored@) == list_entries(packs@, ignored@));
    }
    Ok(res)
}

/// `dodot list` shows packs in the order dodot applies them: sorted by
/// directory name, every entry kept.
pub proof fn law_list_in_apply_order(s: Seq<EntryView>)
    ensures
        dir_sorted(stable_sort(s)),
        stable_sort(s).len() == s.len(),
    decreases s.len(),
{
    if s.len() > 0 {
        law_list_in_apply_order(s.drop_last());
        lemma_insert_stable_sorted(stable_sort(s.drop_last()), s.last());
    }
}

} // verus!
