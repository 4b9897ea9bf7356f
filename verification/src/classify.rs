//! Deciding whether a pack scan would read an entry adopt is about to
//! create, and the words adopt uses when it would not.
//!
//! An entry is adoptable when a later pack scan reads it at the in-pack
//! position adopt gives it. Inside a pack the rules apply at the names
//! the top-level walk reads: the first component of the in-pack path,
//! and, through every leading gate directory whose predicate holds on
//! this host, the first component inside it. The pack directory itself
//! is judged by the dotfiles-root scan's rules
//! ([`crate::rules::classify_pack_dir`]).

use vstd::prelude::*;
use crate::gates::{
    parse_dir_gate_label, spec_gate_label, spec_lookup, spec_matches, GateTable, HostFacts,
    HostView, PredicateView,
};
use crate::infer::{opt_view, strings_view};
use crate::paths::{components, components_of};
use crate::rules::{
    classify_pack_dir, first_match, is_hidden, is_hidden_exec, is_reserved, is_reserved_exec,
    matched_ignore_pattern, spec_classify_pack_dir, PackDirSkip, PackDirSkipView,
};
use crate::text::{chars_eq, chars_of, push_str, string_of};

verus! {

// ── Parsing a `.dodot.toml` ──────────────────────────────────────────

/// Whether `text` parses as a TOML document whose table `table` holds
/// the key `key`.
pub uninterp spec fn toml_has(text: Seq<char>, table: Seq<char>, key: Seq<char>) -> bool;

/// Parses `text` with `toml::Table`'s `FromStr` and looks `key` up in
/// its `table` with `toml::Value::get`. The contract claims only that
/// the answer is a function of the three texts; a text that does not
/// parse gives `false`, which the name covers.
#[verifier::external_body]
fn toml_table_has(text: &str, table: &str, key: &str) -> (r: bool)
    ensures
        r == toml_has(text@, table@, key@),
{
    match text.parse::<toml::Table>() {
        Ok(doc) => doc.get(table).and_then(|t| t.get(key)).is_some(),
        Err(_) => false,
    }
}

/// Whether a `.dodot.toml` sets `[pack] ignore` itself: `None` stands
/// for a file that could not be read, which sets nothing.
pub open spec fn spec_sets_pack_ignore(text: Option<Seq<char>>) -> bool {
    match text {
        Some(t) => toml_has(t, "pack"@, "ignore"@),
        None => false,
    }
}

/// Does this `.dodot.toml` (its text, when it could be read) set
/// `[pack] ignore`?
pub fn sets_pack_ignore(text: Option<&str>) -> (r: bool)
    ensures
        r == spec_sets_pack_ignore(
            match text {
                Some(t) => Some(t@),
                None => None,
            },
        ),
{
    match text {
        Some(t) => {
            proof {
                reveal_strlit("pack");
                reveal_strlit("ignore");
            }
            toml_table_has(t, "pack", "ignore")
        },
        None => false,
    }
}

// ── The effective `[pack] ignore` list ───────────────────────────────

/// Which configuration layer supplied the `[pack] ignore` list in force.
/// A pack-level list replaces the root list, which replaces the
/// built-in defaults.
#[derive(Debug, Clone, Copy, PartialEq, Eq, Structural)]
pub enum IgnoreLayer {
    Builtin,
    Root,
    Pack,
}

/// How a layer is named inside a message.
pub open spec fn spec_describe(layer: IgnoreLayer, pack: Seq<char>) -> Seq<char> {
    match layer {
        IgnoreLayer::Builtin => "dodot's default list"@,
        IgnoreLayer::Root => "the root .dodot.toml"@,
        IgnoreLayer::Pack => "pack "@ + pack + "'s .dodot.toml"@,
    }
}

impl IgnoreLayer {
    /// How the layer is named inside a message.
    pub fn describe(&self, pack: &str) -> (r: String)
        ensures
            r@ == spec_describe(*self, pack@),
    {
        match self {
            IgnoreLayer::Builtin => String::from_str("dodot's default list"),
            IgnoreLayer::Root => String::from_str("the root .dodot.toml"),
            IgnoreLayer::Pack => {
                let mut v = chars_of("pack ");
                push_str(&mut v, pack);
                push_str(&mut v, "'s .dodot.toml");
                string_of(v.as_slice())
            },
        }
    }
}

/// The layer in force, given which `.dodot.toml` files set the key: the
/// pack's own file wins, then the root's, then the built-in list.
pub open spec fn spec_layer(pack_sets: bool, root_sets: bool) -> IgnoreLayer {
    if pack_sets {
        IgnoreLayer::Pack
    } else if root_sets {
        IgnoreLayer::Root
    } else {
        IgnoreLayer::Builtin
    }
}

/// The layer in force, given which `.dodot.toml` files set the key.
pub fn layer_from(pack_sets: bool, root_sets: bool) -> (r: IgnoreLayer)
    ensures
        r == spec_layer(pack_sets, root_sets),
{
    if pack_sets {
        IgnoreLayer::Pack
    } else if root_sets {
        IgnoreLayer::Root
    } else {
        IgnoreLayer::Builtin
    }
}

/// The one `[pack] ignore` list in force for a pack, and its layer.
#[derive(Debug)]
pub struct EffectiveIgnore {
    pub patterns: Vec<String>,
    pub layer: IgnoreLayer,
}

pub open spec fn opt_str_view(o: Option<&str>) -> Option<Seq<char>> {
    match o {
        Some(t) => Some(t@),
        None => None,
    }
}

impl EffectiveIgnore {
    /// Pair the resolved list for a pack with the layer that set it,
    /// judged from the texts of the pack's and the root's `.dodot.toml`
    /// (`None` for a file that could not be read).
    pub fn resolve(pack_toml: Option<&str>, root_toml: Option<&str>, patterns: Vec<String>) -> (r:
        Self)
        ensures
            r.patterns@ == patterns@,
            r.layer == spec_layer(
                spec_sets_pack_ignore(opt_str_view(pack_toml)),
                spec_sets_pack_ignore(opt_str_view(root_toml)),
            ),
    {
        let pack_sets = sets_pack_ignore(pack_toml);
        let root_sets = if pack_sets {
            false
        } else {
            sets_pack_ignore(root_toml)
        };
        let layer = layer_from(pack_sets, root_sets);
        EffectiveIgnore { patterns, layer }
    }

    /// The list the dotfiles-root scan applies to pack directory names:
    /// only the root `.dodot.toml` can have set it.
    pub fn root(root_toml: Option<&str>, patterns: Vec<String>) -> (r: Self)
        ensures
            r.patterns@ == patterns@,
            r.layer == spec_layer(false, spec_sets_pack_ignore(opt_str_view(root_toml))),
    {
        let root_sets = sets_pack_ignore(root_toml);
        let layer = layer_from(false, root_sets);
        EffectiveIgnore { patterns, layer }
    }
}

// ── The verdict ──────────────────────────────────────────────────────

/// The discovery rule that makes a scanned name one no dodot run reads.
/// Each variant carries the name at the classified position.
#[derive(Debug, PartialEq, Eq)]
pub enum SkipRule {
    /// `.dodot.toml` or `.dodotignore`.
    Reserved { name: String },
    /// A match against the effective `[pack] ignore` list.
    Ignored { name: String, pattern: String, layer: IgnoreLayer },
    /// A dot-prefixed name other than `.config`.
    Hidden { name: String },
    /// A `_<label>` directory naming a label no gate table defines.
    UnknownGate { name: String, label: String },
}

pub enum SkipRuleView {
    Reserved(Seq<char>),
    Ignored(Seq<char>, Seq<char>, IgnoreLayer),
    Hidden(Seq<char>),
    UnknownGate(Seq<char>, Seq<char>),
}

impl View for SkipRule {
    type V = SkipRuleView;

    open spec fn view(&self) -> SkipRuleView {
        match self {
            SkipRule::Reserved { name } => SkipRuleView::Reserved(name@),
            SkipRule::Ignored { name, pattern, layer } => SkipRuleView::Ignored(
                name@,
                pattern@,
                *layer,
            ),
            SkipRule::Hidden { name } => SkipRuleView::Hidden(name@),
            SkipRule::UnknownGate { name, label } => SkipRuleView::UnknownGate(name@, label@),
        }
    }
}

pub open spec fn opt_rule_view(o: Option<SkipRule>) -> Option<SkipRuleView> {
    match o {
        Some(r) => Some(r@),
        None => None,
    }
}

/// The short phrase for a rule.
pub open spec fn spec_short(r: SkipRuleView, pack: Seq<char>) -> Seq<char> {
    match r {
        SkipRuleView::Reserved(name) => "`"@ + name + "` is dodot's own"@,
        SkipRuleView::Ignored(_, pattern, layer) => "[pack] ignore `"@ + pattern + "` ("@
            + spec_describe(layer, pack) + ")"@,
        SkipRuleView::Hidden(_) => "hidden top-level name"@,
        SkipRuleView::UnknownGate(_, label) => "undefined gate label `"@ + label + "`"@,
    }
}

/// The sentence for a rule in the report of entries left in place.
pub open spec fn spec_reported(r: SkipRuleView, pack: Seq<char>) -> Seq<char> {
    match r {
        SkipRuleView::Reserved(name) => "`"@ + name
            + "` is a name dodot reads its own configuration from"@,
        SkipRuleView::Ignored(_, pattern, layer) => "matches `"@ + pattern
            + "` in [pack] ignore ("@ + spec_describe(layer, pack) + ")"@,
        SkipRuleView::Hidden(_) => "a pack's top-level scan skips names starting with `.` (except .config)"@,
        SkipRuleView::UnknownGate(_, label) => "`_"@ + label
            + "` names a gate label dodot does not define, and a pack scan fails on it rather than reading it"@,
    }
}

/// The refusal for a source typed on the command line.
pub open spec fn spec_refusal(
    r: SkipRuleView,
    source: Seq<char>,
    in_pack: Seq<char>,
    pack: Seq<char>,
) -> Seq<char> {
    match r {
        SkipRuleView::Reserved(name) => if name == ".dodot.toml"@ {
            "refusing to adopt "@ + source
                + ": `.dodot.toml` is dodot's own pack configuration file. Adopting one into a pack would replace that pack's configuration rather than add a managed file. Rename it if you want it deployed."@
        } else {
            "refusing to adopt "@ + source
                + ": `.dodotignore` is the marker that hides a pack from dodot. Adopting one into a pack would hide the whole pack rather than add a managed file. Rename it if you want it deployed."@
        },
        SkipRuleView::Ignored(name, pattern, layer) => "refusing to adopt "@ + source
            + ": it would land at `"@ + in_pack + "` in pack "@ + pack
            + ", where the pack scan reads `"@ + name + "` and skips it — `"@ + name
            + "` matches `"@ + pattern + "` in [pack] ignore ("@ + spec_describe(layer, pack)
            + "). No dodot run would read the entry. To manage it, override [pack] ignore for this pack in .dodot.toml."@,
        SkipRuleView::Hidden(name) => "refusing to adopt "@ + source + ": it would land at `"@
            + in_pack + "` in pack "@ + pack
            + ", and a pack's top-level scan skips names starting with `.` (except .config), so no dodot run would read `"@
            + name + "`. No config setting changes that."@,
        SkipRuleView::UnknownGate(name, label) => "refusing to adopt "@ + source
            + ": it would land at `"@ + in_pack + "` in pack "@ + pack + ", where `"@ + name
            + "` names a gate label dodot does not define. A pack scan stops on an undefined gate directory, so adopting this would make every later `dodot up` and `dodot status` fail on pack "@
            + pack + ". Define `"@ + label
            + "` under [gates] in .dodot.toml, or rename the directory. Built-ins: darwin, linux, macos, arm64, aarch64, x86_64."@,
    }
}

impl SkipRule {
    /// A second value of the same rule.
    pub fn duplicate(&self) -> (r: SkipRule)
        ensures
            r@ == self@,
    {
        match self {
            SkipRule::Reserved { name } => SkipRule::Reserved { name: name.clone() },
            SkipRule::Ignored { name, pattern, layer } => SkipRule::Ignored {
                name: name.clone(),
                pattern: pattern.clone(),
                layer: *layer,
            },
            SkipRule::Hidden { name } => SkipRule::Hidden { name: name.clone() },
            SkipRule::UnknownGate { name, label } => SkipRule::UnknownGate {
                name: name.clone(),
                label: label.clone(),
            },
        }
    }

    /// The rule as a short phrase, for the columns of the listing of a
    /// directory with no adoptable children.
    pub fn short(&self, pack: &str) -> (r: String)
        ensures
            r@ == spec_short(self@, pack@),
    {
        match self {
            SkipRule::Reserved { name } => {
                let mut v = chars_of("`");
                push_str(&mut v, name.as_str());
                push_str(&mut v, "` is dodot's own");
                string_of(v.as_slice())
            },
            SkipRule::Ignored { pattern, layer, .. } => {
                let d = layer.describe(pack);
                let mut v = chars_of("[pack] ignore `");
                push_str(&mut v, pattern.as_str());
                push_str(&mut v, "` (");
                push_str(&mut v, d.as_str());
                push_str(&mut v, ")");
                string_of(v.as_slice())
            },
            SkipRule::Hidden { .. } => String::from_str("hidden top-level name"),
            SkipRule::UnknownGate { label, .. } => {
                let mut v = chars_of("undefined gate label `");
                push_str(&mut v, label.as_str());
                push_str(&mut v, "`");
                string_of(v.as_slice())
            },
        }
    }

    /// The rule as a sentence, for the report of entries left where
    /// they were.
    pub fn reported(&self, pack: &str) -> (r: String)
        ensures
            r@ == spec_reported(self@, pack@),
    {
        match self {
            SkipRule::Reserved { name } => {
                let mut v = chars_of("`");
                push_str(&mut v, name.as_str());
                push_str(&mut v, "` is a name dodot reads its own configuration from");
                string_of(v.as_slice())
            },
            SkipRule::Ignored { pattern, layer, .. } => {
                let d = layer.describe(pack);
                let mut v = chars_of("matches `");
                push_str(&mut v, pattern.as_str());
                push_str(&mut v, "` in [pack] ignore (");
                push_str(&mut v, d.as_str());
                push_str(&mut v, ")");
                string_of(v.as_slice())
            },
            SkipRule::Hidden { .. } => String::from_str(
                "a pack's top-level scan skips names starting with `.` (except .config)",
            ),
            SkipRule::UnknownGate { label, .. } => {
                let mut v = chars_of("`_");
                push_str(&mut v, label.as_str());
                push_str(
                    &mut v,
                    "` names a gate label dodot does not define, and a pack scan fails on it rather than reading it",
                );
                string_of(v.as_slice())
            },
        }
    }

    /// The refusal for a source the user typed on the command line;
    /// `source` and `in_pack` are the paths as displayed.
    pub fn refusal(&self, source: &str, in_pack: &str, pack: &str) -> (r: String)
        ensures
            r@ == spec_refusal(self@, source@, in_pack@, pack@),
    {
        match self {
            SkipRule::Reserved { name } => {
                let n = chars_of(name.as_str());
                let toml = chars_of(".dodot.toml");
                let mut v = chars_of("refusing to adopt ");
                push_str(&mut v, source);
                if chars_eq(n.as_slice(), toml.as_slice()) {
                    push_str(
                        &mut v,
                        ": `.dodot.toml` is dodot's own pack configuration file. Adopting one into a pack would replace that pack's configuration rather than add a managed file. Rename it if you want it deployed.",
                    );
                } else {
                    push_str(
                        &mut v,
                        ": `.dodotignore` is the marker that hides a pack from dodot. Adopting one into a pack would hide the whole pack rather than add a managed file. Rename it if you want it deployed.",
                    );
                }
                string_of(v.as_slice())
            },
            SkipRule::Ignored { name, pattern, layer } => {
                let d = layer.describe(pack);
                let mut v = chars_of("refusing to adopt ");
                push_str(&mut v, source);
                push_str(&mut v, ": it would land at `");
                push_str(&mut v, in_pack);
                push_str(&mut v, "` in pack ");
                push_str(&mut v, pack);
                push_str(&mut v, ", where the pack scan reads `");
                push_str(&mut v, name.as_str());
                push_str(&mut v, "` and skips it — `");
                push_str(&mut v, name.as_str());
                push_str(&mut v, "` matches `");
                push_str(&mut v, pattern.as_str());
                push_str(&mut v, "` in [pack] ignore (");
                push_str(&mut v, d.as_str());
                push_str(
                    &mut v,
                    "). No dodot run would read the entry. To manage it, override [pack] ignore for this pack in .dodot.toml.",
                );
                string_of(v.as_slice())
            },
            SkipRule::Hidden { name } => {
                let mut v = chars_of("refusing to adopt ");
                push_str(&mut v, source);
                push_str(&mut v, ": it would land at `");
                push_str(&mut v, in_pack);
                push_str(&mut v, "` in pack ");
                push_str(&mut v, pack);
                push_str(
                    &mut v,
                    ", and a pack's top-level scan skips names starting with `.` (except .config), so no dodot run would read `",
                );
                push_str(&mut v, name.as_str());
                push_str(&mut v, "`. No config setting changes that.");
                string_of(v.as_slice())
            },
            SkipRule::UnknownGate { name, label } => {
                let mut v = chars_of("refusing to adopt ");
                push_str(&mut v, source);
                push_str(&mut v, ": it would land at `");
                push_str(&mut v, in_pack);
                push_str(&mut v, "` in pack ");
                push_str(&mut v, pack);
                push_str(&mut v, ", where `");
                push_str(&mut v, name.as_str());
                push_str(
                    &mut v,
                    "` names a gate label dodot does not define. A pack scan stops on an undefined gate directory, so adopting this would make every later `dodot up` and `dodot status` fail on pack ",
                );
                push_str(&mut v, pack);
                push_str(&mut v, ". Define `");
                push_str(&mut v, label.as_str());
                push_str(
                    &mut v,
                    "` under [gates] in .dodot.toml, or rename the directory. Built-ins: darwin, linux, macos, arm64, aarch64, x86_64.",
                );
                string_of(v.as_slice())
            },
        }
    }
}


// ── Classification ───────────────────────────────────────────────────

/// The names of a relative in-pack path, outermost first: its
/// components without `..` (the walk only reads ordinary names).
pub open spec fn scan_names(p: Seq<char>) -> Seq<Seq<char>> {
    components(p).filter(ordinary_fn())
}

pub open spec fn ordinary_fn() -> spec_fn(Seq<char>) -> bool {
    |c: Seq<char>| c != ".."@
}

/// What label the walk parses at position `k`: only a directory is
/// parsed as a gate, and a position is a directory when another name
/// follows it or when the entry itself is one.
pub open spec fn position_label(names: Seq<Seq<char>>, k: int, is_dir: bool) -> Option<Seq<char>> {
    if k + 1 < names.len() || is_dir {
        spec_gate_label(names[k])
    } else {
        None
    }
}

/// The walk descends past position `k`: it is a gate directory whose
/// predicate holds on this host.
pub open spec fn descends(
    names: Seq<Seq<char>>,
    k: int,
    is_dir: bool,
    gates: Seq<(Seq<char>, PredicateView)>,
    host: HostView,
) -> bool {
    match position_label(names, k, is_dir) {
        Some(label) => match spec_lookup(gates, label) {
            Some(p) => spec_matches(p, host),
            None => false,
        },
        None => false,
    }
}

/// The rule matching one name read at a classified position, tested in
/// the walk's order: reserved, ignored, hidden, undefined gate label.
pub open spec fn spec_rule_for(
    name: Seq<char>,
    label: Option<Seq<char>>,
    patterns: Seq<Seq<char>>,
    layer: IgnoreLayer,
    gates: Seq<(Seq<char>, PredicateView)>,
) -> Option<SkipRuleView> {
    if is_reserved(name) {
        Some(SkipRuleView::Reserved(name))
    } else {
        match first_match(name, patterns) {
            Some(pattern) => Some(SkipRuleView::Ignored(name, pattern, layer)),
            None => if is_hidden(name) {
                Some(SkipRuleView::Hidden(name))
            } else {
                match label {
                    Some(l) => if spec_lookup(gates, l) is None {
                        Some(SkipRuleView::UnknownGate(name, l))
                    } else {
                        None
                    },
                    None => None,
                }
            },
        }
    }
}

/// The first rule met at positions `k` onwards, outermost first, where
/// the walk only reaches position `k + 1` through a passing gate
/// directory at `k`.
pub open spec fn spec_classify_from(
    names: Seq<Seq<char>>,
    k: int,
    is_dir: bool,
    patterns: Seq<Seq<char>>,
    layer: IgnoreLayer,
    gates: Seq<(Seq<char>, PredicateView)>,
    host: HostView,
) -> Option<SkipRuleView>
    decreases names.len() - k,
{
    if k < 0 || k >= names.len() {
        None
    } else {
        match spec_rule_for(names[k], position_label(names, k, is_dir), patterns, layer, gates) {
            Some(r) => Some(r),
            None => if descends(names, k, is_dir, gates, host) {
                spec_classify_from(names, k + 1, is_dir, patterns, layer, gates, host)
            } else {
                None
            },
        }
    }
}

/// The rule that stops a pack scan from reading `in_pack`.
pub open spec fn spec_classify(
    in_pack: Seq<char>,
    is_dir: bool,
    patterns: Seq<Seq<char>>,
    layer: IgnoreLayer,
    gates: Seq<(Seq<char>, PredicateView)>,
    host: HostView,
) -> Option<SkipRuleView> {
    spec_classify_from(scan_names(in_pack), 0, is_dir, patterns, layer, gates, host)
}

fn scan_names_exec(in_pack: &str) -> (r: Vec<Vec<char>>)
    ensures
        r.deep_view() == scan_names(in_pack@),
{
    let p = chars_of(in_pack);
    let all = components_of(p.as_slice());
    let dots = chars_of("..");
    let ghost pred = ordinary_fn();
    let mut r: Vec<Vec<char>> = Vec::new();
    let mut i: usize = 0;
    while i < all.len()
        invariant
            i <= all.len(),
            dots@ == ".."@,
            pred == ordinary_fn(),
            all.deep_view() == components(in_pack@),
            r.deep_view() == all.deep_view().take(i as int).filter(pred),
        decreases all.len() - i,
    {
        let ghost old_r = r.deep_view();
        proof {
            assert(all.deep_view().take(i + 1) =~= all.deep_view().take(i as int).push(
                all.deep_view()[i as int],
            ));
            assert(all.deep_view()[i as int] =~= all[i as int]@);
            all.deep_view().take(i as int).lemma_filter_push(all.deep_view()[i as int], pred);
        }
        if !chars_eq(all[i].as_slice(), dots.as_slice()) {
            let c = crate::text::copy_chars(all[i].as_slice());
            proof {
                assert(c.deep_view() =~= c@);
            }
            r.push(c);
            proof {
                assert(r.deep_view() =~= old_r.push(c@));
            }
        }
        i = i + 1;
    }
    proof {
        assert(all.deep_view().take(all.len() as int) =~= all.deep_view());
    }
    r
}

fn rule_for(
    name: &Vec<char>,
    label: &Option<String>,
    ignore: &EffectiveIgnore,
    gates: &GateTable,
) -> (r: Option<SkipRule>)
    ensures
        opt_rule_view(r) == spec_rule_for(
            name@,
            opt_view(*label),
            strings_view(ignore.patterns@),
            ignore.layer,
            gates@,
        ),
{
    let n = string_of(name.as_slice());
    if is_reserved_exec(name.as_slice()) {
        return Some(SkipRule::Reserved { name: n });
    }
    if let Some(pattern) = matched_ignore_pattern(n.as_str(), ignore.patterns.as_slice()) {
        return Some(SkipRule::Ignored { name: n, pattern, layer: ignore.layer });
    }
    if is_hidden_exec(name.as_slice()) {
        return Some(SkipRule::Hidden { name: n });
    }
    match label {
        Some(l) => {
            if gates.lookup(l.as_str()).is_none() {
                let label_copy = string_of(chars_of(l.as_str()).as_slice());
                Some(SkipRule::UnknownGate { name: n, label: label_copy })
            } else {
                None
            }
        },
        None => None,
    }
}

/// The rule that stops a pack scan from reading the entry adopt would
/// create at `in_pack` (a relative path), or `None` when every
/// classified position is one the scan reads. `is_dir` says whether the
/// entry itself is a directory.
pub fn classify(
    in_pack: &str,
    is_dir: bool,
    ignore: &EffectiveIgnore,
    gates: &GateTable,
    host: &HostFacts,
) -> (r: Option<SkipRule>)
    ensures
        opt_rule_view(r) == spec_classify(
            in_pack@,
            is_dir,
            strings_view(ignore.patterns@),
            ignore.layer,
            gates@,
            host@,
        ),
{
    let names = scan_names_exec(in_pack);
    let ghost ns = names.deep_view();
    let ghost pats = strings_view(ignore.patterns@);
    let mut k: usize = 0;
    while k < names.len()
        invariant
            k <= names.len(),
            ns == names.deep_view(),
            ns.len() == names.len(),
            pats == strings_view(ignore.patterns@),
            ns == scan_names(in_pack@),
            spec_classify(in_pack@, is_dir, pats, ignore.layer, gates@, host@) == spec_classify_from(
                ns,
                k as int,
                is_dir,
                pats,
                ignore.layer,
                gates@,
                host@,
            ),
        decreases names.len() - k,
    {
        proof {
            assert(ns[k as int] =~= names[k as int]@);
        }
        let position_is_dir = k + 1 < names.len() || is_dir;
        let label: Option<String> = if position_is_dir {
            parse_dir_gate_label(string_of(names[k].as_slice()).as_str())
        } else {
            None
        };
        assert(opt_view(label) == position_label(ns, k as int, is_dir));
        let rule = rule_for(&names[k], &label, ignore, gates);
        proof {
            assert(spec_classify_from(ns, k as int, is_dir, pats, ignore.layer, gates@, host@)
                == match spec_rule_for(ns[k as int], position_label(ns, k as int, is_dir), pats, ignore.layer, gates@) {
                    Some(r) => Some(r),
                    None => if descends(ns, k as int, is_dir, gates@, host@) {
                        spec_classify_from(ns, k + 1, is_dir, pats, ignore.layer, gates@, host@)
                    } else {
                        None
                    },
                });
        }
        if rule.is_some() {
            return rule;
        }
        let descend = match &label {
            Some(l) => match gates.lookup(l.as_str()) {
                Some(p) => p.matches(host),
                None => false,
            },
            None => false,
        };
        assert(descend == descends(ns, k as int, is_dir, gates@, host@));
        if !descend {
            return None;
        }
        k = k + 1;
    }
    None
}

/// The pack-directory refusal for a rule the dotfiles-root scan applies.
pub open spec fn spec_pack_dir_message(
    skip: PackDirSkipView,
    pack_dir: Seq<char>,
    layer: IgnoreLayer,
    root: Seq<char>,
) -> Seq<char> {
    let head = "refusing to adopt into pack `"@ + pack_dir + "`: it would be published at "@
        + root + "/"@ + pack_dir + ", "@;
    head + match skip {
        PackDirSkipView::Ignored(pattern) => "which the scan of your dotfiles root skips — `"@
            + pack_dir + "` matches `"@ + pattern + "` in [pack] ignore ("@ + spec_describe(
            layer,
            pack_dir,
        )
            + "). No `dodot up` and no `dodot status` would read the pack. Adopt into a pack dodot already reads with --into <pack>, or drop the pattern from [pack] ignore in the root .dodot.toml."@,
        PackDirSkipView::Hidden => "and the scan of your dotfiles root skips directories whose name starts with `.` (except .config), so no `dodot up` and no `dodot status` would read the pack. No config setting changes that. Adopt into a pack dodot already reads with --into <pack>."@,
        PackDirSkipView::InvalidName => "and a pack directory name may hold only letters, digits, `_`, `-` and `.`, so the scan of your dotfiles root would pass `"@
            + pack_dir
            + "` over and no dodot run would read the pack. Adopt into a pack dodot already reads with --into <pack>."@,
        PackDirSkipView::EmptyStem => "and `"@ + pack_dir
            + "` reads as an ordering prefix with no name after the separator, which makes every pack scan fail rather than skip it. Adopt into a pack dodot already reads with --into <pack>."@,
    }
}

/// The refusal for publishing into `pack_dir`, when the dotfiles-root
/// scan would not read it.
pub open spec fn spec_pack_dir_refusal(
    pack_dir: Seq<char>,
    patterns: Seq<Seq<char>>,
    layer: IgnoreLayer,
    root: Seq<char>,
) -> Option<Seq<char>> {
    match spec_classify_pack_dir(pack_dir, patterns) {
        Some(skip) => Some(spec_pack_dir_message(skip, pack_dir, layer, root)),
        None => None,
    }
}

/// The rule that keeps the dotfiles-root scan from reading the pack
/// adopt would publish into, rendered as a refusal, or `None` when the
/// scan reads it. `dotfiles_root` is the root as displayed.
pub fn pack_dir_refusal(pack_dir: &str, ignore: &EffectiveIgnore, dotfiles_root: &str) -> (r:
    Option<String>)
    ensures
        opt_view(r) == spec_pack_dir_refusal(
            pack_dir@,
            strings_view(ignore.patterns@),
            ignore.layer,
            dotfiles_root@,
        ),
{
    let skip = match classify_pack_dir(pack_dir, ignore.patterns.as_slice()) {
        Some(s) => s,
        None => return None,
    };
    let mut v = chars_of("refusing to adopt into pack `");
    push_str(&mut v, pack_dir);
    push_str(&mut v, "`: it would be published at ");
    push_str(&mut v, dotfiles_root);
    push_str(&mut v, "/");
    push_str(&mut v, pack_dir);
    push_str(&mut v, ", ");
    let ghost head = v@;
    let mut b: Vec<char> = Vec::new();
    match &skip {
        PackDirSkip::Ignored(pattern) => {
            let d = ignore.layer.describe(pack_dir);
            b = chars_of("which the scan of your dotfiles root skips — `");
            push_str(&mut b, pack_dir);
            push_str(&mut b, "` matches `");
            push_str(&mut b, pattern.as_str());
            push_str(&mut b, "` in [pack] ignore (");
            push_str(&mut b, d.as_str());
            push_str(
                &mut b,
                "). No `dodot up` and no `dodot status` would read the pack. Adopt into a pack dodot already reads with --into <pack>, or drop the pattern from [pack] ignore in the root .dodot.toml.",
            );
        },
        PackDirSkip::Hidden => {
            b = chars_of(
                "and the scan of your dotfiles root skips directories whose name starts with `.` (except .config), so no `dodot up` and no `dodot status` would read the pack. No config setting changes that. Adopt into a pack dodot already reads with --into <pack>.",
            );
        },
        PackDirSkip::InvalidName => {
            b = chars_of(
                "and a pack directory name may hold only letters, digits, `_`, `-` and `.`, so the scan of your dotfiles root would pass `",
            );
            push_str(&mut b, pack_dir);
            push_str(
                &mut b,
                "` over and no dodot run would read the pack. Adopt into a pack dodot already reads with --into <pack>.",
            );
        },
        PackDirSkip::EmptyStem => {
            b = chars_of("and `");
            push_str(&mut b, pack_dir);
            push_str(
                &mut b,
                "` reads as an ordering prefix with no name after the separator, which makes every pack scan fail rather than skip it. Adopt into a pack dodot already reads with --into <pack>.",
            );
        },
    }
    crate::text::push_chars(&mut v, b.as_slice());
    Some(string_of(v.as_slice()))
}

/// Only the names the walk reads decide: when the first name of an
/// in-pack path is not a gate directory that passes on this host,
/// everything below it is irrelevant, and the verdict is the verdict on
/// that one name.
pub proof fn law_classified_on_first_name(
    in_pack: Seq<char>,
    is_dir: bool,
    patterns: Seq<Seq<char>>,
    layer: IgnoreLayer,
    gates: Seq<(Seq<char>, PredicateView)>,
    host: HostView,
)
    requires
        scan_names(in_pack).len() > 0,
        !descends(scan_names(in_pack), 0, is_dir, gates, host),
    ensures
        spec_classify(in_pack, is_dir, patterns, layer, gates, host) == spec_rule_for(
            scan_names(in_pack)[0],
            position_label(scan_names(in_pack), 0, is_dir),
            patterns,
            layer,
            gates,
        ),
{
}

} // verus!
