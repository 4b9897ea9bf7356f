use dodot::classify::{classify, pack_dir_refusal, EffectiveIgnore, IgnoreLayer, SkipRule};
use dodot::gates::{GateTable, HostFacts};

fn ignore(patterns: &[&str]) -> EffectiveIgnore {
    EffectiveIgnore {
        patterns: patterns.iter().map(|p| p.to_string()).collect(),
        layer: IgnoreLayer::Builtin,
    }
}

fn gates() -> GateTable {
    GateTable::with_builtins()
}

fn darwin() -> HostFacts {
    HostFacts {
        os: "darwin".into(),
        arch: "x86_64".into(),
        hostname: None,
        username: None,
    }
}

fn linux() -> HostFacts {
    HostFacts {
        os: "linux".into(),
        arch: "x86_64".into(),
        hostname: None,
        username: None,
    }
}

#[test]
fn only_the_first_component_is_classified() {
    let ig = ignore(&["plugins", "*.lua"]);
    assert_eq!(
        classify("lua/plugins/init.lua", false, &ig, &gates(), &linux()),
        None
    );
}

#[test]
fn an_ignored_first_component_names_that_component() {
    let ig = ignore(&["lua"]);
    let rule = classify("lua/plugins/init.lua", false, &ig, &gates(), &linux())
        .expect("`lua` is ignored");
    assert_eq!(
        rule,
        SkipRule::Ignored {
            name: "lua".into(),
            pattern: "lua".into(),
            layer: IgnoreLayer::Builtin,
        }
    );
}

#[test]
fn a_passing_gate_directory_exposes_its_child_to_classification() {
    let ig = ignore(&[".DS_Store"]);
    let rule = classify("_darwin/.DS_Store", false, &ig, &gates(), &darwin())
        .expect("a passing gate dir surfaces its children at pack-root level");
    assert_eq!(
        rule,
        SkipRule::Ignored {
            name: ".DS_Store".into(),
            pattern: ".DS_Store".into(),
            layer: IgnoreLayer::Builtin,
        }
    );
}

#[test]
fn a_failing_gate_directory_hides_its_child_from_classification() {
    let ig = ignore(&[".DS_Store"]);
    assert_eq!(
        classify("_darwin/.DS_Store", false, &ig, &gates(), &linux()),
        None
    );
}

#[test]
fn routing_prefixes_are_ordinary_names_and_stop_the_walk() {
    let ig = ignore(&[]);
    assert_eq!(
        classify("_home/.gitconfig", false, &ig, &gates(), &linux()),
        None
    );
}

#[test]
fn dot_config_is_the_hidden_rules_exception() {
    let ig = ignore(&[]);
    assert_eq!(classify(".config", false, &ig, &gates(), &linux()), None);
}

#[test]
fn reserved_wins_over_hidden() {
    let ig = ignore(&[]);
    let rule = classify(".dodot.toml", false, &ig, &gates(), &linux()).unwrap();
    assert!(matches!(rule, SkipRule::Reserved { .. }));
}

#[test]
fn ignore_wins_over_hidden() {
    let ig = ignore(&[".DS_Store"]);
    let rule = classify(".DS_Store", false, &ig, &gates(), &linux()).unwrap();
    assert!(matches!(rule, SkipRule::Ignored { .. }));
}

#[test]
fn an_undefined_gate_directory_is_not_adoptable() {
    let ig = ignore(&[]);
    let rule = classify("_bogus/init.lua", false, &ig, &gates(), &linux())
        .expect("a pack scan fails on an undefined gate directory");
    assert_eq!(
        rule,
        SkipRule::UnknownGate {
            name: "_bogus".into(),
            label: "bogus".into(),
        }
    );
}

#[test]
fn an_undefined_gate_name_on_a_file_is_adoptable() {
    let ig = ignore(&[]);
    assert_eq!(classify("_bogus", false, &ig, &gates(), &linux()), None);
}

#[test]
fn an_undefined_gate_directory_adopted_whole_is_not_adoptable() {
    let ig = ignore(&[]);
    let rule = classify("_bogus", true, &ig, &gates(), &linux())
        .expect("a pack scan fails on an undefined gate directory");
    assert!(matches!(rule, SkipRule::UnknownGate { .. }));
}

#[test]
fn hidden_wins_over_an_undefined_gate_label() {
    let ig = ignore(&[]);
    let rule = classify("._bogus/init.lua", false, &ig, &gates(), &linux()).unwrap();
    assert!(matches!(rule, SkipRule::Hidden { .. }));
}

#[test]
fn a_defined_gate_directory_stays_adoptable() {
    let ig = ignore(&[]);
    assert_eq!(
        classify("_darwin/init.lua", false, &ig, &gates(), &darwin()),
        None
    );
}

#[test]
fn an_inferred_pack_name_the_root_scan_ignores_refuses() {
    let ig = ignore(&["node_modules"]);
    let message = pack_dir_refusal("node_modules", &ig, "/dotfiles")
        .expect("the root scan skips a pack named `node_modules`");
    assert!(
        message.contains("`node_modules` matches `node_modules`"),
        "{message}"
    );
    assert!(message.contains("dodot's default list"), "{message}");
}

#[test]
fn a_hidden_inferred_pack_name_refuses() {
    let ig = ignore(&[]);
    let message = pack_dir_refusal(".foo", &ig, "/dotfiles")
        .expect("the root scan skips a dot-prefixed pack directory");
    assert!(message.contains("starts with"), "{message}");
}

#[test]
fn an_invalid_inferred_pack_name_refuses() {
    let ig = ignore(&[]);
    let message = pack_dir_refusal("has space", &ig, "/dotfiles")
        .expect("the root scan skips a name outside the pack-name grammar");
    assert!(message.contains("letters, digits"), "{message}");
}

#[test]
fn an_empty_stem_inferred_pack_name_refuses() {
    let ig = ignore(&[]);
    let message = pack_dir_refusal("010-", &ig, "/dotfiles")
        .expect("an empty-stem prefix fails every pack scan");
    assert!(message.contains("ordering prefix"), "{message}");
}

#[test]
fn a_discoverable_pack_name_passes() {
    let ig = ignore(&["node_modules"]);
    assert_eq!(pack_dir_refusal("nvim", &ig, "/dotfiles"), None);
    assert_eq!(pack_dir_refusal("010-nvim", &ig, "/dotfiles"), None);
    assert_eq!(pack_dir_refusal(".config", &ig, "/dotfiles"), None);
}

#[test]
fn reserved_below_the_first_component_is_adoptable() {
    let ig = ignore(&[]);
    assert_eq!(
        classify("lua/.dodot.toml", false, &ig, &gates(), &linux()),
        None
    );
}

// ── Beyond the original's cases ───────────────────────────────────

#[test]
fn the_layer_that_set_the_list_is_the_one_named() {
    let pack = Some("[pack]\nignore = [\"x\"]\n");
    let root = Some("[pack]\nignore = []\n");
    assert_eq!(
        EffectiveIgnore::resolve(pack, root, vec![]).layer,
        IgnoreLayer::Pack
    );
    assert_eq!(
        EffectiveIgnore::resolve(Some("[other]\nkey = 1\n"), root, vec![]).layer,
        IgnoreLayer::Root
    );
    assert_eq!(
        EffectiveIgnore::resolve(None, None, vec![]).layer,
        IgnoreLayer::Builtin
    );
    // A file that does not parse sets nothing.
    assert_eq!(
        EffectiveIgnore::resolve(Some("[pack\nignore = "), None, vec![]).layer,
        IgnoreLayer::Builtin
    );
    assert_eq!(EffectiveIgnore::root(root, vec![]).layer, IgnoreLayer::Root);
    assert_eq!(EffectiveIgnore::root(None, vec![]).layer, IgnoreLayer::Builtin);
}

#[test]
fn describe_names_each_layer() {
    assert_eq!(IgnoreLayer::Builtin.describe("vim"), "dodot's default list");
    assert_eq!(IgnoreLayer::Root.describe("vim"), "the root .dodot.toml");
    assert_eq!(IgnoreLayer::Pack.describe("vim"), "pack vim's .dodot.toml");
}

#[test]
fn skip_rule_phrases_are_exact() {
    let ignored = SkipRule::Ignored {
        name: "lua".into(),
        pattern: "l*".into(),
        layer: IgnoreLayer::Root,
    };
    assert_eq!(ignored.short("nvim"), "[pack] ignore `l*` (the root .dodot.toml)");
    assert_eq!(
        ignored.reported("nvim"),
        "matches `l*` in [pack] ignore (the root .dodot.toml)"
    );
    let reserved = SkipRule::Reserved { name: ".dodotignore".into() };
    assert_eq!(reserved.short("p"), "`.dodotignore` is dodot's own");
    let gate = SkipRule::UnknownGate { name: "_x".into(), label: "x".into() };
    assert_eq!(gate.short("p"), "undefined gate label `x`");
    assert!(gate
        .refusal("/home/u/.config/p/_x", "_x", "p")
        .contains("Define `x` under [gates] in .dodot.toml"));
    let hidden = SkipRule::Hidden { name: ".env".into() };
    assert_eq!(
        hidden.refusal("/s", ".env", "p"),
        "refusing to adopt /s: it would land at `.env` in pack p, and a pack's top-level scan skips names starting with `.` (except .config), so no dodot run would read `.env`. No config setting changes that."
    );
}

#[test]
fn reserved_refusals_say_what_the_name_is_for() {
    let toml = SkipRule::Reserved { name: ".dodot.toml".into() };
    assert!(toml.refusal("/s", ".dodot.toml", "p").contains("pack configuration file"));
    let marker = SkipRule::Reserved { name: ".dodotignore".into() };
    assert!(marker.refusal("/s", ".dodotignore", "p").contains("hides a pack"));
}
