use dodot::infer::{
    derive_home_in_pack, infer_target, is_gui_app_folder, InferenceError, InferredTarget,
    SourceRoot,
};

/// HOME and XDG at distinct paths, Application Support under HOME (the
/// macOS layout), on a non-macOS host.
fn infer(src: &str, is_dir: bool, force: &[String]) -> Result<InferredTarget, InferenceError> {
    infer_target(src, is_dir, "/u", "/x", "/u/Library/Application Support", force, false)
}

fn infer_mac(src: &str, is_dir: bool) -> Result<InferredTarget, InferenceError> {
    infer_target(src, is_dir, "/u", "/x", "/u/Library/Application Support", &[], true)
}

#[test]
fn xdg_nested_file_infers_pack_and_relative_path() {
    let t = infer("/x/nvim/init.lua", false, &[]).unwrap();
    assert_eq!(t.natural_pack.as_deref(), Some("nvim"));
    assert_eq!(t.in_pack_natural, "init.lua");
    assert_eq!(t.in_pack_override, "_xdg/nvim/init.lua");
    assert_eq!(t.source_root, SourceRoot::XdgConfig);
    assert!(!t.expand_children);
}

#[test]
fn xdg_deeply_nested_file_keeps_full_subpath() {
    let t = infer("/x/nvim/lua/plugins/foo.lua", false, &[]).unwrap();
    assert_eq!(t.natural_pack.as_deref(), Some("nvim"));
    assert_eq!(t.in_pack_natural, "lua/plugins/foo.lua");
    assert_eq!(t.in_pack_override, "_xdg/nvim/lua/plugins/foo.lua");
}

#[test]
fn xdg_pack_root_directory_triggers_expansion() {
    let t = infer("/x/nvim", true, &[]).unwrap();
    assert_eq!(t.natural_pack.as_deref(), Some("nvim"));
    assert!(t.expand_children);
    assert_eq!(t.in_pack_natural, "");
}

#[test]
fn xdg_loose_file_at_root_is_refused() {
    let err = infer("/x/standalone.toml", false, &[]).unwrap_err();
    assert!(matches!(err, InferenceError::LooseXdgFile));
}

#[test]
fn xdg_root_itself_is_refused() {
    let err = infer("/x", true, &[]).unwrap_err();
    assert!(matches!(err, InferenceError::XdgRootItself));
}

#[test]
fn home_dotted_file_uses_home_prefix_no_pack_inference() {
    let t = infer("/u/.vimrc", false, &[]).unwrap();
    assert_eq!(t.natural_pack, None);
    assert_eq!(t.in_pack_natural, "home.vimrc");
    assert_eq!(t.in_pack_override, "home.vimrc");
    assert_eq!(t.source_root, SourceRoot::Home);
}

#[test]
fn home_dotted_dir_uses_home_subtree_prefix() {
    let t = infer("/u/.weechat", true, &[]).unwrap();
    assert_eq!(t.natural_pack, None);
    assert_eq!(t.in_pack_natural, "_home/weechat");
}

#[test]
fn home_force_home_uses_bare_name() {
    let force = vec!["bashrc".to_string(), "ssh".to_string()];
    let t = infer("/u/.bashrc", false, &force).unwrap();
    assert_eq!(t.in_pack_natural, "bashrc");
    let t = infer("/u/.ssh", true, &force).unwrap();
    assert_eq!(t.in_pack_natural, "ssh");
}

#[test]
fn home_non_dotted_is_refused() {
    let err = infer("/u/myscript.sh", false, &[]).unwrap_err();
    match err {
        InferenceError::NonDottedHome { stripped } => assert_eq!(stripped, "myscript.sh"),
        other => panic!("expected NonDottedHome, got {other:?}"),
    }
}

#[test]
fn home_nested_outside_xdg_is_unrecognized() {
    let err = infer("/u/Documents/notes.txt", false, &[]).unwrap_err();
    assert!(matches!(err, InferenceError::UnrecognizedRoot { .. }));
}

#[test]
fn home_root_itself_is_refused() {
    let err = infer("/u", true, &[]).unwrap_err();
    assert!(matches!(err, InferenceError::HomeRootItself));
}

#[test]
fn xdg_inside_home_prefers_xdg_root() {
    let t = infer_target(
        "/u/.config/nvim/init.lua",
        false,
        "/u",
        "/u/.config",
        "/u/Library/Application Support",
        &[],
        false,
    )
    .unwrap();
    assert_eq!(t.source_root, SourceRoot::XdgConfig);
    assert_eq!(t.natural_pack.as_deref(), Some("nvim"));
    assert_eq!(t.in_pack_natural, "init.lua");
}

#[test]
fn unrecognized_root_lists_known_roots() {
    let err = infer("/etc/passwd", false, &[]).unwrap_err();
    match err {
        InferenceError::UnrecognizedRoot { hint_roots } => {
            assert!(hint_roots.iter().any(|r| r.starts_with("/x")));
            assert!(hint_roots.iter().any(|r| r.starts_with("/u")));
        }
        other => panic!("expected UnrecognizedRoot, got {other:?}"),
    }
}

#[test]
fn app_support_nested_file_uses_app_prefix() {
    let t = infer(
        "/u/Library/Application Support/Code/User/settings.json",
        false,
        &[],
    )
    .unwrap();
    assert_eq!(t.natural_pack.as_deref(), Some("Code"));
    assert_eq!(t.in_pack_natural, "_app/Code/User/settings.json");
    assert_eq!(t.in_pack_override, "_app/Code/User/settings.json");
    assert_eq!(t.source_root, SourceRoot::AppSupport);
    assert!(!t.expand_children);
}

#[test]
fn app_support_pack_root_directory_triggers_expansion() {
    let t = infer("/u/Library/Application Support/Cursor", true, &[]).unwrap();
    assert_eq!(t.natural_pack.as_deref(), Some("Cursor"));
    assert!(t.expand_children);
    assert_eq!(t.in_pack_override, "_app/Cursor");
}

#[test]
fn app_support_outranks_home_when_distinct_root() {
    let t = infer(
        "/u/Library/Application Support/Zed/settings.json",
        false,
        &[],
    )
    .unwrap();
    assert_eq!(t.source_root, SourceRoot::AppSupport);
    assert_eq!(t.natural_pack.as_deref(), Some("Zed"));
}

#[test]
fn app_support_collapsed_falls_back_to_lib_or_unrecognized() {
    let src = "/u/Library/Application Support/Code/User/settings.json";
    // On macOS the Library recognizer catches the path.
    let t = infer_target(src, false, "/u", "/x", "/x", &[], true).expect("inference");
    assert_eq!(t.source_root, SourceRoot::Library);
    assert_eq!(t.in_pack_natural, "_lib/Application Support/Code/User/settings.json");
    // Elsewhere it is refused.
    let err = infer_target(src, false, "/u", "/x", "/x", &[], false).unwrap_err();
    assert!(matches!(err, InferenceError::UnrecognizedRoot { .. }));
}

#[test]
fn gui_app_heuristic_uppercase_yes() {
    assert!(is_gui_app_folder("Code"));
    assert!(is_gui_app_folder("Cursor"));
    assert!(is_gui_app_folder("IntelliJ"));
    assert!(is_gui_app_folder("Visual Studio Code"));
}

#[test]
fn gui_app_heuristic_space_yes() {
    assert!(is_gui_app_folder("sublime text"));
    assert!(is_gui_app_folder("smart code ltd"));
}

#[test]
fn gui_app_heuristic_reverse_dns_yes() {
    assert!(is_gui_app_folder("dev.warp.warp-stable"));
    assert!(is_gui_app_folder("com.apple.dt.xcode"));
    assert!(is_gui_app_folder("org.videolan.vlc"));
}

#[test]
fn gui_app_heuristic_lowercase_cli_tool_no() {
    assert!(!is_gui_app_folder("nvim"));
    assert!(!is_gui_app_folder("helix"));
    assert!(!is_gui_app_folder("ghostty"));
    assert!(!is_gui_app_folder("lazygit"));
    assert!(!is_gui_app_folder("starship"));
}

#[test]
fn gui_app_heuristic_empty_name_no() {
    assert!(!is_gui_app_folder(""));
}

#[test]
fn gui_app_heuristic_dotted_but_empty_segment_no() {
    assert!(!is_gui_app_folder(".bashrc"));
    assert!(!is_gui_app_folder("foo..bar"));
    assert!(!is_gui_app_folder("trailing."));
}

#[test]
fn library_preferences_plist_uses_lib_prefix_and_requires_into() {
    let t = infer_mac("/u/Library/Preferences/com.colliderli.iina.plist", false).expect("inference");
    assert_eq!(t.source_root, SourceRoot::Library);
    assert_eq!(t.natural_pack, None, "Library sources require --into");
    assert_eq!(t.in_pack_natural, "_lib/Preferences/com.colliderli.iina.plist");
    assert_eq!(t.in_pack_natural, t.in_pack_override);
    assert!(!t.expand_children);
}

#[test]
fn library_launch_agents_routes_through_lib_prefix() {
    let t = infer_mac("/u/Library/LaunchAgents/com.example.foo.plist", false).expect("inference");
    assert_eq!(t.source_root, SourceRoot::Library);
    assert_eq!(t.in_pack_natural, "_lib/LaunchAgents/com.example.foo.plist");
}

#[test]
fn library_subdirectory_top_level_expands_children() {
    let t = infer_mac("/u/Library/LaunchAgents", true).expect("inference");
    assert!(t.expand_children);
    assert_eq!(t.in_pack_natural, "_lib/LaunchAgents");
}

#[test]
fn library_root_itself_is_refused() {
    let err = infer_mac("/u/Library", true).unwrap_err();
    assert!(matches!(err, InferenceError::LibraryRootItself));
}

#[test]
fn library_application_support_still_routes_through_app_support() {
    let t = infer_mac("/u/Library/Application Support/Code/User/settings.json", false)
        .expect("inference");
    assert_eq!(t.source_root, SourceRoot::AppSupport);
    assert!(t.in_pack_natural.starts_with("_app"));
}

#[test]
fn macos_containers_path_is_refused() {
    let err = infer(
        "/u/Library/Containers/com.example.app/Data/Library/Preferences/foo.plist",
        false,
        &[],
    )
    .unwrap_err();
    assert!(matches!(err, InferenceError::SandboxedContainer));
}

// ── Beyond the original's cases ───────────────────────────────────

#[test]
fn library_is_not_recognised_off_macos() {
    let err = infer("/u/Library/Preferences/foo.plist", false, &[]).unwrap_err();
    assert!(matches!(err, InferenceError::UnrecognizedRoot { .. }));
}

#[test]
fn derive_home_names_follow_the_round_trip_conventions() {
    assert_eq!(derive_home_in_pack(".vimrc", false, &[]), Ok("home.vimrc".to_string()));
    assert_eq!(derive_home_in_pack(".weechat", true, &[]), Ok("_home/weechat".to_string()));
    assert_eq!(
        derive_home_in_pack(".bashrc", false, &[".bashrc".to_string()]),
        Ok("bashrc".to_string())
    );
    let err = derive_home_in_pack("notes", false, &[]).unwrap_err();
    assert!(err.contains("(e.g. .notes)"), "{err}");
}

#[test]
fn inference_messages_are_exact() {
    assert_eq!(
        InferenceError::HomeRootItself.message(),
        "$HOME itself is too broad to adopt."
    );
    let e = InferenceError::UnrecognizedRoot {
        hint_roots: vec!["/x".to_string(), "/u".to_string()],
    };
    assert_eq!(
        e.message(),
        "source is outside any recognized adopt root (expected under one of: /x, /u). Move the file under one of these locations first, or copy it into a pack manually and use `[symlink.targets]` for an absolute deploy path."
    );
    let n = InferenceError::NonDottedHome { stripped: "notes".into() };
    assert!(n.message().contains("(e.g. .notes)"));
}
