use cargo_verctl::manifest::{
    answer_policy, describe_manifest, handle_single, resolve_policy, Args, Outcome, VerctlError,
};
use cargo_verctl::version::{bump_version, parse_version, segment_number, BumpKind, Version};
use cargo_verctl::workspace::{
    handle_workspace_default, is_workspace, list_versions, member_dir_name, workspace_members,
    workspace_targets, ManifestFile,
};

const WS_ROOT: &str = "tests/workspaces/simple/Cargo.toml";
const CRATE_ROOT: &str = "tests/crates/simple/Cargo.toml";

fn file(path: &str, text: &str) -> ManifestFile {
    ManifestFile { path: path.to_string(), text: text.to_string() }
}

fn simple_workspace() -> Vec<ManifestFile> {
    vec![
        file(WS_ROOT, "[workspace]\nmembers = [\"a\", \"b\"]\n"),
        file(
            "tests/workspaces/simple/a/Cargo.toml",
            "[package]\nname = \"a\"\nversion = \"0.1.0\"\n",
        ),
        file(
            "tests/workspaces/simple/b/Cargo.toml",
            "[package]\nname = \"b\"\nversion = \"1.2.3\"\n",
        ),
    ]
}

fn simple_crate() -> Vec<ManifestFile> {
    vec![file(
        CRATE_ROOT,
        "[package]\nname = \"simple\"\nversion = \"0.3.0\"\nedition = \"2021\"\n",
    )]
}

fn written(r: Result<Outcome, VerctlError>) -> (String, String) {
    match r {
        Ok(Outcome::Write { text, version }) => (text, version),
        other => panic!("expected a write, got {:?}", other),
    }
}

#[test]
fn test_list_versions_workspace() {
    let got = list_versions(WS_ROOT, &simple_workspace()).unwrap();
    assert_eq!(
        got,
        vec![
            ("a".to_string(), "0.1.0".to_string()),
            ("b".to_string(), "1.2.3".to_string())
        ]
    );
}

#[test]
fn test_list_versions_single() {
    let got = list_versions(CRATE_ROOT, &simple_crate()).unwrap();
    assert_eq!(got, vec![("simple".to_string(), "0.3.0".to_string())]);
}

#[test]
fn test_is_workspace_workspace() {
    assert_eq!(is_workspace(WS_ROOT, &simple_workspace()).unwrap(), true);
}

#[test]
fn test_is_workspace_single() {
    assert_eq!(is_workspace(CRATE_ROOT, &simple_crate()).unwrap(), false);
}

#[test]
fn test_handle_workspace_all_members() {
    let mut args = Args::default();
    args.file = WS_ROOT.to_string();
    args.bump = Some(BumpKind::Keep);
    let handled = handle_workspace_default(&args, WS_ROOT, &simple_workspace()).unwrap();
    assert_eq!(handled.len(), 2);
    assert_eq!(handled[0].outcome, Outcome::Keep { version: "0.1.0".to_string() });
    assert_eq!(handled[1].outcome, Outcome::Keep { version: "1.2.3".to_string() });
}

#[test]
fn test_handle_workspace_filtered_member() {
    let mut args = Args::default();
    args.file = WS_ROOT.to_string();
    args.only = Some("a".to_string());
    args.bump = Some(BumpKind::Keep);
    println!("handle_workspace filtered to {:?}", args.only);
    let handled = handle_workspace_default(&args, WS_ROOT, &simple_workspace()).unwrap();
    println!("handle_workspace completed for {:?}", args.only);
    assert_eq!(handled.len(), 1);
    assert_eq!(handled[0].path, "tests/workspaces/simple/a/Cargo.toml");
}

#[test]
fn test_handle_workspace_with_mock() {
    let mut args = Args::default();
    args.file = WS_ROOT.to_string();
    args.bump = Some(BumpKind::Keep);
    let targets = workspace_targets(&args, WS_ROOT, &simple_workspace()).unwrap();
    let got: Vec<String> = targets.iter().map(|p| member_dir_name(p)).collect();
    assert_eq!(got.len(), 2, "Expected two members to be handled");
    assert!(got.contains(&"a".to_string()));
    assert!(got.contains(&"b".to_string()));
}

#[test]
fn test_handle_workspace_with_filter_mock() {
    let mut args = Args::default();
    args.file = WS_ROOT.to_string();
    args.only = Some("a".to_string());
    args.bump = Some(BumpKind::Keep);
    let targets = workspace_targets(&args, WS_ROOT, &simple_workspace()).unwrap();
    let got: Vec<String> = targets.iter().map(|p| member_dir_name(p)).collect();
    assert_eq!(got.len(), 1, "Expected only one filtered member");
    assert_eq!(got[0], "a");
}

#[test]
fn test_workspace_members_missing_file() {
    let result = workspace_members("tests/workspaces/does_not_exist/Cargo.toml", &simple_workspace());
    assert_eq!(result, Err(VerctlError::NotFound));
}

#[test]
fn test_workspace_members_invalid_toml() {
    let files = vec![file(
        "tests/tmp_invalid_ws/Cargo.toml",
        "[workspace]\nthis_is_invalid_toml = [",
    )];
    let result = workspace_members("tests/tmp_invalid_ws/Cargo.toml", &files);
    assert_eq!(result, Err(VerctlError::Parse));
}

#[test]
fn test_handle_workspace_with_missing_members() {
    let files = vec![file(
        "tests/tmp_ws_missing/Cargo.toml",
        "\n        [workspace]\n        members = [\"does_not_exist\"]\n        ",
    )];
    let mut args = Args::default();
    args.file = "tests/tmp_ws_missing/Cargo.toml".to_string();
    args.bump = Some(BumpKind::Keep);
    let result = handle_workspace_default(&args, "tests/tmp_ws_missing/Cargo.toml", &files);
    assert!(result.is_ok(), "Expected graceful handling of missing members, got: {:?}", result);
    assert_eq!(result.unwrap().len(), 0);
}

#[test]
fn test_handle_single_sets_version() {
    let text = "\n        [package]\n        name = \"example\"\n        version = \"0.1.0\"\n    ";
    let mut args = Args::default();
    args.bump = Some(BumpKind::Keep);
    args.set = Some("1.2.3".to_string());
    let (updated, version) = written(handle_single(&args, text, None));
    assert_eq!(version, "1.2.3");
    assert!(updated.contains("version = \"1.2.3\""), "Version should be updated to 1.2.3");
    assert!(updated.contains("name = \"example\""));
}

#[test]
fn test_handle_single_bumps_patch_version() {
    let text = "\n        [package]\n        name = \"example\"\n        version = \"0.1.0\"\n    ";
    let mut args = Args::default();
    args.bump = Some(BumpKind::Patch);
    let (updated, _) = written(handle_single(&args, text, None));
    assert!(updated.contains("version = \"0.1.1\""), "Expected version bump to 0.1.1");
}

#[test]
fn test_handle_single_invalid_toml() {
    let mut args = Args::default();
    args.bump = Some(BumpKind::Keep);
    args.set = Some("1.0.0".to_string());
    let result = handle_single(&args, "[package]\nversion = ", None);
    assert_eq!(result, Err(VerctlError::Parse), "Expected error for invalid TOML structure");
}

#[test]
fn test_handle_single_missing_package_section() {
    let mut args = Args::default();
    args.bump = Some(BumpKind::Keep);
    args.set = Some("2.0.0".to_string());
    let result = handle_single(&args, "\n        [workspace]\n        members = [\"a\"]\n    ", None);
    println!("handle_single result: {:?}", result);
    assert_eq!(result, Err(VerctlError::MissingSection));
}

#[test]
fn test_handle_single() {
    let files = simple_crate();
    let mut args = Args::default();
    args.file = CRATE_ROOT.to_string();
    args.bump = Some(BumpKind::Keep);
    args.set = Some("2.0.0".to_string());
    let result = handle_single(&args, &files[0].text, None);
    assert!(result.is_ok(), "Expected handle_single to succeed");
    let (updated, _) = written(result);
    assert!(updated.contains("version = \"2.0.0\""));
}

#[test]
fn bump_patch_scenario() {
    let args = Args { bump: Some(BumpKind::Patch), ..Args::default() };
    let (text, version) = written(handle_single(&args, "[package]\nversion = \"0.1.0\"\n", None));
    assert_eq!(version, "0.1.1");
    assert_eq!(text, "[package]\nversion = \"0.1.1\"\n");
}

#[test]
fn bump_major_scenario() {
    let args = Args { bump: Some(BumpKind::Major), ..Args::default() };
    let (text, version) = written(handle_single(&args, "[package]\nversion = \"1.2.3\"\n", None));
    assert_eq!(version, "2.0.0");
    assert!(text.contains("version = \"2.0.0\""));
}

#[test]
fn keep_without_version_writes_default() {
    let args = Args { bump: Some(BumpKind::Keep), ..Args::default() };
    let (text, version) = written(handle_single(&args, "[package]\nname = \"x\"\n", None));
    assert_eq!(version, "0.1.0");
    assert!(text.contains("version = \"0.1.0\""));
    assert!(text.contains("name = \"x\""));
}

#[test]
fn keep_with_version_writes_nothing() {
    let args = Args { bump: Some(BumpKind::Keep), ..Args::default() };
    let r = handle_single(&args, "# note\n[package]\nversion = \"3.4.5\" # kept\n", None);
    assert_eq!(r, Ok(Outcome::Keep { version: "3.4.5".to_string() }));
}

#[test]
fn set_wins_over_bump() {
    let args = Args {
        bump: Some(BumpKind::Major),
        auto: true,
        set: Some("9.9.9".to_string()),
        ..Args::default()
    };
    let (text, version) = written(handle_single(&args, "[package]\nversion = \"0.1.0\"\n", None));
    assert_eq!(version, "9.9.9");
    assert!(text.contains("version = \"9.9.9\""));
}

#[test]
fn set_is_stored_verbatim() {
    let args = Args { set: Some("not-a-version".to_string()), ..Args::default() };
    let (_, version) = written(handle_single(&args, "[package]\n", None));
    assert_eq!(version, "not-a-version");
}

#[test]
fn missing_package_is_reported_for_bumps_too() {
    let args = Args { bump: Some(BumpKind::Patch), ..Args::default() };
    let r = handle_single(&args, "package = \"x\"\n", None);
    assert_eq!(r, Err(VerctlError::MissingSection));
}

#[test]
fn inline_package_table_is_updated() {
    let args = Args { bump: Some(BumpKind::Minor), ..Args::default() };
    let (text, version) =
        written(handle_single(&args, "package = { name = \"x\", version = \"1.2.3\" }\n", None));
    assert_eq!(version, "1.3.0");
    assert!(text.contains("1.3.0"));
}

#[test]
fn no_policy_asks_then_uses_answer() {
    let args = Args::default();
    let text = "[package]\nversion = \"1.2.3\"\n";
    assert_eq!(handle_single(&args, text, None), Ok(Outcome::Ask));
    let (_, version) = written(handle_single(&args, text, Some(BumpKind::Minor)));
    assert_eq!(version, "1.3.0");
}

#[test]
fn auto_means_patch() {
    let args = Args { auto: true, ..Args::default() };
    assert_eq!(resolve_policy(&args, None), Some(BumpKind::Patch));
    let args = Args { auto: true, bump: Some(BumpKind::Major), ..Args::default() };
    assert_eq!(resolve_policy(&args, Some(BumpKind::Minor)), Some(BumpKind::Major));
    assert_eq!(resolve_policy(&Args::default(), Some(BumpKind::Keep)), Some(BumpKind::Keep));
    assert_eq!(resolve_policy(&Args::default(), None), None);
}

#[test]
fn prompt_answers() {
    assert_eq!(answer_policy(" Major\n"), BumpKind::Major);
    assert_eq!(answer_policy("minor\n"), BumpKind::Minor);
    assert_eq!(answer_policy("NONE"), BumpKind::Keep);
    assert_eq!(answer_policy("patch"), BumpKind::Patch);
    assert_eq!(answer_policy("\n"), BumpKind::Patch);
    assert_eq!(answer_policy("majorly"), BumpKind::Patch);
}

#[test]
fn bump_rules() {
    assert_eq!(bump_version("1.2.3", &BumpKind::Major), "2.0.0");
    assert_eq!(bump_version("1.2.3", &BumpKind::Minor), "1.3.0");
    assert_eq!(bump_version("1.2.3", &BumpKind::Patch), "1.2.4");
    assert_eq!(bump_version("1.2.3", &BumpKind::Keep), "1.2.3");
}

#[test]
fn lenient_parsing() {
    assert_eq!(parse_version(""), Version { major: 0, minor: 0, patch: 0 });
    assert_eq!(parse_version("7"), Version { major: 7, minor: 0, patch: 0 });
    assert_eq!(parse_version("1.x.3"), Version { major: 1, minor: 0, patch: 3 });
    assert_eq!(parse_version("1.2.3.4"), Version { major: 1, minor: 2, patch: 3 });
    assert_eq!(parse_version("+4..-1"), Version { major: 4, minor: 0, patch: 0 });
    assert_eq!(bump_version("abc", &BumpKind::Patch), "0.0.1");
    assert_eq!(bump_version("1.2.3-beta", &BumpKind::Keep), "1.2.0");
    assert_eq!(bump_version("007.010.000", &BumpKind::Keep), "7.10.0");
}

#[test]
fn segment_limits() {
    assert_eq!(segment_number("4294967295"), 4294967295);
    assert_eq!(segment_number("4294967296"), 0);
    assert_eq!(segment_number("+12"), 12);
    assert_eq!(segment_number("+"), 0);
    assert_eq!(segment_number(" 1"), 0);
    assert_eq!(bump_version("4294967295.5.5", &BumpKind::Major), "4294967296.0.0");
}

#[test]
fn format_round_trip() {
    let v = Version { major: 12, minor: 0, patch: 305 };
    assert_eq!(v.format(), "12.0.305");
    assert_eq!(parse_version(&v.format()), v);
    assert_eq!(v.bumped(BumpKind::Minor).format(), "12.1.0");
}

#[test]
fn workspace_with_one_missing_member() {
    let files = vec![
        file("ws/Cargo.toml", "[workspace]\nmembers = [\"a\", \"b\"]\n"),
        file("ws/a/Cargo.toml", "[package]\nname = \"a\"\nversion = \"0.1.0\"\n"),
    ];
    let args = Args { bump: Some(BumpKind::Patch), ..Args::default() };
    let members = workspace_members("ws/Cargo.toml", &files).unwrap();
    assert_eq!(members, vec!["ws/a/Cargo.toml".to_string()]);
    let handled = handle_workspace_default(&args, "ws/Cargo.toml", &files).unwrap();
    assert_eq!(handled.len(), 1);
    assert_eq!(handled[0].path, "ws/a/Cargo.toml");
    match &handled[0].outcome {
        Outcome::Write { version, .. } => assert_eq!(version, "0.1.1"),
        other => panic!("unexpected {:?}", other),
    }
}

#[test]
fn workspace_stops_at_first_failure() {
    let files = vec![
        file("ws/Cargo.toml", "[workspace]\nmembers = [\"a\", \"b\", 3]\n"),
        file("ws/a/Cargo.toml", "[workspace]\n"),
        file("ws/b/Cargo.toml", "not toml ["),
    ];
    let args = Args { bump: Some(BumpKind::Patch), ..Args::default() };
    let r = handle_workspace_default(&args, "ws/Cargo.toml", &files);
    assert_eq!(r.unwrap_err(), VerctlError::MissingSection);
    let only_b = Args { only: Some("b".to_string()), ..args };
    let r = handle_workspace_default(&only_b, "ws/Cargo.toml", &files);
    assert_eq!(r.unwrap_err(), VerctlError::Parse);
}

#[test]
fn workspace_without_members_array() {
    let files = vec![file("ws/Cargo.toml", "[workspace]\nresolver = \"2\"\n")];
    assert_eq!(workspace_members("ws/Cargo.toml", &files), Ok(vec![]));
}

#[test]
fn describe_defaults() {
    assert_eq!(
        describe_manifest("[package]\n").unwrap(),
        ("unknown".to_string(), "missing".to_string())
    );
    assert_eq!(describe_manifest("x = ").unwrap_err(), VerctlError::Parse);
}

#[test]
fn nested_member_dir_name() {
    assert_eq!(member_dir_name("ws/crates/core/Cargo.toml"), "core");
    assert_eq!(member_dir_name("Cargo.toml"), "");
}
