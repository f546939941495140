use wasupdate::download::download_file_name;
use wasupdate::fsmodel::plain_file_steps;
use wasupdate::fsmodel::unroll_plan;
use wasupdate::fsmodel::ReplaceStep;
use wasupdate::fsmodel::UnrollOp;
use wasupdate::install::download_install_archive;
use wasupdate::install::ArchivePlan;
use wasupdate::orchestrator::resolve_update;
use wasupdate::orchestrator::should_install;
use wasupdate::orchestrator::UpdateAction;
use wasupdate::script::Script;
use wasupdate::script::WasaupEngine;
use wasupdate::version::parse_version;

#[test]
fn download_name_comes_from_the_url() {
    assert_eq!(
        download_file_name("https://example.com/releases/tool-2.0.0.zip", None),
        "tool-2.0.0.zip"
    );
}

#[test]
fn download_name_prefers_the_header() {
    assert_eq!(
        download_file_name(
            "https://example.com/releases/latest",
            Some("attachment; filename=\"tool-2.0.0.tar.gz\"")
        ),
        "tool-2.0.0.tar.gz"
    );
}

#[test]
fn download_name_falls_back_when_the_header_has_no_name() {
    assert_eq!(
        download_file_name("https://example.com/a/b.tar", Some("attachment")),
        "b.tar"
    );
}

#[test]
fn download_name_stops_at_the_second_equals_sign() {
    assert_eq!(
        download_file_name("https://example.com/x", Some("filename=a=b")),
        "a"
    );
}

#[test]
fn downloaded_archive_gets_a_plan_for_its_saved_name() {
    let (saved, plan) =
        download_install_archive("https://example.com/tool-2.0.0.zip", None).unwrap();
    assert_eq!(saved, "tool-2.0.0.zip");
    match plan {
        ArchivePlan::Zip { unroll_dir } => assert_eq!(unroll_dir, "tool-2.0.0"),
        other => panic!("wrong plan: {:?}", other),
    }
}

#[test]
fn unroll_plan_moves_the_only_child_and_drops_the_wrapper() {
    let ops = unroll_plan(&vec!["a.txt".to_string()]);
    assert_eq!(ops.len(), 3);
    assert!(matches!(&ops[0], UnrollOp::RemoveExisting { name } if name == "a.txt"));
    assert!(matches!(&ops[1], UnrollOp::MoveUp { name } if name == "a.txt"));
    assert!(matches!(&ops[2], UnrollOp::RemoveWrapper));
}

#[test]
fn unroll_plan_of_a_missing_directory_is_nothing_but_the_wrapper_removal() {
    // a path that is not a directory has no children to move; the caller
    // performs no steps at all, which is the no-op success
    let ops = unroll_plan(&Vec::new());
    assert_eq!(ops.len(), 1);
    assert!(matches!(&ops[0], UnrollOp::RemoveWrapper));
}

#[test]
fn plain_file_replacement_removes_first() {
    assert_eq!(
        plain_file_steps(true),
        vec![ReplaceStep::RemoveExisting, ReplaceStep::CopyFile]
    );
    assert_eq!(plain_file_steps(false), vec![ReplaceStep::CopyFile]);
}

#[test]
fn equal_versions_mean_no_install() {
    let script = Script::Inline(
        "fn current_version() { return \"1.0.0\"; }\nfn latest_version() { return \"1.0.0\"; }\nfn install_version(version) { return \"path/to/archive-\" + version + \".tar.gz\"; }".to_string(),
    );
    let engine = WasaupEngine::new(script).unwrap();
    let outcome = resolve_update(&engine).unwrap();
    assert!(matches!(outcome.action, UpdateAction::UpToDate));
}

#[test]
fn newer_version_means_install_from_the_scripted_location() {
    let script = Script::Inline(
        "fn current_version() { return \"1.0.0\"; }\nfn latest_version() { return \"1.0.1\"; }\nfn install_version(version) { return \"path/to/archive-\" + version + \".tar.gz\"; }".to_string(),
    );
    let engine = WasaupEngine::new(script).unwrap();
    let outcome = resolve_update(&engine).unwrap();
    match outcome.action {
        UpdateAction::Install { location } => {
            assert_eq!(location, "path/to/archive-1.0.1.tar.gz")
        }
        other => panic!("wrong action: {:?}", other),
    }
}

#[test]
fn should_install_compares_structurally() {
    let a = parse_version("1.0.0").unwrap();
    let b = parse_version("1.0.1").unwrap();
    let c = parse_version("1.0.0").unwrap();
    assert!(should_install(&a, &b));
    assert!(!should_install(&a, &c));
}

#[test]
fn round_trip_after_install_reports_up_to_date() {
    // the policy leg of a round trip: resolving at 1.0.0/1.2.3 asks for an
    // install from the scripted location; a script that then reports 1.2.3 as
    // current resolves to up to date
    let before = Script::Inline(
        "fn current_version() { return \"1.0.0\"; }\nfn latest_version() { return \"1.2.3\"; }\nfn install_version(version) { return \"path/to/archive-\" + version + \".tar.gz\"; }".to_string(),
    );
    let engine = WasaupEngine::new(before).unwrap();
    let outcome = resolve_update(&engine).unwrap();
    let location = match outcome.action {
        UpdateAction::Install { location } => location,
        other => panic!("wrong action: {:?}", other),
    };
    assert_eq!(location, "path/to/archive-1.2.3.tar.gz");
    match wasupdate::install::install_archive(&location).unwrap() {
        ArchivePlan::TarGz { unroll_dir } => assert_eq!(unroll_dir, "archive-1.2.3"),
        other => panic!("wrong plan: {:?}", other),
    }
    let after = Script::Inline(
        "fn current_version() { return \"1.2.3\"; }\nfn latest_version() { return \"1.2.3\"; }\nfn install_version(version) { return \"path/to/archive-\" + version + \".tar.gz\"; }".to_string(),
    );
    let engine = WasaupEngine::new(after).unwrap();
    let outcome = resolve_update(&engine).unwrap();
    assert!(matches!(outcome.action, UpdateAction::UpToDate));
}

#[test]
fn jq_finds_a_nested_number() {
    let out = wasupdate::jq::jq("{\"release\": {\"build\": 42}}", "release.build").unwrap();
    assert_eq!(out, "42");
}

#[test]
fn jq_reports_a_bad_query() {
    let e = wasupdate::jq::jq("{}", "][").err().unwrap();
    assert!(e.starts_with("Failed to compile JMESPath query: ][, error: "));
}

#[test]
fn jq_reports_bad_json() {
    let e = wasupdate::jq::jq("{not json", "a").err().unwrap();
    assert!(e.starts_with("Failed to convert JSON string to variable: "));
}

#[test]
fn resolve_update_reports_the_failing_step() {
    let script = Script::Inline(
        "fn current_version() { return \"nope\"; }\nfn latest_version() { return \"1.0.0\"; }\nfn install_version(version) { return version; }".to_string(),
    );
    let engine = WasaupEngine::new(script).unwrap();
    let e = resolve_update(&engine).err().unwrap();
    let msg = e.message();
    assert!(msg.starts_with("Runtime error: Failed to parse 'nope' as current version: "));
}
