use wasupdate::script::Script;
use wasupdate::script::WasaupEngine;
use wasupdate::version::to_version_string;

const CURRENT_VERSION_FN: &str = "current_version";
const LATEST_VERSION_FN: &str = "latest_version";
const INSTALL_VERSION_FN: &str = "install_version";

const TEST_LATEST_VERSION: &str = r#"
        fn latest_version() {
            return "1.0.0";
        }"#;
const TEST_CURRENT_VERSION: &str = r#"
        fn current_version() {
            return "0.9.0";
        }"#;
const TEST_INSTALL_VERSION: &str = r#"
        fn install_version(version) {
            return "path/to/archive-" + version + ".tar.gz";
        }"#;

#[test]
fn test_new_engine_missing_func_current() {
    let inline_script = format!("{}\n{}", TEST_LATEST_VERSION, TEST_INSTALL_VERSION);
    let script = Script::Inline(inline_script);
    let engine_error = WasaupEngine::new(script).err().unwrap();
    assert_eq!(
        engine_error.message(),
        format!("Runtime error: Function '{CURRENT_VERSION_FN}' is required but not found")
    );
}

#[test]
fn test_new_engine_missing_func_latest() {
    let inline_script = format!("{}\n{}", TEST_CURRENT_VERSION, TEST_INSTALL_VERSION);
    let script = Script::Inline(inline_script);
    let engine_error = WasaupEngine::new(script).err().unwrap();
    assert_eq!(
        engine_error.message(),
        format!("Runtime error: Function '{LATEST_VERSION_FN}' is required but not found")
    );
}

#[test]
fn test_new_engine_missing_func_install() {
    let inline_script = format!("{}\n{}", TEST_CURRENT_VERSION, TEST_LATEST_VERSION);
    let script = Script::Inline(inline_script);
    let engine_error = WasaupEngine::new(script).err().unwrap();
    assert_eq!(
        engine_error.message(),
        format!("Runtime error: Function '{INSTALL_VERSION_FN}' is required but not found")
    );
}

#[test]
fn test_new_engine_valid_script() {
    let inline_script = format!(
        "{}\n{}\n{}",
        TEST_CURRENT_VERSION, TEST_LATEST_VERSION, TEST_INSTALL_VERSION
    );
    let script = Script::Inline(inline_script);
    let engine = WasaupEngine::new(script).expect("Failed to create WasaupEngine");

    // Test current version
    let current_version = engine
        .current_version()
        .expect("Failed to get current version");
    assert_eq!(to_version_string(&current_version), "0.9.0");

    // Test latest version
    let latest_version = engine
        .latest_version()
        .expect("Failed to get latest version");
    assert_eq!(to_version_string(&latest_version), "1.0.0");

    // Test install version
    let install_path = engine
        .install_version("1.0.0")
        .expect("Failed to install version");
    assert_eq!(install_path, "path/to/archive-1.0.0.tar.gz");
}

#[test]
fn test_engine_rejects_version_fn_with_params() {
    let script = Script::Inline(
        "fn latest_version(x) { return \"1.0.0\"; }\nfn current_version() { return \"1.0.0\"; }\nfn install_version(version) { return \"a\"; }".to_string(),
    );
    let e = WasaupEngine::new(script).err().unwrap();
    assert_eq!(
        e.message(),
        "Runtime error: Function 'latest_version' should not have any parameters, found: 1"
    );
}

#[test]
fn test_engine_rejects_private_fn() {
    let script = Script::Inline(
        "fn latest_version() { return \"1.0.0\"; }\nprivate fn current_version() { return \"1.0.0\"; }\nfn install_version(version) { return \"a\"; }".to_string(),
    );
    let e = WasaupEngine::new(script).err().unwrap();
    assert_eq!(
        e.message(),
        "Runtime error: Function 'current_version' should not be private"
    );
}

#[test]
fn test_engine_rejects_install_param_count() {
    let script = Script::Inline(
        "fn latest_version() { return \"1.0.0\"; }\nfn current_version() { return \"1.0.0\"; }\nfn install_version() { return \"a\"; }".to_string(),
    );
    let e = WasaupEngine::new(script).err().unwrap();
    assert_eq!(
        e.message(),
        "Runtime error: Function 'install_version' should have exactly one parameter, found: 0"
    );
}

#[test]
fn test_engine_rejects_install_param_name() {
    let script = Script::Inline(
        "fn latest_version() { return \"1.0.0\"; }\nfn current_version() { return \"1.0.0\"; }\nfn install_version(v) { return \"a\"; }".to_string(),
    );
    let e = WasaupEngine::new(script).err().unwrap();
    assert_eq!(
        e.message(),
        "Runtime error: Function 'install_version' should have a string parameter named 'version'"
    );
}

#[test]
fn test_engine_unparseable_version_keeps_raw_text() {
    let script = Script::Inline(
        "fn latest_version() { return \"1.0.0\"; }\nfn current_version() { return \"not-a-version\"; }\nfn install_version(version) { return \"a\"; }".to_string(),
    );
    let engine = WasaupEngine::new(script).unwrap();
    let e = engine.current_version().err().unwrap();
    let msg = e.message();
    assert!(msg.starts_with("Runtime error: Failed to parse 'not-a-version' as current version: "));
}

#[test]
fn test_engine_comments_and_unknown_functions_are_tolerated() {
    let script = Script::Inline(
        "// the policy\nfn helper() { return \"x\"; }\nfn latest_version() { return \"2.0.0\"; }\nfn current_version() { return \"1.0.0\"; }\nfn install_version(version) { return \"tool-\" + version + \".zip\"; }".to_string(),
    );
    let engine = WasaupEngine::new(script).unwrap();
    let loc = engine.install_version("2.0.0").unwrap();
    assert_eq!(loc, "tool-2.0.0.zip");
}

#[test]
fn test_engine_rejects_unterminated_string() {
    let script = Script::Inline("fn latest_version() { return \"1.0.0".to_string());
    let e = WasaupEngine::new(script).err().unwrap();
    assert_eq!(e.message(), "Syntax error: unterminated string literal");
}

#[test]
fn test_engine_tolerates_bodies_beyond_the_expression_language() {
    let script = Script::Inline(
        "fn helper(x) { if x == \"\" { return \"a\"; } else { return \"b\"; } }\nfn latest_version() { return \"1.0.0\"; }\nfn current_version() { return \"1.0.0\"; }\nfn install_version(version) { return version; }".to_string(),
    );
    // the shape validation passes; only calling the opaque body fails
    let engine = WasaupEngine::new(script).unwrap();
    let mut args: Vec<String> = Vec::new();
    args.push(String::new());
    let e = engine.call_fn("helper", &args).err().unwrap();
    assert_eq!(
        e.message(),
        "Runtime error: Function 'helper' has a body the engine cannot evaluate"
    );
}

#[test]
fn test_engine_takes_no_script_files() {
    let script = Script::File("wasaupdate.rhai".to_string());
    assert!(WasaupEngine::new(script).is_err());
}
