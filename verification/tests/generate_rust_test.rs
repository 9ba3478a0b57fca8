use testgen::{ComponentRef, RustTestCode, RustTestCodeGenerator, TopologyError};

const PROLOGUE: &str = "pub async fn create_realm() -> Result<RealmInstance, Error> {\n    let builder = RealmBuilder::new().await?;\n";
const EPILOGUE: &str = "\n    let instance = builder.build().await?;\n    Ok(instance)\n}\n\n";

fn names(list: &[&str]) -> Vec<String> {
    list.iter().map(|name| name.to_string()).collect()
}

fn render(code: &RustTestCode) -> String {
    RustTestCodeGenerator { code }.render()
}

#[test]
fn deduplicate_imports() {
    let mut output: Vec<u8> = vec![];
    let mut code = RustTestCode::new("test-component");
    code.add_import("example::Value");
    code.add_import("example::Value");
    code.add_import("example::Value2");
    RustTestCodeGenerator { code: &code }.write_file(&mut output);
    assert!(!output.is_empty(), "write output");

    let lines = std::str::from_utf8(&output)
        .expect("output must be UTF-8")
        .split("\n")
        .collect::<Vec<_>>();
    assert!(lines.len() > 3);
    assert_eq!(lines[0], "use example::Value2;");
    assert_eq!(lines[1], "use example::Value;");
    assert_ne!(lines[2], "use example::Value;");
}

#[test]
fn imports_come_out_sorted_and_once() {
    let mut code = RustTestCode::new("test-component");
    code.add_import("b");
    code.add_import("a");
    code.add_import("b");
    assert_eq!(code.imports().len(), 2);
    assert_eq!(code.imports().lines(), &names(&["use a;", "use b;"]));
    let text = render(&code);
    assert!(text.starts_with("use a;\nuse b;\n\n\n\npub async fn create_realm()"));
    assert_eq!(text.matches("use b;").count(), 1);
}

#[test]
fn import_order_does_not_depend_on_call_order() {
    let mut first = RustTestCode::new("c");
    first.add_import("zeta::Z").add_import("alpha::A").add_import("mid::M");
    let mut second = RustTestCode::new("c");
    second.add_import("mid::M").add_import("zeta::Z").add_import("alpha::A").add_import("zeta::Z");
    assert_eq!(render(&first), render(&second));
    assert_eq!(first.imports().lines(), &names(&["use alpha::A;", "use mid::M;", "use zeta::Z;"]));
}

#[test]
fn new_builder_holds_nothing() {
    let code = RustTestCode::new("under-test");
    assert_eq!(code.component_under_test(), "under-test");
    assert!(code.components().is_empty());
    assert_eq!(code.imports().len(), 0);
    assert!(code.constants().is_empty());
    assert!(code.realm_builder_snippets().is_empty());
    assert!(code.mock_functions().is_empty());
    assert!(code.test_cases().is_empty());
}

#[test]
fn empty_topology_text() {
    let code = RustTestCode::new("under-test");
    let expected = format!("\n\n\n\n{}\n{}\n", PROLOGUE, EPILOGUE);
    assert_eq!(render(&code), expected);
    assert_eq!(
        render(&code),
        "\n\n\n\npub async fn create_realm() -> Result<RealmInstance, Error> {\n    let builder = RealmBuilder::new().await?;\n\n\n    let instance = builder.build().await?;\n    Ok(instance)\n}\n\n\n"
    );
}

#[test]
fn add_component_with_url() {
    let mut code = RustTestCode::new("under-test");
    let result = code.add_component("dep", Some("fuchsia-pkg://dep#meta/dep.cm"), false);
    assert!(result.is_ok());
    assert_eq!(
        code.components(),
        &vec![ComponentRef {
            name: "dep".to_string(),
            url: Some("fuchsia-pkg://dep#meta/dep.cm".to_string()),
            is_mock: false,
        }]
    );
    assert_eq!(
        code.constants(),
        &names(&["const DEP: &str = \"fuchsia-pkg://dep#meta/dep.cm\";"])
    );
    assert_eq!(
        code.realm_builder_snippets(),
        &names(&[
            "    let dep = builder.add_child(\n        \"dep\",\n        DEP,\n        ChildOptions::new()\n    )\n    .await?;"
        ])
    );
}

#[test]
fn add_component_names_the_constant_in_capitals() {
    let mut code = RustTestCode::new("under-test");
    code.add_component("my-dep.v2_x", Some("#meta/my-dep.cm"), false).unwrap();
    assert_eq!(code.constants(), &names(&["const MY_DEP_V2_X: &str = \"#meta/my-dep.cm\";"]));
    assert_eq!(
        code.realm_builder_snippets(),
        &names(&[
            "    let my-dep.v2_x = builder.add_child(\n        \"my-dep.v2_x\",\n        MY_DEP_V2_X,\n        ChildOptions::new()\n    )\n    .await?;"
        ])
    );
}

#[test]
fn add_component_escapes_what_is_no_ascii_letter_or_digit() {
    let mut code = RustTestCode::new("under-test");
    code.add_component("Caf\u{e9} 9", Some("u"), false).unwrap();
    assert_eq!(code.constants(), &names(&["const CAF__9: &str = \"u\";"]));
}

#[test]
fn add_component_without_url_is_refused() {
    let mut code = RustTestCode::new("under-test");
    code.add_import("a::B");
    let before = render(&code);
    let result = code.add_component("dep", None, false);
    assert_eq!(result.err(), Some(TopologyError::MissingUrl));
    assert!(code.components().is_empty());
    assert!(code.constants().is_empty());
    assert!(code.realm_builder_snippets().is_empty());
    assert_eq!(render(&code), before);
}

#[test]
fn add_mock_component() {
    let mut code = RustTestCode::new("under-test");
    code.add_component("echo_server", None, true).unwrap();
    assert_eq!(
        code.components(),
        &vec![ComponentRef { name: "echo_server".to_string(), url: None, is_mock: true }]
    );
    assert!(code.constants().is_empty());
    assert_eq!(
        code.realm_builder_snippets(),
        &names(&[
            "    let echo_server = builder.add_local_child(\n        \"echo_server\",\n        move |handles: LocalComponentHandles| Box::pin(echo_server_impl(handles)), \n        ChildOptions::new()\n    )\n    .await?;"
        ])
    );
}

#[test]
fn mock_component_keeps_no_url() {
    let mut code = RustTestCode::new("under-test");
    code.add_component("echo_server", Some("#meta/echo.cm"), true).unwrap();
    assert_eq!(
        code.components(),
        &vec![ComponentRef { name: "echo_server".to_string(), url: None, is_mock: true }]
    );
    assert!(code.constants().is_empty());
}

#[test]
fn add_mock_impl_skeleton() {
    let mut code = RustTestCode::new("under-test");
    code.add_mock_impl("echo_server", "fuchsia.example.Echo");
    assert_eq!(
        code.mock_functions(),
        &names(&[
            "async fn echo_server_impl(handles: LocalComponentHandles) -> Result<(), Error> {\n    // Serve the capabilities that this mock offers to the realm.\n    let mut fs = ServiceFs::new();\n    fs.serve_connection(handles.outgoing_dir)?;\n    fs.collect::<()>().await;\n    Ok(())\n}"
        ])
    );
}

#[test]
fn mock_step_and_skeleton_name_the_same_function() {
    let mut code = RustTestCode::new("under-test");
    code.add_component("dep", None, true).unwrap();
    code.add_mock_impl("dep", "fuchsia.example.Echo");
    assert!(code.realm_builder_snippets()[0].contains("Box::pin(dep_impl(handles))"));
    assert!(code.mock_functions()[0].starts_with("async fn dep_impl("));
    assert_eq!(code.mock_functions()[0].matches("dep_impl").count(), 1);
}

#[test]
fn add_protocol_expands_targets() {
    let mut code = RustTestCode::new("under-test");
    code.add_protocol("P", "root", names(&["self", "X"]));
    assert_eq!(
        code.realm_builder_snippets(),
        &names(&[
            "    builder\n        .add_route(\n            Route::new()\n                .capability(Capability::protocol_by_name(\"P\"))\n                .from(Ref::parent())\n                .to(&under-test)\n                .to(&X),\n        )\n        .await?;"
        ])
    );
}

#[test]
fn add_protocol_resolves_sources() {
    let mut code = RustTestCode::new("cut");
    code.add_protocol("P", "self", names(&["root"]));
    code.add_protocol("Q", "dep", names(&["dep2", "self", "root"]));
    assert_eq!(
        code.realm_builder_snippets(),
        &names(&[
            "    builder\n        .add_route(\n            Route::new()\n                .capability(Capability::protocol_by_name(\"P\"))\n                .from(&cut)\n                .to(Ref::parent()),\n        )\n        .await?;",
            "    builder\n        .add_route(\n            Route::new()\n                .capability(Capability::protocol_by_name(\"Q\"))\n                .from(&dep)\n                .to(&dep2)\n                .to(&cut)\n                .to(Ref::parent()),\n        )\n        .await?;",
        ])
    );
}

#[test]
fn add_protocol_without_targets() {
    let mut code = RustTestCode::new("cut");
    code.add_protocol("P", "root", Vec::new());
    assert_eq!(
        code.realm_builder_snippets(),
        &names(&[
            "    builder\n        .add_route(\n            Route::new()\n                .capability(Capability::protocol_by_name(\"P\"))\n                .from(Ref::parent())\n,\n        )\n        .await?;"
        ])
    );
}

#[test]
fn add_directory_route() {
    let mut code = RustTestCode::new("cut");
    code.add_directory("config", "/config/data", names(&["self", "dep", "root"]));
    assert_eq!(
        code.realm_builder_snippets(),
        &names(&[
            "    builder\n        .add_route(\n            Route::new()\n                .capability(Capability::directory(\"config\").path(\"/config/data\").rights(\"fio::RW_STAR_DIR\"))\n                .from(Ref::parent())\n                .to(&cut)\n                .to(&dep)\n                .to(Ref::parent()),\n        )\n        .await?;"
        ])
    );
}

#[test]
fn add_storage_route() {
    let mut code = RustTestCode::new("cut");
    code.add_storage("data", "/data", names(&["dep", "self"]));
    assert_eq!(
        code.realm_builder_snippets(),
        &names(&[
            "    builder\n        .add_route(\n            Route::new()\n                .capability(Capability::storage(\"data\").path(\"/data\"))\n                .from(Ref::parent())\n                .to(&dep)\n                .to(&cut),\n        )\n        .await?;"
        ])
    );
}

#[test]
fn add_test_case_body() {
    let mut code = RustTestCode::new("cut");
    code.add_test_case("Echo");
    assert_eq!(
        code.test_cases(),
        &names(&[
            "#[fuchsia::test]\nasync fn test_echomarker() {\n    let instance = create_realm().await.expect(\"setting up test realm\");\n    let proxy = instance.root.connect_to_protocol_at_exposed_dir::<EchoMarker>();\n    // Add test for Echo\n}"
        ])
    );
}

#[test]
fn add_test_case_substitutes_in_turn() {
    // The marker is put in before the protocol's name is: a name that holds
    // the word PROTOCOL is replaced inside the marker too.
    let mut code = RustTestCode::new("cut");
    code.add_test_case("PROTOCOL");
    assert_eq!(
        code.test_cases(),
        &names(&[
            "#[fuchsia::test]\nasync fn test_protocolmarker() {\n    let instance = create_realm().await.expect(\"setting up test realm\");\n    let proxy = instance.root.connect_to_protocol_at_exposed_dir::<PROTOCOLMarker>();\n    // Add test for PROTOCOL\n}"
        ])
    );
    let mut other = RustTestCode::new("cut");
    other.add_test_case("MARKER");
    assert!(other.test_cases()[0].contains("::<MARKERMarker>();"));
    assert!(other.test_cases()[0].contains("async fn test_markermarker()"));
}

#[test]
fn test_is_named_after_the_marker_in_lower_case() {
    for protocol in ["Echo", "fuchsia.example.Echo", "MARKER", "PROTOCOL", "MARKER_VAR_NAME", "P"] {
        let mut code = RustTestCode::new("cut");
        code.add_test_case(protocol);
        let opening = format!(
            "#[fuchsia::test]\nasync fn test_{}marker(",
            protocol.to_ascii_lowercase()
        );
        assert!(code.test_cases()[0].starts_with(&opening));
    }
}

#[test]
fn snippets_keep_call_order() {
    let mut code = RustTestCode::new("cut");
    code.add_component("b", Some("url-b"), false).unwrap();
    code.add_test_case("Second");
    code.add_protocol("P", "b", names(&["self"]));
    code.add_component("a", None, true).unwrap();
    code.add_test_case("First");
    code.add_storage("s", "/s", names(&["a"]));
    code.add_component("c", Some("url-c"), false).unwrap();
    code.add_directory("d", "/d", names(&["c"]));
    code.add_mock_impl("z", "P");
    code.add_mock_impl("a", "P");

    let steps = code.realm_builder_snippets();
    assert_eq!(steps.len(), 6);
    assert!(steps[0].starts_with("    let b = builder.add_child("));
    assert!(steps[1].contains("Capability::protocol_by_name(\"P\")"));
    assert!(steps[2].starts_with("    let a = builder.add_local_child("));
    assert!(steps[3].contains("Capability::storage(\"s\")"));
    assert!(steps[4].starts_with("    let c = builder.add_child("));
    assert!(steps[5].contains("Capability::directory(\"d\")"));

    let tests = code.test_cases();
    assert_eq!(tests.len(), 2);
    assert!(tests[0].contains("// Add test for Second"));
    assert!(tests[1].contains("// Add test for First"));

    assert_eq!(code.constants(), &names(&["const B: &str = \"url-b\";", "const C: &str = \"url-c\";"]));
    assert!(code.mock_functions()[0].starts_with("async fn z_impl("));
    assert!(code.mock_functions()[1].starts_with("async fn a_impl("));
    let listed: Vec<&str> = code.components().iter().map(|c| c.name.as_str()).collect();
    assert_eq!(listed, vec!["b", "a", "c"]);

    let text = render(&code);
    let mut last = 0;
    for step in steps {
        let at = text.find(step.as_str()).unwrap();
        assert!(at >= last);
        last = at + step.len();
    }
    assert!(text.find("// Add test for Second").unwrap() < text.find("// Add test for First").unwrap());
    assert!(text.find("const B:").unwrap() < text.find("const C:").unwrap());
    assert!(text.find("async fn z_impl").unwrap() < text.find("async fn a_impl").unwrap());
}

#[test]
fn same_calls_give_the_same_text() {
    let build = || {
        let mut code = RustTestCode::new("cut");
        code.add_import("fuchsia_component_test::RealmBuilder");
        code.add_import("anyhow::Error");
        code.add_component("dep", Some("#meta/dep.cm"), false).unwrap();
        code.add_component("mock", None, true).unwrap();
        code.add_mock_impl("mock", "P");
        code.add_protocol("P", "mock", names(&["self", "dep"]));
        code.add_directory("d", "/d", names(&["self"]));
        code.add_storage("s", "/s", names(&["dep"]));
        code.add_test_case("P");
        let mut bytes = Vec::new();
        RustTestCodeGenerator { code: &code }.write_file(&mut bytes);
        bytes
    };
    assert_eq!(build(), build());
}

#[test]
fn calls_can_be_chained() {
    let mut chained = RustTestCode::new("cut");
    chained
        .add_import("a::B")
        .add_component("dep", Some("u"), false)
        .unwrap()
        .add_mock_impl("m", "P")
        .add_protocol("P", "dep", names(&["self"]))
        .add_directory("d", "/d", names(&["self"]))
        .add_storage("s", "/s", names(&["self"]))
        .add_test_case("P");
    let mut plain = RustTestCode::new("cut");
    plain.add_import("a::B");
    plain.add_component("dep", Some("u"), false).unwrap();
    plain.add_mock_impl("m", "P");
    plain.add_protocol("P", "dep", names(&["self"]));
    plain.add_directory("d", "/d", names(&["self"]));
    plain.add_storage("s", "/s", names(&["self"]));
    plain.add_test_case("P");
    assert_eq!(render(&chained), render(&plain));
}

#[test]
fn end_to_end() {
    let mut code = RustTestCode::new("under-test");
    code.add_component("dep", Some("fuchsia-pkg://dep#meta/dep.cm"), false).unwrap();
    code.add_protocol("fuchsia.example.Echo", "dep", names(&["self"]));
    code.add_test_case("fuchsia.example.Echo");
    let expected = [
        "",
        "",
        "const DEP: &str = \"fuchsia-pkg://dep#meta/dep.cm\";",
        "",
        "pub async fn create_realm() -> Result<RealmInstance, Error> {",
        "    let builder = RealmBuilder::new().await?;",
        "    let dep = builder.add_child(",
        "        \"dep\",",
        "        DEP,",
        "        ChildOptions::new()",
        "    )",
        "    .await?;",
        "    builder",
        "        .add_route(",
        "            Route::new()",
        "                .capability(Capability::protocol_by_name(\"fuchsia.example.Echo\"))",
        "                .from(&dep)",
        "                .to(&under-test),",
        "        )",
        "        .await?;",
        "",
        "    let instance = builder.build().await?;",
        "    Ok(instance)",
        "}",
        "",
        "#[fuchsia::test]",
        "async fn test_fuchsia.example.echomarker() {",
        "    let instance = create_realm().await.expect(\"setting up test realm\");",
        "    let proxy = instance.root.connect_to_protocol_at_exposed_dir::<fuchsia.example.EchoMarker>();",
        "    // Add test for fuchsia.example.Echo",
        "}",
        "",
    ]
    .join("\n");
    assert_eq!(render(&code), expected);
    assert_eq!(code.constants().len(), 1);
    assert_eq!(code.realm_builder_snippets().len(), 2);
    assert_eq!(code.test_cases().len(), 1);
    assert!(code.mock_functions().is_empty());
}

#[test]
fn full_harness_text() {
    let mut code = RustTestCode::new("cut");
    code.add_import("b::B");
    code.add_import("a::A");
    code.add_component("one", Some("u1"), false).unwrap();
    code.add_component("two", Some("u2"), false).unwrap();
    code.add_mock_impl("m1", "P");
    code.add_mock_impl("m2", "P");
    code.add_test_case("P");
    code.add_test_case("Q");
    let steps = code.realm_builder_snippets().join("\n");
    let mocks = code.mock_functions().join("\n\n");
    let tests = code.test_cases().join("\n\n");
    let expected = format!(
        "use a::A;\nuse b::B;\n\nconst ONE: &str = \"u1\";\nconst TWO: &str = \"u2\";\n\n{}{}\n{}{}\n\n{}\n",
        PROLOGUE, steps, EPILOGUE, mocks, tests
    );
    assert_eq!(render(&code), expected);
}

#[test]
fn write_file_appends_the_text_as_bytes() {
    let mut code = RustTestCode::new("caf\u{e9}");
    code.add_protocol("P", "self", names(&["self"]));
    let generator = RustTestCodeGenerator { code: &code };
    let mut output: Vec<u8> = vec![b'#', b'\n'];
    generator.write_file(&mut output);
    let mut expected = vec![b'#', b'\n'];
    expected.extend_from_slice(generator.render().as_bytes());
    assert_eq!(output, expected);
    assert!(generator.render().contains(".from(&caf\u{e9})"));
}
