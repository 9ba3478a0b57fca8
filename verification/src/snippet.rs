//! The text fragments of a harness: what each fragment says, as a function of
//! the names it is made from, and the code that writes it.
use crate::text::{
    join, joined, lowercased, push_char, substitute, substituted, texts, to_ascii_lowercase,
};
use vstd::prelude::*;
use vstd::string::*;

verus! {

/// Opens the procedure that builds the realm.
pub const REALM_PROLOGUE: &'static str =
    "pub async fn create_realm() -> Result<RealmInstance, Error> {\n    let builder = RealmBuilder::new().await?;\n";

/// Builds the realm and hands back its instance.
pub const REALM_EPILOGUE: &'static str =
    "\n    let instance = builder.build().await?;\n    Ok(instance)\n}\n\n";

/// The skeleton of a mock's entry point. `FUNCTION_NAME` stands for its name.
pub const MOCK_FUNCTION_TEMPLATE: &'static str =
    "async fn FUNCTION_NAME(handles: LocalComponentHandles) -> Result<(), Error> {\n    // Serve the capabilities that this mock offers to the realm.\n    let mut fs = ServiceFs::new();\n    fs.serve_connection(handles.outgoing_dir)?;\n    fs.collect::<()>().await;\n    Ok(())\n}";

/// The body of one test. `MARKER_VAR_NAME` stands for the marker in lower
/// case, `MARKER` for the marker and `PROTOCOL` for the protocol's name.
pub const TEST_FUNCTION_TEMPLATE: &'static str =
    "#[fuchsia::test]\nasync fn test_MARKER_VAR_NAME() {\n    let instance = create_realm().await.expect(\"setting up test realm\");\n    let proxy = instance.root.connect_to_protocol_at_exposed_dir::<MARKER>();\n    // Add test for PROTOCOL\n}";

/// The import line for `symbol`.
pub open spec fn import_line(symbol: Seq<char>) -> Seq<char> {
    "use "@ + symbol + ";"@
}

/// The name of the entry point that backs the mock `component`.
pub open spec fn mock_function_name(component: Seq<char>) -> Seq<char> {
    component + "_impl"@
}

/// A character of a constant's name: a lower-case ASCII letter becomes its
/// capital, other ASCII letters, digits and `_` stay, anything else becomes `_`.
pub open spec fn constant_char(c: char) -> char {
    if 'a' <= c && c <= 'z' {
        ((c as u32) - 32) as char
    } else if ('A' <= c && c <= 'Z') || ('0' <= c && c <= '9') || c == '_' {
        c
    } else {
        '_'
    }
}

/// The name of the constant that holds the URL of `component`.
pub open spec fn constant_name(component: Seq<char>) -> Seq<char> {
    component.map_values(|c: char| constant_char(c))
}

/// The declaration of the constant `name` with the value `url`.
pub open spec fn constant_decl(name: Seq<char>, url: Seq<char>) -> Seq<char> {
    "const "@ + name + ": &str = \""@ + url + "\";"@
}

/// The call that hands a local child's handles to the entry point `name`.
pub open spec fn entry_point_call(name: Seq<char>) -> Seq<char> {
    "Box::pin("@ + name + "(handles))"@
}

/// The opening of the declaration of the entry point `name`.
pub open spec fn entry_point_declaration(name: Seq<char>) -> Seq<char> {
    "async fn "@ + name + "("@
}

/// The opening of the declaration of the test of `protocol`.
pub open spec fn test_declaration(protocol: Seq<char>) -> Seq<char> {
    "#[fuchsia::test]\nasync fn test_"@ + lowercased(marker(protocol)) + "("@
}

/// The step that adds the mock `component` to the realm as a local child,
/// served by its entry point.
pub open spec fn local_child_step(component: Seq<char>) -> Seq<char> {
    "    let "@ + component + " = builder.add_local_child(\n        \""@ + component
        + "\",\n        move |handles: LocalComponentHandles| "@ + entry_point_call(
        mock_function_name(component),
    ) + ", \n        ChildOptions::new()\n    )\n    .await?;"@
}

/// The step that adds `component` to the realm as a child launched from the
/// URL in the constant `constant`.
pub open spec fn child_step(component: Seq<char>, constant: Seq<char>) -> Seq<char> {
    "    let "@ + component + " = builder.add_child(\n        \""@ + component + "\",\n        "@
        + constant + ",\n        ChildOptions::new()\n    )\n    .await?;"@
}

/// What an end of a route refers to: `root` is the realm's parent, `self` is
/// the component under test, any other token is the component of that name.
pub open spec fn reference(component_under_test: Seq<char>, token: Seq<char>) -> Seq<char> {
    if token == "root"@ {
        "Ref::parent()"@
    } else if token == "self"@ {
        "&"@ + component_under_test
    } else {
        "&"@ + token
    }
}

/// The clause that routes a capability to `target`.
pub open spec fn to_clause(component_under_test: Seq<char>, target: Seq<char>) -> Seq<char> {
    "                .to("@ + reference(component_under_test, target) + ")"@
}

/// One clause for each of `targets`, in their order, one to a line.
pub open spec fn to_clauses(component_under_test: Seq<char>, targets: Seq<Seq<char>>) -> Seq<
    char,
> {
    joined(targets.map_values(|target: Seq<char>| to_clause(component_under_test, target)), "\n"@)
}

/// The step that routes `capability` from `source` to the targets of `to`.
pub open spec fn route_step(capability: Seq<char>, source: Seq<char>, to: Seq<char>) -> Seq<char> {
    "    builder\n        .add_route(\n            Route::new()\n                .capability("@
        + capability + ")\n                .from("@ + source + ")\n"@ + to
        + ",\n        )\n        .await?;"@
}

/// The protocol `protocol` as a capability.
pub open spec fn protocol_capability(protocol: Seq<char>) -> Seq<char> {
    "Capability::protocol_by_name(\""@ + protocol + "\")"@
}

/// The directory `name` at `path` as a capability, readable and writable.
pub open spec fn directory_capability(name: Seq<char>, path: Seq<char>) -> Seq<char> {
    "Capability::directory(\""@ + name + "\").path(\""@ + path
        + "\").rights(\"fio::RW_STAR_DIR\")"@
}

/// The storage `name` at `path` as a capability.
pub open spec fn storage_capability(name: Seq<char>, path: Seq<char>) -> Seq<char> {
    "Capability::storage(\""@ + name + "\").path(\""@ + path + "\")"@
}

/// The step that routes the protocol `protocol` from `source` to `targets`.
pub open spec fn protocol_step(
    component_under_test: Seq<char>,
    protocol: Seq<char>,
    source: Seq<char>,
    targets: Seq<Seq<char>>,
) -> Seq<char> {
    route_step(
        protocol_capability(protocol),
        reference(component_under_test, source),
        to_clauses(component_under_test, targets),
    )
}

/// The step that routes the directory `name` from the realm's parent to `targets`.
pub open spec fn directory_step(
    component_under_test: Seq<char>,
    name: Seq<char>,
    path: Seq<char>,
    targets: Seq<Seq<char>>,
) -> Seq<char> {
    route_step(
        directory_capability(name, path),
        "Ref::parent()"@,
        to_clauses(component_under_test, targets),
    )
}

/// The step that routes the storage `name` from the realm's parent to `targets`.
pub open spec fn storage_step(
    component_under_test: Seq<char>,
    name: Seq<char>,
    path: Seq<char>,
    targets: Seq<Seq<char>>,
) -> Seq<char> {
    route_step(
        storage_capability(name, path),
        "Ref::parent()"@,
        to_clauses(component_under_test, targets),
    )
}

/// The skeleton of the entry point of the mock `component`.
pub open spec fn mock_skeleton(component: Seq<char>) -> Seq<char> {
    substituted(MOCK_FUNCTION_TEMPLATE@, "FUNCTION_NAME"@, mock_function_name(component))
}

/// The marker of `protocol`.
pub open spec fn marker(protocol: Seq<char>) -> Seq<char> {
    protocol + "Marker"@
}

/// The body of the test of `protocol`: the template with the lower-case marker
/// put in first, then the marker, then the protocol's name.
pub open spec fn test_case_body(protocol: Seq<char>) -> Seq<char> {
    substituted(
        substituted(
            substituted(
                TEST_FUNCTION_TEMPLATE@,
                "MARKER_VAR_NAME"@,
                lowercased(marker(protocol)),
            ),
            "MARKER"@,
            marker(protocol),
        ),
        "PROTOCOL"@,
        protocol,
    )
}

/// Writes the import line for `symbol`.
pub fn render_import_line(symbol: &str) -> (line: String)
    ensures
        line@ == import_line(symbol@),
{
    let mut line = String::from_str("use ");
    line.append(symbol);
    line.append(";");
    line
}

/// Writes the name of the entry point that backs the mock `component`.
pub fn render_mock_function_name(component: &str) -> (name: String)
    ensures
        name@ == mock_function_name(component@),
{
    let mut name = String::from_str(component);
    name.append("_impl");
    name
}

fn constant_char_of(c: char) -> (r: char)
    ensures
        r == constant_char(c),
{
    if 'a' <= c && c <= 'z' {
        ((c as u8) - 32u8) as char
    } else if ('A' <= c && c <= 'Z') || ('0' <= c && c <= '9') || c == '_' {
        c
    } else {
        '_'
    }
}

/// Writes the name of the constant that holds the URL of `component`.
pub fn render_constant_name(component: &str) -> (name: String)
    ensures
        name@ == constant_name(component@),
{
    broadcast use group_string_axioms;

    let mut name = String::new();
    for c in it: component.chars()
        invariant
            it.seq() == component@,
            name@ =~= constant_name(component@.take(it.index())),
    {
        push_char(&mut name, constant_char_of(c));
    }
    proof {
        assert(component@.take(component@.len() as int) =~= component@);
    }
    name
}

/// Writes the declaration of the constant `name` with the value `url`.
pub fn render_constant_decl(name: &str, url: &str) -> (decl: String)
    ensures
        decl@ == constant_decl(name@, url@),
{
    let mut decl = String::from_str("const ");
    decl.append(name);
    decl.append(": &str = \"");
    decl.append(url);
    decl.append("\";");
    decl
}

/// Writes the step that adds the mock `component` as a local child.
pub fn render_local_child_step(component: &str) -> (step: String)
    ensures
        step@ == local_child_step(component@),
{
    let entry = render_mock_function_name(component);
    let mut call = String::from_str("Box::pin(");
    call.append(entry.as_str());
    call.append("(handles))");
    let mut step = String::from_str("    let ");
    step.append(component);
    step.append(" = builder.add_local_child(\n        \"");
    step.append(component);
    step.append("\",\n        move |handles: LocalComponentHandles| ");
    step.append(call.as_str());
    step.append(", \n        ChildOptions::new()\n    )\n    .await?;");
    step
}

/// Writes the step that adds `component` as a child launched from `constant`.
pub fn render_child_step(component: &str, constant: &str) -> (step: String)
    ensures
        step@ == child_step(component@, constant@),
{
    let mut step = String::from_str("    let ");
    step.append(component);
    step.append(" = builder.add_child(\n        \"");
    step.append(component);
    step.append("\",\n        ");
    step.append(constant);
    step.append(",\n        ChildOptions::new()\n    )\n    .await?;");
    step
}

/// Writes what the end `token` of a route refers to.
pub fn render_reference(component_under_test: &str, token: &str) -> (text: String)
    ensures
        text@ == reference(component_under_test@, token@),
{
    if token.eq("root") {
        String::from_str("Ref::parent()")
    } else if token.eq("self") {
        let mut text = String::from_str("&");
        text.append(component_under_test);
        text
    } else {
        let mut text = String::from_str("&");
        text.append(token);
        text
    }
}

/// Writes the clause that routes a capability to `target`.
pub fn render_to_clause(component_under_test: &str, target: &str) -> (clause: String)
    ensures
        clause@ == to_clause(component_under_test@, target@),
{
    let end = render_reference(component_under_test, target);
    let mut clause = String::from_str("                .to(");
    clause.append(end.as_str());
    clause.append(")");
    clause
}

/// Writes one clause for each of `targets`, in their order, one to a line.
pub fn render_to_clauses(component_under_test: &str, targets: &Vec<String>) -> (clauses: String)
    ensures
        clauses@ == to_clauses(component_under_test@, texts(targets@)),
{
    let mut lines: Vec<String> = Vec::new();
    let mut i: usize = 0;
    while i < targets.len()
        invariant
            i <= targets.len(),
            lines@.len() == i,
            forall|k: int|
                0 <= k < i ==> (#[trigger] lines@[k])@ == to_clause(
                    component_under_test@,
                    targets@[k]@,
                ),
        decreases targets.len() - i,
    {
        lines.push(render_to_clause(component_under_test, targets[i].as_str()));
        i += 1;
    }
    proof {
        assert(texts(lines@) =~= texts(targets@).map_values(
            |target: Seq<char>| to_clause(component_under_test@, target),
        ));
    }
    join(&lines, "\n")
}

/// Writes the step that routes `capability` from `source` to the targets of `to`.
pub fn render_route_step(capability: &str, source: &str, to: &str) -> (step: String)
    ensures
        step@ == route_step(capability@, source@, to@),
{
    let mut step = String::from_str(
        "    builder\n        .add_route(\n            Route::new()\n                .capability(",
    );
    step.append(capability);
    step.append(")\n                .from(");
    step.append(source);
    step.append(")\n");
    step.append(to);
    step.append(",\n        )\n        .await?;");
    step
}

/// Writes the step that routes the protocol `protocol` from `source` to `targets`.
pub fn render_protocol_step(
    component_under_test: &str,
    protocol: &str,
    source: &str,
    targets: &Vec<String>,
) -> (step: String)
    ensures
        step@ == protocol_step(component_under_test@, protocol@, source@, texts(targets@)),
{
    let mut capability = String::from_str("Capability::protocol_by_name(\"");
    capability.append(protocol);
    capability.append("\")");
    let from = render_reference(component_under_test, source);
    let to = render_to_clauses(component_under_test, targets);
    render_route_step(capability.as_str(), from.as_str(), to.as_str())
}

/// Writes the step that routes the directory `name` at `path` to `targets`.
pub fn render_directory_step(
    component_under_test: &str,
    name: &str,
    path: &str,
    targets: &Vec<String>,
) -> (step: String)
    ensures
        step@ == directory_step(component_under_test@, name@, path@, texts(targets@)),
{
    let mut capability = String::from_str("Capability::directory(\"");
    capability.append(name);
    capability.append("\").path(\"");
    capability.append(path);
    capability.append("\").rights(\"fio::RW_STAR_DIR\")");
    let to = render_to_clauses(component_under_test, targets);
    render_route_step(capability.as_str(), "Ref::parent()", to.as_str())
}

/// Writes the step that routes the storage `name` at `path` to `targets`.
pub fn render_storage_step(
    component_under_test: &str,
    name: &str,
    path: &str,
    targets: &Vec<String>,
) -> (step: String)
    ensures
        step@ == storage_step(component_under_test@, name@, path@, texts(targets@)),
{
    let mut capability = String::from_str("Capability::storage(\"");
    capability.append(name);
    capability.append("\").path(\"");
    capability.append(path);
    capability.append("\")");
    let to = render_to_clauses(component_under_test, targets);
    render_route_step(capability.as_str(), "Ref::parent()", to.as_str())
}

/// Writes the skeleton of the entry point of the mock `component`.
pub fn render_mock_skeleton(component: &str) -> (skeleton: String)
    ensures
        skeleton@ == mock_skeleton(component@),
{
    let entry = render_mock_function_name(component);
    substitute(MOCK_FUNCTION_TEMPLATE, "FUNCTION_NAME", entry.as_str())
}

/// Writes the body of the test of `protocol`.
pub fn render_test_case(protocol: &str) -> (body: String)
    ensures
        body@ == test_case_body(protocol@),
{
    let mut protocol_marker = String::from_str(protocol);
    protocol_marker.append("Marker");
    let variable = to_ascii_lowercase(protocol_marker.as_str());
    let first = substitute(TEST_FUNCTION_TEMPLATE, "MARKER_VAR_NAME", variable.as_str());
    let second = substitute(first.as_str(), "MARKER", protocol_marker.as_str());
    substitute(second.as_str(), "PROTOCOL", protocol)
}

} // verus!
