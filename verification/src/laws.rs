//! What holds of every realm and of every sequence of recorded facts.
use crate::import_set::{
    canonical, in_canonical_order, lemma_canonical_order, lemma_canonical_order_of,
};
use crate::realm::{
    admissible, constants_of, emitted_text, empty_realm, import_section, imports_of, mocks_of,
    record, record_all, steps_of, test_cases_of, Fact, Realm,
};
use crate::snippet::{
    entry_point_call, entry_point_declaration, import_line, local_child_step, marker,
    mock_function_name, mock_skeleton, test_case_body, test_declaration,
    MOCK_FUNCTION_TEMPLATE, REALM_EPILOGUE, REALM_PROLOGUE, TEST_FUNCTION_TEMPLATE,
};
use crate::text::{
    joined, lemma_joined_concat, lemma_substituted_keeps_prefix, lemma_substituted_skips,
    lowercased, occurs_at, substituted,
};
use vstd::prelude::*;

verus! {

/// The ordered parts of a realm that facts add fragments to.
pub enum Part {
    /// The declarations of the constants.
    Constants,
    /// The steps of the procedure that builds the realm.
    Steps,
    /// The skeletons of the mocks' entry points.
    Mocks,
    /// The bodies of the tests.
    TestCases,
}

/// The fragments that `realm` holds in the part `which`.
pub open spec fn part(realm: Realm, which: Part) -> Seq<Seq<char>> {
    match which {
        Part::Constants => realm.constants,
        Part::Steps => realm.steps,
        Part::Mocks => realm.mocks,
        Part::TestCases => realm.test_cases,
    }
}

/// The fragments that `fact` adds to the part `which` of the realm of
/// `component_under_test`.
pub open spec fn fragments_of(which: Part, component_under_test: Seq<char>, fact: Fact) -> Seq<
    Seq<char>,
> {
    match which {
        Part::Constants => constants_of(fact),
        Part::Steps => steps_of(component_under_test, fact),
        Part::Mocks => mocks_of(fact),
        Part::TestCases => test_cases_of(fact),
    }
}

/// The fragments that `facts` add to the part `which`, fact by fact, first to last.
pub open spec fn collected(which: Part, component_under_test: Seq<char>, facts: Seq<Fact>) -> Seq<
    Seq<char>,
>
    decreases facts.len(),
{
    if facts.len() == 0 {
        Seq::empty()
    } else {
        collected(which, component_under_test, facts.drop_last()) + fragments_of(
            which,
            component_under_test,
            facts.last(),
        )
    }
}

/// The import lines that `facts` name.
pub open spec fn imported(facts: Seq<Fact>) -> Set<Seq<char>> {
    Set::new(
        |line: Seq<char>|
            exists|i: int| 0 <= i < facts.len() && imports_of(#[trigger] facts[i]).contains(line),
    )
}

/// A fact that a realm does not take leaves the realm as it was.
pub proof fn law_refused_fact_changes_nothing(realm: Realm, fact: Fact)
    requires
        !admissible(fact),
    ensures
        record(realm, fact) == realm,
{
    assert(record(realm, fact) =~= realm);
}

/// Recording facts never changes which component is under test.
pub proof fn law_component_under_test_is_fixed(realm: Realm, facts: Seq<Fact>)
    ensures
        record_all(realm, facts).component_under_test == realm.component_under_test,
    decreases facts.len(),
{
    if facts.len() > 0 {
        law_component_under_test_is_fixed(realm, facts.drop_last());
    }
}

/// Recording one list of facts and then another is recording the two laid end
/// to end.
pub proof fn law_record_all_concat(realm: Realm, first: Seq<Fact>, second: Seq<Fact>)
    ensures
        record_all(realm, first + second) == record_all(record_all(realm, first), second),
    decreases second.len(),
{
    if second.len() == 0 {
        assert(first + second =~= first);
    } else {
        assert((first + second).drop_last() =~= first + second.drop_last());
        assert((first + second).last() == second.last());
        law_record_all_concat(realm, first, second.drop_last());
    }
}

/// Fragments come out in the order of the calls that added them: after any
/// facts, each ordered part of the realm is what it was, followed by what the
/// facts add to it, fact by fact, first to last.
pub proof fn law_fragments_in_call_order(realm: Realm, facts: Seq<Fact>, which: Part)
    ensures
        part(record_all(realm, facts), which) == part(realm, which) + collected(
            which,
            realm.component_under_test,
            facts,
        ),
    decreases facts.len(),
{
    let name = realm.component_under_test;
    if facts.len() == 0 {
        assert(part(realm, which) + collected(which, name, facts) =~= part(realm, which));
    } else {
        let front = facts.drop_last();
        law_fragments_in_call_order(realm, front, which);
        law_component_under_test_is_fixed(realm, front);
        let before = record_all(realm, front);
        let added = fragments_of(which, name, facts.last());
        assert(part(record(before, facts.last()), which) == part(before, which) + added);
        assert((part(realm, which) + collected(which, name, front)) + added =~= part(realm, which)
            + (collected(which, name, front) + added));
    }
}

/// What earlier facts add stands before what later facts add.
pub proof fn law_collected_concat(
    which: Part,
    component_under_test: Seq<char>,
    first: Seq<Fact>,
    second: Seq<Fact>,
)
    ensures
        collected(which, component_under_test, first + second) == collected(
            which,
            component_under_test,
            first,
        ) + collected(which, component_under_test, second),
    decreases second.len(),
{
    let name = component_under_test;
    if second.len() == 0 {
        assert(first + second =~= first);
        assert(collected(which, name, first) + collected(which, name, second) =~= collected(
            which,
            name,
            first,
        ));
    } else {
        assert((first + second).drop_last() =~= first + second.drop_last());
        assert((first + second).last() == second.last());
        law_collected_concat(which, name, first, second.drop_last());
        let added = fragments_of(which, name, second.last());
        assert((collected(which, name, first) + collected(which, name, second.drop_last()))
            + added =~= collected(which, name, first) + (collected(
            which,
            name,
            second.drop_last(),
        ) + added));
    }
}

/// The text of a part grows at its end: where a part held fragments and the
/// facts add more, the joined text after the facts is the joined text from
/// before, a separator, and the joined text of what the facts add.
pub proof fn law_text_in_call_order(realm: Realm, facts: Seq<Fact>, which: Part, sep: Seq<char>)
    requires
        part(realm, which).len() > 0,
        collected(which, realm.component_under_test, facts).len() > 0,
    ensures
        joined(part(record_all(realm, facts), which), sep) == joined(part(realm, which), sep) + sep
            + joined(collected(which, realm.component_under_test, facts), sep),
{
    law_fragments_in_call_order(realm, facts, which);
    lemma_joined_concat(
        part(realm, which),
        collected(which, realm.component_under_test, facts),
        sep,
    );
}

/// Different symbols have different import lines.
pub proof fn law_import_lines_differ(first: Seq<char>, second: Seq<char>)
    requires
        import_line(first) == import_line(second),
    ensures
        first == second,
{
    reveal_strlit("use ");
    reveal_strlit(";");
    let a = import_line(first);
    let b = import_line(second);
    assert(a.len() == first.len() + 5);
    assert(b.len() == second.len() + 5);
    assert forall|i: int| 0 <= i < first.len() implies first[i] == second[i] by {
        assert(a[i + 4] == first[i]);
        assert(b[i + 4] == second[i]);
    }
    assert(first =~= second);
}

/// The imports of a realm are a set: after any facts, the realm holds the
/// import lines it held and those that the facts name, however often and in
/// whatever order the facts name them.
pub proof fn law_imports_are_a_set(realm: Realm, facts: Seq<Fact>)
    ensures
        record_all(realm, facts).imports == realm.imports.union(imported(facts)),
        realm.imports.finite() ==> record_all(realm, facts).imports.finite(),
    decreases facts.len(),
{
    broadcast use vstd::set::group_set_axioms;

    if facts.len() == 0 {
        assert(realm.imports.union(imported(facts)) =~= realm.imports);
    } else {
        let front = facts.drop_last();
        law_imports_are_a_set(realm, front);
        assert forall|line: Seq<char>|
            imported(facts).contains(line) == (imported(front).contains(line) || imports_of(
                facts.last(),
            ).contains(line)) by {
            if imported(front).contains(line) {
                let i = choose|i: int|
                    0 <= i < front.len() && imports_of(#[trigger] front[i]).contains(line);
                assert(facts[i] == front[i]);
            }
            if imports_of(facts.last()).contains(line) {
                assert(facts[facts.len() - 1] == facts.last());
            }
            if imported(facts).contains(line) {
                let i = choose|i: int|
                    0 <= i < facts.len() && imports_of(#[trigger] facts[i]).contains(line);
                if i < front.len() {
                    assert(front[i] == facts[i]);
                }
            }
        }
        assert(record_all(realm, facts).imports =~= realm.imports.union(imported(facts)));
        assert(imports_of(facts.last()).finite());
    }
}

/// The import lines come out in canonical order, each once: after any facts
/// recorded in a new realm, the lines of the import section are the import
/// lines that the facts name, each once, each before all that it precedes.
pub proof fn law_imports_in_canonical_order(component_under_test: Seq<char>, facts: Seq<Fact>)
    ensures
        ({
            let lines = in_canonical_order(
                record_all(empty_realm(component_under_test), facts).imports,
            );
            &&& canonical(lines)
            &&& lines.no_duplicates()
            &&& lines.to_set() == imported(facts)
        }),
{
    let start = empty_realm(component_under_test);
    law_imports_are_a_set(start, facts);
    assert(start.imports.union(imported(facts)) =~= imported(facts));
    lemma_canonical_order(record_all(start, facts).imports);
}

/// The import section does not depend on the order of the calls or on
/// repeats: facts that name the same import lines give the same section.
pub proof fn law_import_section_ignores_call_order(
    component_under_test: Seq<char>,
    first: Seq<Fact>,
    second: Seq<Fact>,
)
    requires
        imported(first) == imported(second),
    ensures
        import_section(record_all(empty_realm(component_under_test), first)) == import_section(
            record_all(empty_realm(component_under_test), second),
        ),
{
    let start = empty_realm(component_under_test);
    law_imports_are_a_set(start, first);
    law_imports_are_a_set(start, second);
}

/// The entry point that a mock's step calls is the one that its skeleton
/// declares: both carry the name made from the component's name.
pub proof fn law_mock_entry_point(component: Seq<char>)
    ensures
        entry_point_declaration(mock_function_name(component)).is_prefix_of(
            mock_skeleton(component),
        ),
        exists|at: int|
            occurs_at(
                local_child_step(component),
                entry_point_call(mock_function_name(component)),
                at,
            ),
{
    let name = mock_function_name(component);
    let template = MOCK_FUNCTION_TEMPLATE@;
    let placeholder = "FUNCTION_NAME"@;
    reveal_strlit("async fn FUNCTION_NAME(handles: LocalComponentHandles) -> Result<(), Error> {\n    // Serve the capabilities that this mock offers to the realm.\n    let mut fs = ServiceFs::new();\n    fs.serve_connection(handles.outgoing_dir)?;\n    fs.collect::<()>().await;\n    Ok(())\n}");
    reveal_strlit("FUNCTION_NAME");
    reveal_strlit("async fn ");
    reveal_strlit("(");
    lemma_substituted_skips(template, placeholder, name, 9);
    let from_name = template.skip(9);
    assert(from_name.subrange(0, 13) =~= placeholder);
    let rest = from_name.skip(13);
    assert(rest[0] == '(');
    assert(!occurs_at(rest, placeholder, 0)) by {
        assert(rest.subrange(0, 13)[0] == rest[0]);
    }
    let tail = substituted(rest.skip(1), placeholder, name);
    assert(occurs_at(from_name, placeholder, 0));
    assert(substituted(from_name, placeholder, name) == name + substituted(
        rest,
        placeholder,
        name,
    ));
    assert(substituted(rest, placeholder, name) == seq![rest[0]] + tail);
    assert(mock_skeleton(component) == template.take(9) + (name + (seq![rest[0]] + tail)));
    assert(template.take(9) =~= "async fn "@);
    let declaration = entry_point_declaration(name);
    assert(declaration =~= mock_skeleton(component).subrange(0, declaration.len() as int));

    reveal_strlit("Box::pin(");
    let call = entry_point_call(name);
    let lead = "    let "@ + component + " = builder.add_local_child(\n        \""@ + component
        + "\",\n        move |handles: LocalComponentHandles| "@;
    let step = local_child_step(component);
    assert(step.subrange(lead.len() as int, (lead.len() + call.len()) as int) =~= call);
    assert(occurs_at(step, call, lead.len() as int));
}

/// The test of a protocol is named after the protocol's marker in lower
/// case, whatever the protocol's name holds.
pub proof fn law_test_is_named_after_the_marker(protocol: Seq<char>)
    ensures
        test_declaration(protocol).is_prefix_of(test_case_body(protocol)),
{
    let template = TEST_FUNCTION_TEMPLATE@;
    let name = lowercased(marker(protocol));
    let opening = test_declaration(protocol);
    reveal_strlit("#[fuchsia::test]\nasync fn test_MARKER_VAR_NAME() {\n    let instance = create_realm().await.expect(\"setting up test realm\");\n    let proxy = instance.root.connect_to_protocol_at_exposed_dir::<MARKER>();\n    // Add test for PROTOCOL\n}");
    reveal_strlit("#[fuchsia::test]\nasync fn test_");
    reveal_strlit("(");
    reveal_strlit("MARKER_VAR_NAME");
    reveal_strlit("MARKER");
    reveal_strlit("PROTOCOL");
    assert forall|i: int| 0 <= i < opening.len() implies opening[i] != 'M' && opening[i]
        != 'P' by {
        if 31 <= i < 31 + name.len() {
            assert(opening[i] == name[i - 31]);
        }
    }

    let first = substituted(template, "MARKER_VAR_NAME"@, name);
    lemma_substituted_skips(template, "MARKER_VAR_NAME"@, name, 31);
    let from_name = template.skip(31);
    assert(from_name.subrange(0, 15) =~= "MARKER_VAR_NAME"@);
    assert(occurs_at(from_name, "MARKER_VAR_NAME"@, 0));
    let rest = from_name.skip(15);
    assert(rest[0] == '(');
    assert(!occurs_at(rest, "MARKER_VAR_NAME"@, 0)) by {
        assert(rest.subrange(0, 15)[0] == rest[0]);
    }
    let tail = substituted(rest.skip(1), "MARKER_VAR_NAME"@, name);
    assert(substituted(from_name, "MARKER_VAR_NAME"@, name) == name + substituted(
        rest,
        "MARKER_VAR_NAME"@,
        name,
    ));
    assert(substituted(rest, "MARKER_VAR_NAME"@, name) == seq![rest[0]] + tail);
    assert(first == template.take(31) + (name + (seq![rest[0]] + tail)));
    assert(template.take(31) =~= "#[fuchsia::test]\nasync fn test_"@);
    assert(opening =~= first.subrange(0, opening.len() as int));

    let second = substituted(first, "MARKER"@, marker(protocol));
    lemma_substituted_keeps_prefix(first, "MARKER"@, marker(protocol), opening);
    lemma_substituted_keeps_prefix(second, "PROTOCOL"@, protocol, opening);
}

/// The same calls give the same text: two new realms for the same component
/// that record the same facts stand for the same harness.
pub proof fn law_same_calls_same_text(
    first_component: Seq<char>,
    first_facts: Seq<Fact>,
    second_component: Seq<char>,
    second_facts: Seq<Fact>,
)
    requires
        first_component == second_component,
        first_facts == second_facts,
    ensures
        emitted_text(record_all(empty_realm(first_component), first_facts)) == emitted_text(
            record_all(empty_realm(second_component), second_facts),
        ),
{
}

/// A realm in which nothing was recorded gives a procedure without steps and
/// nothing else: no import, no constant, no mock and no test.
pub proof fn law_empty_realm_text(component_under_test: Seq<char>)
    ensures
        emitted_text(empty_realm(component_under_test)) == "\n\n"@ + "\n\n"@ + REALM_PROLOGUE@
            + "\n"@ + REALM_EPILOGUE@ + "\n"@,
{
    let none = Seq::<Seq<char>>::empty();
    assert(none.to_set() =~= Set::<Seq<char>>::empty());
    lemma_canonical_order_of(none);
    let realm = empty_realm(component_under_test);
    assert(emitted_text(realm) =~= "\n\n"@ + "\n\n"@ + REALM_PROLOGUE@ + "\n"@ + REALM_EPILOGUE@
        + "\n"@);
}

} // verus!
