//! The model of a realm under construction: what it holds, what each recorded
//! fact adds to it, and the text that stands for it.
use crate::import_set::in_canonical_order;
use crate::snippet::{
    child_step, constant_decl, constant_name, directory_step, import_line, local_child_step,
    mock_skeleton, protocol_step, storage_step, test_case_body, REALM_EPILOGUE, REALM_PROLOGUE,
};
use crate::text::joined;
use vstd::prelude::*;

verus! {

/// One component of a realm.
pub struct Component {
    /// Its name in the realm.
    pub name: Seq<char>,
    /// The URL it is launched from; a mock has none.
    pub url: Option<Seq<char>>,
    /// Whether generated code stands in for it.
    pub is_mock: bool,
}

/// A realm under construction.
#[verifier::ext_equal]
pub struct Realm {
    /// The name of the component that the harness tests.
    pub component_under_test: Seq<char>,
    /// The components, in the order in which they were added.
    pub components: Seq<Component>,
    /// The import lines.
    pub imports: Set<Seq<char>>,
    /// The declarations of the constants that hold the components' URLs.
    pub constants: Seq<Seq<char>>,
    /// The steps of the procedure that builds the realm.
    pub steps: Seq<Seq<char>>,
    /// The skeletons of the mocks' entry points.
    pub mocks: Seq<Seq<char>>,
    /// The bodies of the tests.
    pub test_cases: Seq<Seq<char>>,
}

/// One fact about a realm, as a caller reports it.
pub enum Fact {
    /// The harness needs `symbol` in scope.
    Import { symbol: Seq<char> },
    /// The realm holds the component `name`.
    Component { name: Seq<char>, url: Option<Seq<char>>, is_mock: bool },
    /// The mock `component` serves `protocol`.
    MockImpl { component: Seq<char>, protocol: Seq<char> },
    /// `protocol` is routed from `source` to each of `targets`.
    Protocol { protocol: Seq<char>, source: Seq<char>, targets: Seq<Seq<char>> },
    /// The directory `name` at `path` is routed from the parent to each of `targets`.
    Directory { name: Seq<char>, path: Seq<char>, targets: Seq<Seq<char>> },
    /// The storage `name` at `path` is routed from the parent to each of `targets`.
    Storage { name: Seq<char>, path: Seq<char>, targets: Seq<Seq<char>> },
    /// `protocol` gets a test of its own.
    TestCase { protocol: Seq<char> },
}

/// The realm that holds nothing but the name of the component under test.
pub open spec fn empty_realm(component_under_test: Seq<char>) -> Realm {
    Realm {
        component_under_test,
        components: Seq::empty(),
        imports: Set::empty(),
        constants: Seq::empty(),
        steps: Seq::empty(),
        mocks: Seq::empty(),
        test_cases: Seq::empty(),
    }
}

/// Whether a realm takes `fact`: all but a component that is no mock and has
/// no URL.
pub open spec fn admissible(fact: Fact) -> bool {
    match fact {
        Fact::Component { url, is_mock, .. } => is_mock || url is Some,
        _ => true,
    }
}

/// The components that `fact` adds.
pub open spec fn components_of(fact: Fact) -> Seq<Component> {
    match fact {
        Fact::Component { name, url, is_mock } => if is_mock {
            seq![Component { name, url: None, is_mock: true }]
        } else if url is Some {
            seq![Component { name, url, is_mock: false }]
        } else {
            Seq::empty()
        },
        _ => Seq::empty(),
    }
}

/// The import lines that `fact` adds.
pub open spec fn imports_of(fact: Fact) -> Set<Seq<char>> {
    match fact {
        Fact::Import { symbol } => set![import_line(symbol)],
        _ => Set::empty(),
    }
}

/// The constants that `fact` adds: one for a component with a URL that is no mock.
pub open spec fn constants_of(fact: Fact) -> Seq<Seq<char>> {
    match fact {
        Fact::Component { name, url: Some(url), is_mock: false } => seq![
            constant_decl(constant_name(name), url),
        ],
        _ => Seq::empty(),
    }
}

/// The steps that `fact` adds to the procedure that builds the realm of the
/// component `component_under_test`.
pub open spec fn steps_of(component_under_test: Seq<char>, fact: Fact) -> Seq<Seq<char>> {
    match fact {
        Fact::Component { name, url, is_mock } => if is_mock {
            seq![local_child_step(name)]
        } else if url is Some {
            seq![child_step(name, constant_name(name))]
        } else {
            Seq::empty()
        },
        Fact::Protocol { protocol, source, targets } => seq![
            protocol_step(component_under_test, protocol, source, targets),
        ],
        Fact::Directory { name, path, targets } => seq![
            directory_step(component_under_test, name, path, targets),
        ],
        Fact::Storage { name, path, targets } => seq![
            storage_step(component_under_test, name, path, targets),
        ],
        _ => Seq::empty(),
    }
}

/// The mock skeletons that `fact` adds.
pub open spec fn mocks_of(fact: Fact) -> Seq<Seq<char>> {
    match fact {
        Fact::MockImpl { component, .. } => seq![mock_skeleton(component)],
        _ => Seq::empty(),
    }
}

/// The test bodies that `fact` adds.
pub open spec fn test_cases_of(fact: Fact) -> Seq<Seq<char>> {
    match fact {
        Fact::TestCase { protocol } => seq![test_case_body(protocol)],
        _ => Seq::empty(),
    }
}

/// `realm` after `fact` was recorded: what the fact adds goes behind what the
/// realm held. A fact that is not admissible leaves the realm as it was.
pub open spec fn record(realm: Realm, fact: Fact) -> Realm {
    Realm {
        component_under_test: realm.component_under_test,
        components: realm.components + components_of(fact),
        imports: realm.imports.union(imports_of(fact)),
        constants: realm.constants + constants_of(fact),
        steps: realm.steps + steps_of(realm.component_under_test, fact),
        mocks: realm.mocks + mocks_of(fact),
        test_cases: realm.test_cases + test_cases_of(fact),
    }
}

/// `realm` after each of `facts` was recorded, first to last.
pub open spec fn record_all(realm: Realm, facts: Seq<Fact>) -> Realm
    decreases facts.len(),
{
    if facts.len() == 0 {
        realm
    } else {
        record(record_all(realm, facts.drop_last()), facts.last())
    }
}

/// The import lines in canonical order, one to a line, and a blank line.
pub open spec fn import_section(realm: Realm) -> Seq<char> {
    joined(in_canonical_order(realm.imports), "\n"@) + "\n\n"@
}

/// The constants in the order in which they were added, one to a line, and a
/// blank line.
pub open spec fn constant_section(realm: Realm) -> Seq<char> {
    joined(realm.constants, "\n"@) + "\n\n"@
}

/// The procedure that builds the realm: its steps in the order in which they
/// were added, between the prologue and the epilogue.
pub open spec fn realm_section(realm: Realm) -> Seq<char> {
    REALM_PROLOGUE@ + joined(realm.steps, "\n"@) + "\n"@ + REALM_EPILOGUE@
}

/// The mock skeletons in the order in which they were added, a blank line
/// after each; nothing where there is no mock.
pub open spec fn mock_section(realm: Realm) -> Seq<char> {
    if realm.mocks.len() > 0 {
        joined(realm.mocks, "\n\n"@) + "\n\n"@
    } else {
        Seq::empty()
    }
}

/// The test bodies in the order in which they were added, a blank line
/// between neighbours.
pub open spec fn test_section(realm: Realm) -> Seq<char> {
    joined(realm.test_cases, "\n\n"@) + "\n"@
}

/// The text of the harness for `realm`: its five sections in their fixed order.
pub open spec fn emitted_text(realm: Realm) -> Seq<char> {
    import_section(realm) + constant_section(realm) + realm_section(realm) + mock_section(realm)
        + test_section(realm)
}

} // verus!
