//! The builder that collects the facts of one realm.
use crate::import_set::ImportSet;
use crate::realm::{empty_realm, record, Component, Fact, Realm};
use crate::snippet::{
    render_child_step, render_constant_decl, render_constant_name, render_directory_step,
    render_import_line, render_local_child_step, render_mock_skeleton, render_protocol_step,
    render_storage_step, render_test_case,
};
use crate::text::texts;
use vstd::prelude::*;

verus! {

/// Why a builder did not take a fact.
#[derive(Debug, Clone, Copy, PartialEq, Eq, Structural)]
pub enum TopologyError {
    /// A component that is no mock came without the URL to launch it from.
    MissingUrl,
}

/// One component of a realm, as the builder recorded it.
#[derive(Debug, PartialEq, Eq)]
pub struct ComponentRef {
    /// Its name in the realm.
    pub name: String,
    /// The URL it is launched from; a mock has none.
    pub url: Option<String>,
    /// Whether generated code stands in for it.
    pub is_mock: bool,
}

impl View for ComponentRef {
    type V = Component;

    open spec fn view(&self) -> Component {
        Component {
            name: self.name@,
            url: match self.url {
                Some(url) => Some(url@),
                None => None,
            },
            is_mock: self.is_mock,
        }
    }
}

/// The characters of a URL that may be missing.
pub open spec fn url_text(url: Option<&str>) -> Option<Seq<char>> {
    match url {
        Some(url) => Some(url@),
        None => None,
    }
}

/// The components that a list of records stands for.
pub open spec fn components_view(components: Seq<ComponentRef>) -> Seq<Component> {
    components.map_values(|component: ComponentRef| component@)
}

/// The realm of one harness, built up fact by fact.
///
/// A builder takes facts until a generator borrows it to render the realm;
/// what it holds is then fixed for as long as the generator lives.
pub struct RustTestCode {
    imports: ImportSet,
    constants: Vec<String>,
    realm_builder_snippets: Vec<String>,
    test_case: Vec<String>,
    mock_functions: Vec<String>,
    component_under_test: String,
    components: Vec<ComponentRef>,
}

impl View for RustTestCode {
    type V = Realm;

    closed spec fn view(&self) -> Realm {
        Realm {
            component_under_test: self.component_under_test@,
            components: components_view(self.components@),
            imports: self.imports@,
            constants: texts(self.constants@),
            steps: texts(self.realm_builder_snippets@),
            mocks: texts(self.mock_functions@),
            test_cases: texts(self.test_case@),
        }
    }
}

impl RustTestCode {
    /// A builder for the realm of `component_name`, with nothing recorded yet.
    pub fn new(component_name: &str) -> (code: Self)
        ensures
            code@ == empty_realm(component_name@),
    {
        let code = RustTestCode {
            realm_builder_snippets: Vec::new(),
            constants: Vec::new(),
            imports: ImportSet::new(),
            test_case: Vec::new(),
            mock_functions: Vec::new(),
            component_under_test: component_name.to_owned(),
            components: Vec::new(),
        };
        assert(code@ =~= empty_realm(component_name@));
        code
    }

    /// Records that the harness imports `import_library`. Importing a symbol a
    /// second time changes nothing.
    pub fn add_import(&mut self, import_library: &str) -> (code: &mut Self)
        ensures
            code@ == record(old(self)@, Fact::Import { symbol: import_library@ }),
            *final(self) == *final(code),
    {
        self.imports.insert(render_import_line(import_library));
        assert(self@ =~= record(old(self)@, Fact::Import { symbol: import_library@ }));
        self
    }

    /// Records the component `component_name`.
    ///
    /// A mock becomes a local child served by its entry point; its URL, if one
    /// is given, is not kept. Any other component needs a URL: it gets a
    /// constant that holds the URL and becomes a child launched from it.
    /// Without a URL it is refused, and nothing is recorded.
    pub fn add_component(&mut self, component_name: &str, url: Option<&str>, mock: bool) -> (result:
        Result<&mut Self, TopologyError>)
        ensures
            match result {
                Ok(code) => {
                    &&& mock || url is Some
                    &&& code@ == record(
                        old(self)@,
                        Fact::Component {
                            name: component_name@,
                            url: url_text(url),
                            is_mock: mock,
                        },
                    )
                    &&& *final(self) == *final(code)
                },
                Err(error) => {
                    &&& !mock && url is None
                    &&& error == TopologyError::MissingUrl
                    &&& *final(self) == *old(self)
                },
            },
    {
        let ghost fact = Fact::Component {
            name: component_name@,
            url: url_text(url),
            is_mock: mock,
        };
        if mock {
            self.components.push(
                ComponentRef { name: component_name.to_owned(), url: None, is_mock: true },
            );
            self.realm_builder_snippets.push(render_local_child_step(component_name));
            assert(self@ =~= record(old(self)@, fact));
            Ok(self)
        } else {
            match url {
                Some(url) => {
                    let constant = render_constant_name(component_name);
                    self.components.push(
                        ComponentRef {
                            name: component_name.to_owned(),
                            url: Some(url.to_owned()),
                            is_mock: false,
                        },
                    );
                    self.constants.push(render_constant_decl(constant.as_str(), url));
                    self.realm_builder_snippets.push(
                        render_child_step(component_name, constant.as_str()),
                    );
                    assert(self@ =~= record(old(self)@, fact));
                    Ok(self)
                },
                None => Err(TopologyError::MissingUrl),
            }
        }
    }

    /// Records that the mock `component_name` needs an entry point. The name
    /// of the entry point is the one that the mock's step in the realm calls.
    pub fn add_mock_impl(&mut self, component_name: &str, protocol: &str) -> (code: &mut Self)
        ensures
            code@ == record(
                old(self)@,
                Fact::MockImpl { component: component_name@, protocol: protocol@ },
            ),
            *final(self) == *final(code),
    {
        self.mock_functions.push(render_mock_skeleton(component_name));
        assert(self@ =~= record(
            old(self)@,
            Fact::MockImpl { component: component_name@, protocol: protocol@ },
        ));
        self
    }

    /// Records a route that carries `protocol` from `source` to each of
    /// `targets`, in their order.
    pub fn add_protocol(&mut self, protocol: &str, source: &str, targets: Vec<String>) -> (code:
        &mut Self)
        ensures
            code@ == record(
                old(self)@,
                Fact::Protocol { protocol: protocol@, source: source@, targets: texts(targets@) },
            ),
            *final(self) == *final(code),
    {
        let step = render_protocol_step(
            self.component_under_test.as_str(),
            protocol,
            source,
            &targets,
        );
        self.realm_builder_snippets.push(step);
        assert(self@ =~= record(
            old(self)@,
            Fact::Protocol { protocol: protocol@, source: source@, targets: texts(targets@) },
        ));
        self
    }

    /// Records a route that carries the directory `dir_name` at `dir_path`,
    /// readable and writable, from the realm's parent to each of `targets`.
    pub fn add_directory(&mut self, dir_name: &str, dir_path: &str, targets: Vec<String>) -> (code:
        &mut Self)
        ensures
            code@ == record(
                old(self)@,
                Fact::Directory { name: dir_name@, path: dir_path@, targets: texts(targets@) },
            ),
            *final(self) == *final(code),
    {
        let step = render_directory_step(
            self.component_under_test.as_str(),
            dir_name,
            dir_path,
            &targets,
        );
        self.realm_builder_snippets.push(step);
        assert(self@ =~= record(
            old(self)@,
            Fact::Directory { name: dir_name@, path: dir_path@, targets: texts(targets@) },
        ));
        self
    }

    /// Records a route that carries the storage `storage_name` at
    /// `storage_path` from the realm's parent to each of `targets`.
    pub fn add_storage(
        &mut self,
        storage_name: &str,
        storage_path: &str,
        targets: Vec<String>,
    ) -> (code: &mut Self)
        ensures
            code@ == record(
                old(self)@,
                Fact::Storage {
                    name: storage_name@,
                    path: storage_path@,
                    targets: texts(targets@),
                },
            ),
            *final(self) == *final(code),
    {
        let step = render_storage_step(
            self.component_under_test.as_str(),
            storage_name,
            storage_path,
            &targets,
        );
        self.realm_builder_snippets.push(step);
        assert(self@ =~= record(
            old(self)@,
            Fact::Storage { name: storage_name@, path: storage_path@, targets: texts(targets@) },
        ));
        self
    }

    /// Records that `protocol` gets a test of its own.
    pub fn add_test_case(&mut self, protocol: &str) -> (code: &mut Self)
        ensures
            code@ == record(old(self)@, Fact::TestCase { protocol: protocol@ }),
            *final(self) == *final(code),
    {
        self.test_case.push(render_test_case(protocol));
        assert(self@ =~= record(old(self)@, Fact::TestCase { protocol: protocol@ }));
        self
    }

    /// The import lines.
    pub fn imports(&self) -> (imports: &ImportSet)
        ensures
            imports@ == self@.imports,
    {
        &self.imports
    }

    /// The declarations of the constants, in the order in which they were added.
    pub fn constants(&self) -> (constants: &Vec<String>)
        ensures
            texts(constants@) == self@.constants,
    {
        &self.constants
    }

    /// The steps of the procedure that builds the realm, in the order in which
    /// they were added.
    pub fn realm_builder_snippets(&self) -> (steps: &Vec<String>)
        ensures
            texts(steps@) == self@.steps,
    {
        &self.realm_builder_snippets
    }

    /// The mock skeletons, in the order in which they were added.
    pub fn mock_functions(&self) -> (mocks: &Vec<String>)
        ensures
            texts(mocks@) == self@.mocks,
    {
        &self.mock_functions
    }

    /// The test bodies, in the order in which they were added.
    pub fn test_cases(&self) -> (test_cases: &Vec<String>)
        ensures
            texts(test_cases@) == self@.test_cases,
    {
        &self.test_case
    }

    /// The name of the component that the harness tests.
    pub fn component_under_test(&self) -> (name: &str)
        ensures
            name@ == self@.component_under_test,
    {
        self.component_under_test.as_str()
    }

    /// The components, in the order in which they were added.
    pub fn components(&self) -> (components: &Vec<ComponentRef>)
        ensures
            components_view(components@) == self@.components,
    {
        &self.components
    }
}

} // verus!
