//! The emitter that turns a finished realm into the text of its harness.
use crate::builder::RustTestCode;
use crate::realm::emitted_text;
use crate::snippet::{REALM_EPILOGUE, REALM_PROLOGUE};
use crate::text::join;
use vstd::prelude::*;
use vstd::string::*;

verus! {

/// Renders the realm of one builder. While it holds the builder, nothing more
/// can be recorded in it.
pub struct RustTestCodeGenerator<'a> {
    /// The builder whose realm is rendered.
    pub code: &'a RustTestCode,
}

impl<'a> RustTestCodeGenerator<'a> {
    /// The text of the harness.
    pub fn render(&self) -> (text: String)
        ensures
            text@ == emitted_text(self.code@),
    {
        let mut text = join(self.code.imports().lines(), "\n");
        text.append("\n\n");
        let constants = join(self.code.constants(), "\n");
        text.append(constants.as_str());
        text.append("\n\n");
        text.append(REALM_PROLOGUE);
        let steps = join(self.code.realm_builder_snippets(), "\n");
        text.append(steps.as_str());
        text.append("\n");
        text.append(REALM_EPILOGUE);
        if self.code.mock_functions().len() > 0 {
            let mocks = join(self.code.mock_functions(), "\n\n");
            text.append(mocks.as_str());
            text.append("\n\n");
        }
        let test_cases = join(self.code.test_cases(), "\n\n");
        text.append(test_cases.as_str());
        text.append("\n");
        assert(text@ =~= emitted_text(self.code@));
        text
    }

    /// Appends the text of the harness to `writer`, encoded as UTF-8. What
    /// `writer` held stays in front of it.
    pub fn write_file(&self, writer: &mut Vec<u8>)
        ensures
            final(writer)@ == old(writer)@ + vstd::utf8::encode_utf8(emitted_text(self.code@)),
    {
        let text = self.render();
        writer.extend_from_slice(text.as_str().as_bytes());
    }
}

} // verus!
