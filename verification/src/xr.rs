pub mod parse_ruby;
pub mod ruby_sources;
pub mod source_char;

use vstd::prelude::*;

use self::parse_ruby::RubyEngine;

verus! {

/// The ways loading Ruby sources fails.
#[derive(Debug, PartialEq, Eq)]
pub enum XrError {
    /// Loading is not done yet: every file gives this.
    Undone,
}

/// Loads the Ruby source `content`, read from `path`, into a new engine.
pub fn app(path: &str, content: &str) -> (r: Result<(), XrError>)
    ensures
        r == Err::<(), XrError>(XrError::Undone),
{
    let mut rb = parse_ruby::new();
    proof {
        vstd::utf8::encode_utf8_valid_utf8(content@);
    }
    rb.load_as_file(path, content.as_bytes())
}

} // verus!
