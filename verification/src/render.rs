//! Template rendering, delegated to the `hatter` crate.
//!
//! The renderer receives the template text and a flat list of string
//! bindings; what it produces is the collaborator's own affair, so the
//! wrapper promises nothing about the rendered text, and the callers' logic
//! is verified for every outcome.

use vstd::prelude::*;

verus! {

/// The error type of the `hatter` crate, carried through opaquely.
#[verifier::external_type_specification]
#[verifier::external_body]
pub struct ExHatterError(hatter::Error);

/// Relies on `hatter::Env::render`: it renders the template text against an
/// environment holding the given string bindings, set in order, and returns
/// the rendered document or the collaborator's error.
#[verifier::external_body]
pub(crate) fn render_text(bindings: &Vec<(String, String)>, source: &str) -> (r: Result<
    String,
    hatter::Error,
>) {
    let mut env = hatter::Env::new();
    for (name, value) in bindings.iter() {
        env.set(name, value.as_str());
    }
    env.render(source)
}

/// Relies on `hatter::Error`'s `details` field: the collaborator's own
/// description of what it rejected.
#[verifier::external_body]
pub(crate) fn render_error_text(error: &hatter::Error) -> (r: String) {
    error.details.clone()
}

} // verus!
