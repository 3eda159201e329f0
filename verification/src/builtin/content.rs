//! The markdown helper operation.

use vstd::prelude::*;

use crate::context::Builtin;
use crate::context::Value;
use crate::errors::BuildError;
use crate::Generator;
use crate::Operation;

verus! {

/// An operation that makes the markdown helper available to templates: it
/// binds the markdown directory name and the `content` helper in the
/// generator's context. The helper itself runs in the unverified shell that
/// hosts the renderer, since it reads markdown files from disk.
pub struct MarkdownTranspiler {
    /// The directory the helper looks markdown files up in.
    pub source: String,
}

impl MarkdownTranspiler {
    /// Returns a new operation that looks for markdown files in the
    /// directory named by `path`.
    pub fn source(path: &str) -> (r: MarkdownTranspiler)
        ensures
            r.source@ == path@,
    {
        MarkdownTranspiler { source: path.to_owned() }
    }
}

impl Operation for MarkdownTranspiler {
    /// Binds the markdown directory and the `content` helper in the
    /// innermost scope; records pass through untouched.
    fn apply(self, generator: &mut Generator) -> (r: Result<(), BuildError>)
        ensures
            r is Ok,
            final(generator).data == old(generator).data,
            final(generator).source == old(generator).source,
            final(generator).env@ == old(generator).env@.update(
                old(generator).env@.len() - 1,
                old(generator).env@.last().push(
                    ("markdown"@, Value::Str(self.source)),
                ).push(("content"@, Value::Helper(Builtin::Content))),
            ),
    {
        generator.env.set("markdown", Value::Str(self.source));
        generator.env.set("content", Value::Helper(Builtin::Content));
        proof {
            assert(generator.env@ =~= old(generator).env@.update(
                old(generator).env@.len() - 1,
                old(generator).env@.last().push(
                    ("markdown"@, Value::Str(self.source)),
                ).push(("content"@, Value::Helper(Builtin::Content))),
            ));
        }
        Ok(())
    }
}

} // verus!
