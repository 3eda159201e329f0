//! The template-inclusion helper operation.

use vstd::prelude::*;

use crate::context::Builtin;
use crate::context::Value;
use crate::errors::BuildError;
use crate::Generator;
use crate::Operation;

verus! {

/// An operation that makes the template-inclusion helper available to
/// templates: it binds the template directory name and the `include` helper
/// in the generator's context. The helper itself runs in the unverified
/// shell that hosts the renderer, since it reads template files from disk.
pub struct TemplateTranspiler {
    /// The directory the helper looks template files up in.
    pub source: String,
}

impl TemplateTranspiler {
    /// Returns a new operation that looks for template files in the
    /// directory named by `path`.
    pub fn source(path: &str) -> (r: TemplateTranspiler)
        ensures
            r.source@ == path@,
    {
        TemplateTranspiler { source: path.to_owned() }
    }
}

impl Operation for TemplateTranspiler {
    /// Binds the template directory and the `include` helper in the
    /// innermost scope; records pass through untouched.
    fn apply(self, generator: &mut Generator) -> (r: Result<(), BuildError>)
        ensures
            r is Ok,
            final(generator).data == old(generator).data,
            final(generator).source == old(generator).source,
            final(generator).env@ == old(generator).env@.update(
                old(generator).env@.len() - 1,
                old(generator).env@.last().push(
                    ("templates"@, Value::Str(self.source)),
                ).push(("include"@, Value::Helper(Builtin::Include))),
            ),
    {
        generator.env.set("templates", Value::Str(self.source));
        generator.env.set("include", Value::Helper(Builtin::Include));
        proof {
            assert(generator.env@ =~= old(generator).env@.update(
                old(generator).env@.len() - 1,
                old(generator).env@.last().push(
                    ("templates"@, Value::Str(self.source)),
                ).push(("include"@, Value::Helper(Builtin::Include))),
            ));
        }
        Ok(())
    }
}

} // verus!
