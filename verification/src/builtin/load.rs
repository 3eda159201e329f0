//! The structured-data loading helper operation.

use vstd::prelude::*;

use crate::context::Builtin;
use crate::context::Value;
use crate::errors::BuildError;
use crate::Generator;
use crate::Operation;

verus! {

/// An operation that makes the structured-data helper available to
/// templates: it binds the variables directory name and the `load` helper in
/// the generator's context. The helper itself runs in the unverified shell
/// that hosts the renderer, since it reads and decodes data files from disk.
pub struct TomlTranspiler {
    /// The directory the helper looks data files up in.
    pub source: String,
}

impl TomlTranspiler {
    /// Returns a new operation that looks for data files in the directory
    /// named by `path`.
    pub fn source(path: &str) -> (r: TomlTranspiler)
        ensures
            r.source@ == path@,
    {
        TomlTranspiler { source: path.to_owned() }
    }
}

impl Operation for TomlTranspiler {
    /// Binds the variables directory and the `load` helper in the innermost
    /// scope; records pass through untouched.
    fn apply(self, generator: &mut Generator) -> (r: Result<(), BuildError>)
        ensures
            r is Ok,
            final(generator).data == old(generator).data,
            final(generator).source == old(generator).source,
            final(generator).env@ == old(generator).env@.update(
                old(generator).env@.len() - 1,
                old(generator).env@.last().push(
                    ("variables"@, Value::Str(self.source)),
                ).push(("load"@, Value::Helper(Builtin::Load))),
            ),
    {
        generator.env.set("variables", Value::Str(self.source));
        generator.env.set("load", Value::Helper(Builtin::Load));
        proof {
            assert(generator.env@ =~= old(generator).env@.update(
                old(generator).env@.len() - 1,
                old(generator).env@.last().push(
                    ("variables"@, Value::Str(self.source)),
                ).push(("load"@, Value::Helper(Builtin::Load))),
            ));
        }
        Ok(())
    }
}

} // verus!
