//! The template transpiling operation.

use vstd::prelude::*;

use crate::errors::BuildError;
use crate::paths::ext_matches;
use crate::paths::ext_of;
use crate::paths::replace_ext;
use crate::paths::with_ext;
use crate::render::render_error_text;
use crate::render::render_text;
use crate::text::bytes_to_text;
use crate::Bytes;
use crate::Generator;
use crate::Operation;

verus! {

/// An operation that transpiles template (`.hat`) records into HTML records.
pub struct HatterTranspiler {}

impl HatterTranspiler {
    /// Returns a new transpiler.
    pub fn new() -> (r: HatterTranspiler) {
        HatterTranspiler {  }
    }
}

/// How one record leaves the transpiler: a `.hat` record becomes an `.html`
/// record holding some rendered document, and any other record is untouched.
pub open spec fn transpiled_record(before: Bytes, after: Bytes) -> bool {
    if ext_of(before.path@) == Some("hat"@) {
        &&& after.path@ == replace_ext(before.path@, "html"@)
        &&& vstd::utf8::valid_utf8(after.raw@)
    } else {
        after.path@ == before.path@ && after.raw@ == before.raw@
    }
}

/// Extension rewrite: every record routed through the transpiler leaves
/// with the target extension, whatever source extension selected it.
pub proof fn lemma_transpiled_extension(before: Bytes, after: Bytes)
    requires
        transpiled_record(before, after),
        ext_of(before.path@) == Some("hat"@),
    ensures
        ext_of(after.path@) == Some("html"@),
{
    reveal_strlit("html");
    assert(!"html"@.contains('.')) by {
        if "html"@.contains('.') {
            let k = choose|k: int| 0 <= k < "html"@.len() && "html"@[k] == '.';
        }
    }
    assert(!"html"@.contains('/')) by {
        if "html"@.contains('/') {
            let k = choose|k: int| 0 <= k < "html"@.len() && "html"@[k] == '/';
        }
    }
    crate::paths::lemma_replace_ext_keeps_new_ext(before.path@, "html"@);
}

impl Operation for HatterTranspiler {
    /// Renders every `.hat` record against the context's string bindings and
    /// replaces its content and extension; all other records pass through
    /// untouched. The first record the collaborator rejects, or whose bytes
    /// are not UTF-8 text, aborts the operation with a transform error
    /// naming that record, leaving the generator as it was.
    #[verifier::loop_isolation(false)]
    fn apply(self, generator: &mut Generator) -> (r: Result<(), BuildError>)
        ensures
            r is Ok ==> {
                &&& final(generator).env == old(generator).env
                &&& final(generator).source == old(generator).source
                &&& final(generator).data@.len() == old(generator).data@.len()
                &&& forall|i: int|
                    0 <= i < old(generator).data@.len() ==> transpiled_record(
                        old(generator).data@[i],
                        #[trigger] final(generator).data@[i],
                    )
                &&& forall|i: int|
                    0 <= i < old(generator).data@.len() ==> (ext_of(
                        (#[trigger] old(generator).data@[i]).path@,
                    ) == Some("hat"@) ==> vstd::utf8::valid_utf8(
                        old(generator).data@[i].raw@,
                    ))
            },
            r matches Err(e) ==> {
                &&& *final(generator) == *old(generator)
                &&& e matches BuildError::Transform { path, .. }
                &&& exists|i: int|
                    0 <= i < old(generator).data@.len() && ext_of(
                        (#[trigger] old(generator).data@[i]).path@,
                    ) == Some("hat"@) && path@ == old(generator).data@[i].path@
            },
    {
        let bindings = generator.env.string_bindings();
        let mut new_data: Vec<Bytes> = Vec::new();
        let mut i: usize = 0;
        while i < generator.data.len()
            invariant
                i <= generator.data@.len(),
                *generator == *old(generator),
                new_data@.len() == i,
                forall|k: int|
                    0 <= k < i ==> transpiled_record(
                        generator.data@[k],
                        #[trigger] new_data@[k],
                    ),
                forall|k: int|
                    0 <= k < i ==> (ext_of((#[trigger] generator.data@[k]).path@) == Some(
                        "hat"@,
                    ) ==> vstd::utf8::valid_utf8(generator.data@[k].raw@)),
            decreases generator.data@.len() - i,
        {
            if ext_matches(generator.data[i].path.as_str(), "hat") {
                match bytes_to_text(generator.data[i].raw.as_slice()) {
                    Some(text) => {
                        match render_text(&bindings, text) {
                            Ok(html) => {
                                let rendered = Bytes {
                                    path: with_ext(generator.data[i].path.as_str(), "html"),
                                    raw: html.as_str().as_bytes_vec(),
                                };
                                proof {
                                    vstd::utf8::encode_utf8_valid_utf8(html@);
                                }
                                new_data.push(rendered);
                            },
                            Err(e) => {
                                return Err(
                                    BuildError::Transform {
                                        path: generator.data[i].path.clone(),
                                        detail: render_error_text(&e),
                                    },
                                );
                            },
                        }
                    },
                    None => {
                        return Err(
                            BuildError::Transform {
                                path: generator.data[i].path.clone(),
                                detail: "file content is not valid UTF-8 text".to_owned(),
                            },
                        );
                    },
                }
            } else {
                let untouched = Bytes {
                    path: generator.data[i].path.clone(),
                    raw: crate::copy_bytes(&generator.data[i].raw),
                };
                new_data.push(untouched);
            }
            i += 1;
        }
        generator.data = new_data;
        Ok(())
    }
}

} // verus!
