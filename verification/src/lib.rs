//! Core engine of a small static-site generator.
//!
//! The library reads nothing from disk itself: callers hand it plain values
//! (paths as strings, file contents as bytes), and it decides what to do with
//! them — which rule governs each file, where each record lands in the output
//! tree, and what a transform rewrites. The decisions are stated in contracts
//! and verified; the thin shell that walks directories and writes files lives
//! outside the library.

use vstd::prelude::*;

pub mod builtin;
pub mod config;
pub mod context;
pub mod errors;
pub mod globs;
pub mod paths;
pub mod plan;
mod render;
mod text;

pub use plan::plan_with;
pub use plan::PlanEntry;
pub use config::Config;
pub use config::FileRule;
pub use context::Builtin;
pub use context::Context;
pub use context::Value;
pub use errors::BuildError;

use crate::context::Value as ContextValue;
use crate::paths::descends;
use crate::paths::join_path;
use crate::paths::join_spec;
use crate::paths::rel_part;
use crate::paths::strip_prefix;

verus! {

/// A sequence of bytes originating from a file path.
#[derive(Debug)]
pub struct Bytes {
    /// Origin of the byte content. It may not name an existing file, but it
    /// must lie under a generator's input directory to be projected into the
    /// output tree.
    pub path: String,
    /// Raw byte content of a file.
    pub raw: Vec<u8>,
}

/// The views of a sequence of records: each record's path and content.
pub open spec fn records_view(s: Seq<Bytes>) -> Seq<(Seq<char>, Seq<u8>)> {
    s.map_values(|b: Bytes| (b.path@, b.raw@))
}

/// A fresh copy of a byte vector.
fn copy_bytes(src: &Vec<u8>) -> (r: Vec<u8>)
    ensures
        r@ == src@,
{
    let mut out: Vec<u8> = Vec::new();
    let mut i: usize = 0;
    while i < src.len()
        invariant
            i <= src@.len(),
            out@ == src@.take(i as int),
        decreases src@.len() - i,
    {
        out.push(src[i]);
        i += 1;
        proof {
            assert(out@ =~= src@.take(i as int));
        }
    }
    proof {
        assert(src@.take(src@.len() as int) =~= src@);
    }
    out
}

/// An operation that can be applied to the data in a generator.
///
/// Operations are the pipeline's extension point: each consumes the current
/// record set and context and produces the next, making no assumption about
/// which operations ran before or after it.
pub trait Operation: Sized {
    /// Applies a modification to the data in the specified generator.
    fn apply(self, generator: &mut Generator) -> (r: Result<(), BuildError>)
        requires
            old(generator).wf(),
        ensures
            final(generator).wf(),
    ;
}

/// A site generator: records enumerated under an input directory, the
/// context that operations and transforms see, and the input root the
/// records descend from.
#[derive(Debug)]
pub struct Generator {
    /// Bindings visible to operations and transforms.
    pub env: Context,
    /// The records flowing through the pipeline.
    pub data: Vec<Bytes>,
    /// The input directory the records descend from.
    pub source: String,
}

impl Generator {
    /// A generator's context always holds at least its base scope.
    pub open spec fn wf(&self) -> bool {
        self.env@.len() >= 1
    }

    /// Assembles a generator from enumeration results, all-or-nothing: the
    /// first failed entry aborts the whole construction with its error, so a
    /// silently skipped file cannot produce an incomplete site.
    #[verifier::loop_isolation(false)]
    pub fn from_entries(source: String, entries: Vec<Result<Bytes, BuildError>>) -> (r:
        Result<Generator, BuildError>)
        ensures
            (r is Ok) <==> (forall|i: int|
                0 <= i < entries@.len() ==> (#[trigger] entries@[i]) is Ok),
            r matches Ok(g) ==> {
                &&& g.wf()
                &&& g.env@ == seq![Seq::<(Seq<char>, ContextValue)>::empty()]
                &&& g.source == source
                &&& g.data@.len() == entries@.len()
                &&& forall|i: int|
                    0 <= i < entries@.len() ==> ((#[trigger] entries@[i]) matches Ok(b)
                        && g.data@[i] == b)
            },
            r matches Err(e) ==> exists|i: int|
                {
                    &&& 0 <= i < entries@.len()
                    &&& (#[trigger] entries@[i]) matches Err(e2) && e == e2
                    &&& forall|j: int| 0 <= j < i ==> entries@[j] is Ok
                },
    {
        let ghost all = entries@;
        let mut rest = entries;
        let mut data: Vec<Bytes> = Vec::new();
        proof {
            assert(rest@ =~= all.skip(0));
        }
        while rest.len() > 0
            invariant
                all.len() == data@.len() + rest@.len(),
                rest@ == all.skip(data@.len() as int),
                forall|i: int|
                    0 <= i < data@.len() ==> ((#[trigger] all[i]) matches Ok(b)
                        && data@[i] == b),
            decreases rest@.len(),
        {
            let ghost k = data@.len() as int;
            proof {
                assert(rest@[0] == all[k]);
                assert(all.skip(k).skip(1) =~= all.skip(k + 1));
            }
            let entry = rest.remove(0);
            match entry {
                Ok(b) => {
                    data.push(b);
                },
                Err(e) => {
                    proof {
                        assert(all == entries@);
                        assert(entries@[k] matches Err(e2) && e == e2);
                        assert(forall|j: int| 0 <= j < k ==> entries@[j] is Ok);
                    }
                    return Err(e);
                },
            }
        }
        proof {
            assert(all.len() == data@.len());
        }
        Ok(Generator { env: Context::new(), data, source })
    }

    /// Applies the specified operation to the data.
    pub fn apply<O: Operation>(&mut self, operation: O) -> (r: Result<(), BuildError>)
        requires
            old(self).wf(),
        ensures
            final(self).wf(),
    {
        operation.apply(self)
    }

    /// Projects every record to the output root: the verified core of
    /// writing the output tree. Bytes are kept exactly; each record's path
    /// relative to the input root is re-rooted under `out_dir`; a record
    /// that does not descend from the input root fails loudly instead of
    /// being silently truncated.
    pub fn destination_records(&self, out_dir: &str) -> (r: Result<Vec<Bytes>, BuildError>)
        ensures
            (r is Ok) <==> (forall|i: int|
                0 <= i < self.data@.len() ==> descends(
                    (#[trigger] self.data@[i]).path@,
                    self.source@,
                )),
            r matches Ok(out) ==> {
                &&& out@.len() == self.data@.len()
                &&& forall|i: int|
                    0 <= i < out@.len() ==> (#[trigger] out@[i]).path@ == join_spec(
                        out_dir@,
                        rel_part(self.data@[i].path@, self.source@),
                    )
                &&& forall|i: int|
                    0 <= i < out@.len() ==> (#[trigger] out@[i]).raw@ == self.data@[i].raw@
                &&& forall|i: int|
                    0 <= i < out@.len() ==> descends((#[trigger] out@[i]).path@, out_dir@)
                        && rel_part(out@[i].path@, out_dir@) == rel_part(
                        self.data@[i].path@,
                        self.source@,
                    )
            },
            r matches Err(e) ==> {
                &&& e matches BuildError::Path { path, .. }
                &&& exists|i: int|
                    0 <= i < self.data@.len() && path@ == (#[trigger] self.data@[i]).path@
                        && !descends(self.data@[i].path@, self.source@)
            },
    {
        let mut out: Vec<Bytes> = Vec::new();
        let mut i: usize = 0;
        while i < self.data.len()
            invariant
                i <= self.data@.len(),
                out@.len() == i,
                forall|k: int|
                    0 <= k < i ==> descends((#[trigger] self.data@[k]).path@, self.source@),
                forall|k: int|
                    0 <= k < i ==> (#[trigger] out@[k]).path@ == join_spec(
                        out_dir@,
                        rel_part(self.data@[k].path@, self.source@),
                    ),
                forall|k: int|
                    0 <= k < i ==> (#[trigger] out@[k]).raw@ == self.data@[k].raw@,
                forall|k: int|
                    0 <= k < i ==> descends((#[trigger] out@[k]).path@, out_dir@)
                        && rel_part(out@[k].path@, out_dir@) == rel_part(
                        self.data@[k].path@,
                        self.source@,
                    ),
            decreases self.data@.len() - i,
        {
            match strip_prefix(self.data[i].path.as_str(), self.source.as_str()) {
                Some(rel) => {
                    let projected = Bytes {
                        path: join_path(out_dir, rel.as_str()),
                        raw: copy_bytes(&self.data[i].raw),
                    };
                    proof {
                        crate::paths::lemma_projection_keeps_relative_path(
                            self.data@[i as int].path@,
                            self.source@,
                            out_dir@,
                        );
                    }
                    out.push(projected);
                },
                None => {
                    return Err(
                        BuildError::Path {
                            path: self.data[i].path.clone(),
                            detail: "record does not descend from the input directory"
                                .to_owned(),
                        },
                    );
                },
            }
            i += 1;
        }
        Ok(out)
    }
}

} // verus!
