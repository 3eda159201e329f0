//! The asset-copying operation.

use vstd::prelude::*;

use crate::errors::BuildError;
use crate::paths::descends;
use crate::paths::join_path;
use crate::paths::join_spec;
use crate::paths::rel_part;
use crate::paths::str_eq;
use crate::paths::strip_prefix;
use crate::records_view;
use crate::Bytes;
use crate::Generator;
use crate::Operation;

verus! {

/// An operation that copies files from outside the input directory into the
/// generator, re-rooted under a chosen destination.
///
/// Each `(from, to)` mapping copies either the single file `from`, or every
/// supplied record below the directory `from`, to `to` relative to the
/// generator's input directory, preserving the sub-structure. The caller
/// that enumerates the filesystem supplies the records for each `from` root
/// before the operation is applied.
pub struct AssetCopier {
    /// The registered `(from, to)` mappings, one per `from`, in order.
    pub paths: Vec<(String, String)>,
    /// The enumerated records supplied for each `from` root.
    pub files: Vec<(String, Vec<Bytes>)>,
}

/// `mappings` with any entry keyed `from` removed, keeping the order of the
/// others.
pub open spec fn without_key(
    mappings: Seq<(String, String)>,
    from: Seq<char>,
) -> Seq<(String, String)>
    decreases mappings.len(),
{
    if mappings.len() == 0 {
        Seq::empty()
    } else if mappings.last().0@ == from {
        without_key(mappings.drop_last(), from)
    } else {
        without_key(mappings.drop_last(), from).push(mappings.last())
    }
}

/// The records supplied for `from`: the first supplied set under that key.
pub open spec fn find_supply(
    files: Seq<(String, Vec<Bytes>)>,
    from: Seq<char>,
) -> Option<Vec<Bytes>>
    decreases files.len(),
{
    if files.len() == 0 {
        None
    } else if files.first().0@ == from {
        Some(files.first().1)
    } else {
        find_supply(files.drop_first(), from)
    }
}

/// A supplied set that is the single file `from` itself.
pub open spec fn single_file(from: Seq<char>, recs: Seq<(Seq<char>, Seq<u8>)>) -> bool {
    recs.len() == 1 && recs[0].0 == from
}

/// Whether every supplied record of a mapping can be re-rooted: the
/// single-file case, or every record descending from `from`.
pub open spec fn mapping_ok(from: Seq<char>, recs: Seq<(Seq<char>, Seq<u8>)>) -> bool {
    single_file(from, recs) || forall|i: int|
        0 <= i < recs.len() ==> descends((#[trigger] recs[i]).0, from)
}

/// Where the records of one mapping land: the single file goes to
/// `source/to`; a directory's records keep their position below `from`,
/// re-rooted at `source/to`.
pub open spec fn project_mapping(
    source: Seq<char>,
    from: Seq<char>,
    to: Seq<char>,
    recs: Seq<(Seq<char>, Seq<u8>)>,
) -> Seq<(Seq<char>, Seq<u8>)> {
    if single_file(from, recs) {
        seq![(join_spec(source, to), recs[0].1)]
    } else {
        Seq::new(
            recs.len(),
            |i: int|
                (join_spec(source, join_spec(to, rel_part(recs[i].0, from))), recs[i].1),
        )
    }
}

/// The first record of a mapping that cannot be re-rooted below `from`.
pub open spec fn first_escaping(
    from: Seq<char>,
    recs: Seq<(Seq<char>, Seq<u8>)>,
) -> Seq<char>
    decreases recs.len(),
{
    if recs.len() == 0 {
        Seq::empty()
    } else if !descends(recs.first().0, from) {
        recs.first().0
    } else {
        first_escaping(from, recs.drop_first())
    }
}

/// What applying the copier computes: the projected records of every
/// mapping in registration order, or the first failure — a mapping with no
/// supplied records, reported as an access failure on `from`, or a record
/// that cannot be re-rooted, reported as a path failure on that record.
pub open spec fn copier_result(
    source: Seq<char>,
    mappings: Seq<(String, String)>,
    files: Seq<(String, Vec<Bytes>)>,
) -> Result<Seq<(Seq<char>, Seq<u8>)>, (bool, Seq<char>)>
    decreases mappings.len(),
{
    if mappings.len() == 0 {
        Ok(Seq::empty())
    } else {
        match copier_result(source, mappings.drop_last(), files) {
            Err(e) => Err(e),
            Ok(prefix) => {
                let from = mappings.last().0@;
                let to = mappings.last().1@;
                match find_supply(files, from) {
                    None => Err((true, from)),
                    Some(recs) => {
                        let rv = records_view(recs@);
                        if mapping_ok(from, rv) {
                            Ok(prefix + project_mapping(source, from, to, rv))
                        } else {
                            Err((false, first_escaping(from, rv)))
                        }
                    },
                }
            },
        }
    }
}

/// A failure while handling one mapping decides the whole copier result.
proof fn lemma_copier_error_persists(
    source: Seq<char>,
    mappings: Seq<(String, String)>,
    files: Seq<(String, Vec<Bytes>)>,
    i: int,
)
    requires
        0 <= i <= mappings.len(),
        copier_result(source, mappings.take(i), files) is Err,
    ensures
        copier_result(source, mappings, files) == copier_result(
            source,
            mappings.take(i),
            files,
        ),
    decreases mappings.len() - i,
{
    if i == mappings.len() {
        assert(mappings.take(i) =~= mappings);
    } else {
        assert(mappings.take(i + 1).drop_last() =~= mappings.take(i));
        lemma_copier_error_persists(source, mappings, files, i + 1);
    }
}

/// The first record that fails to re-root is the one `first_escaping` names.
proof fn lemma_first_escaping_at(
    from: Seq<char>,
    recs: Seq<(Seq<char>, Seq<u8>)>,
    j: int,
)
    requires
        0 <= j < recs.len(),
        !descends(recs[j].0, from),
        forall|k: int| 0 <= k < j ==> descends((#[trigger] recs[k]).0, from),
    ensures
        first_escaping(from, recs) == recs[j].0,
    decreases recs.len(),
{
    if j == 0 {
    } else {
        assert(descends(recs.first().0, from));
        assert forall|k: int| 0 <= k < j - 1 implies descends(
            (#[trigger] recs.drop_first()[k]).0,
            from,
        ) by {
            assert(recs.drop_first()[k] == recs[k + 1]);
        }
        assert(recs.drop_first()[j - 1] == recs[j]);
        lemma_first_escaping_at(from, recs.drop_first(), j - 1);
    }
}

/// Finds the first supplied record set for `from`.
#[verifier::loop_isolation(false)]
fn find_records<'a>(files: &'a Vec<(String, Vec<Bytes>)>, from: &str) -> (r: Option<
    &'a Vec<Bytes>,
>)
    ensures
        r matches Some(v) ==> find_supply(files@, from@) == Some(*v),
        r is None ==> find_supply(files@, from@) is None,
{
    let mut j: usize = 0;
    proof {
        assert(files@.skip(0) =~= files@);
    }
    while j < files.len()
        invariant
            j <= files@.len(),
            find_supply(files@, from@) == find_supply(files@.skip(j as int), from@),
        decreases files@.len() - j,
    {
        proof {
            assert(files@.skip(j as int).first() == files@[j as int]);
            assert(files@.skip(j as int).drop_first() =~= files@.skip(j as int + 1));
        }
        if str_eq(files[j].0.as_str(), from) {
            return Some(&files[j].1);
        }
        j += 1;
    }
    None
}

impl AssetCopier {
    /// Returns a new copier with no mappings.
    pub fn new() -> (r: AssetCopier)
        ensures
            r.paths@ == Seq::<(String, String)>::empty(),
            r.files@ == Seq::<(String, Vec<Bytes>)>::empty(),
    {
        AssetCopier { paths: Vec::new(), files: Vec::new() }
    }

    /// Registers a copy of the file or directory `from` to the path `to`
    /// relative to the generator's input directory, replacing any earlier
    /// mapping for the same `from`.
    #[verifier::loop_isolation(false)]
    pub fn copy(&mut self, from: &str, to: &str)
        ensures
            final(self).files == old(self).files,
            final(self).paths@.len() == without_key(old(self).paths@, from@).len() + 1,
            final(self).paths@.drop_last() == without_key(old(self).paths@, from@),
            final(self).paths@.last().0@ == from@,
            final(self).paths@.last().1@ == to@,
    {
        let mut kept: Vec<(String, String)> = Vec::new();
        let mut i: usize = 0;
        proof {
            assert(self.paths@.take(0) =~= Seq::<(String, String)>::empty());
        }
        while i < self.paths.len()
            invariant
                i <= self.paths@.len(),
                kept@ == without_key(self.paths@.take(i as int), from@),
            decreases self.paths@.len() - i,
        {
            proof {
                assert(self.paths@.take(i as int + 1).drop_last() =~= self.paths@.take(
                    i as int,
                ));
                assert(self.paths@.take(i as int + 1).last() == self.paths@[i as int]);
            }
            if !str_eq(self.paths[i].0.as_str(), from) {
                let entry = (self.paths[i].0.clone(), self.paths[i].1.clone());
                kept.push(entry);
                proof {
                    assert(kept@ =~= without_key(self.paths@.take(i as int + 1), from@));
                }
            }
            i += 1;
        }
        proof {
            assert(self.paths@.take(self.paths@.len() as int) =~= self.paths@);
        }
        kept.push((from.to_owned(), to.to_owned()));
        self.paths = kept;
        proof {
            assert(self.paths@.drop_last() =~= without_key(old(self).paths@, from@));
        }
    }

    /// Supplies the enumerated records for the root `from`: the single
    /// record of a file, or every record found below a directory. The first
    /// supplied set for a root wins.
    pub fn supply(&mut self, from: &str, records: Vec<Bytes>)
        ensures
            final(self).paths == old(self).paths,
            final(self).files@.len() == old(self).files@.len() + 1,
            final(self).files@.drop_last() == old(self).files@,
            final(self).files@.last().0@ == from@,
            final(self).files@.last().1 == records,
    {
        self.files.push((from.to_owned(), records));
        proof {
            assert(self.files@.drop_last() =~= old(self).files@);
        }
    }
}

impl Operation for AssetCopier {
    /// Appends the projected records of every mapping to the generator's
    /// data, in registration order. The first mapping without supplied
    /// records aborts with an access error naming its `from` root; the first
    /// record that cannot be re-rooted aborts with a path error naming it;
    /// either way the generator is left as it was.
    #[verifier::loop_isolation(false)]
    fn apply(self, generator: &mut Generator) -> (r: Result<(), BuildError>)
        ensures
            (r is Ok) <==> copier_result(
                old(generator).source@,
                self.paths@,
                self.files@,
            ) is Ok,
            r is Ok ==> {
                &&& final(generator).env == old(generator).env
                &&& final(generator).source == old(generator).source
                &&& (copier_result(old(generator).source@, self.paths@, self.files@)
                    matches Ok(extra) && records_view(final(generator).data@)
                    == records_view(old(generator).data@) + extra)
            },
            r matches Err(e) ==> {
                &&& *final(generator) == *old(generator)
                &&& (copier_result(old(generator).source@, self.paths@, self.files@)
                    matches Err(fault) && (fault.0 ==> (e matches BuildError::Io {
                    path,
                    ..
                } && path@ == fault.1)) && (!fault.0 ==> (e matches BuildError::Path {
                    path,
                    ..
                } && path@ == fault.1)))
            },
    {
        let mut fresh: Vec<Bytes> = Vec::new();
        let mut i: usize = 0;
        proof {
            assert(self.paths@.take(0) =~= Seq::<(String, String)>::empty());
            assert(records_view(fresh@) =~= Seq::<(Seq<char>, Seq<u8>)>::empty());
        }
        while i < self.paths.len()
            invariant
                i <= self.paths@.len(),
                *generator == *old(generator),
                copier_result(generator.source@, self.paths@.take(i as int), self.files@)
                    == Ok::<_, (bool, Seq<char>)>(records_view(fresh@)),
            decreases self.paths@.len() - i,
        {
            proof {
                assert(self.paths@.take(i as int + 1).drop_last() =~= self.paths@.take(
                    i as int,
                ));
                assert(self.paths@.take(i as int + 1).last() == self.paths@[i as int]);
            }
            let ghost done = records_view(fresh@);
            match find_records(&self.files, self.paths[i].0.as_str()) {
                None => {
                    proof {
                        lemma_copier_error_persists(
                            generator.source@,
                            self.paths@,
                            self.files@,
                            i as int + 1,
                        );
                    }
                    return Err(
                        BuildError::Io {
                            path: self.paths[i].0.clone(),
                            detail: "no records were supplied for this mapping".to_owned(),
                        },
                    );
                },
                Some(recs) => {
                    let ghost rv = records_view(recs@);
                    proof {
                        assert(rv.len() == recs@.len());
                    }
                    let single: bool;
                    if recs.len() == 1 {
                        single = str_eq(recs[0].path.as_str(), self.paths[i].0.as_str());
                        proof {
                            assert(rv[0] == (recs@[0].path@, recs@[0].raw@));
                        }
                    } else {
                        single = false;
                    }
                    proof {
                        assert(single == single_file(self.paths@[i as int].0@, rv));
                    }
                    if single {
                        let projected = Bytes {
                            path: join_path(
                                generator.source.as_str(),
                                self.paths[i].1.as_str(),
                            ),
                            raw: crate::copy_bytes(&recs[0].raw),
                        };
                        fresh.push(projected);
                        proof {
                            assert(records_view(fresh@) =~= done + project_mapping(
                                generator.source@,
                                self.paths@[i as int].0@,
                                self.paths@[i as int].1@,
                                rv,
                            ));
                        }
                    } else {
                        let mut j: usize = 0;
                        let ghost base = fresh@.len() as int;
                        while j < recs.len()
                            invariant
                                j <= recs@.len(),
                                fresh@.len() == base + j,
                                records_view(fresh@).take(base) == done,
                                forall|k: int|
                                    0 <= k < j ==> descends((#[trigger] rv[k]).0, self.paths@[
                                        i as int
                                    ].0@),
                                forall|k: int|
                                    0 <= k < j ==> records_view(fresh@)[base + k]
                                        == (join_spec(
                                        generator.source@,
                                        join_spec(
                                            self.paths@[i as int].1@,
                                            rel_part(rv[k].0, self.paths@[i as int].0@),
                                        ),
                                    ), rv[k].1),
                            decreases recs@.len() - j,
                        {
                            proof {
                                assert(rv[j as int] == (recs@[j as int].path@, recs@[
                                    j as int
                                ].raw@));
                            }
                            match strip_prefix(
                                recs[j].path.as_str(),
                                self.paths[i].0.as_str(),
                            ) {
                                Some(rel) => {
                                    let below = join_path(
                                        self.paths[i].1.as_str(),
                                        rel.as_str(),
                                    );
                                    let projected = Bytes {
                                        path: join_path(
                                            generator.source.as_str(),
                                            below.as_str(),
                                        ),
                                        raw: crate::copy_bytes(&recs[j].raw),
                                    };
                                    fresh.push(projected);
                                    proof {
                                        assert(records_view(fresh@).take(base)
                                            =~= done);
                                    }
                                },
                                None => {
                                    proof {
                                        lemma_first_escaping_at(
                                            self.paths@[i as int].0@,
                                            rv,
                                            j as int,
                                        );
                                        assert(!mapping_ok(self.paths@[i as int].0@, rv));
                                        lemma_copier_error_persists(
                                            generator.source@,
                                            self.paths@,
                                            self.files@,
                                            i as int + 1,
                                        );
                                    }
                                    return Err(
                                        BuildError::Path {
                                            path: recs[j].path.clone(),
                                            detail:
                                                "record does not descend from its mapping root"
                                                .to_owned(),
                                        },
                                    );
                                },
                            }
                            j += 1;
                        }
                        proof {
                            assert(mapping_ok(self.paths@[i as int].0@, rv));
                            assert(records_view(fresh@) =~= done + project_mapping(
                                generator.source@,
                                self.paths@[i as int].0@,
                                self.paths@[i as int].1@,
                                rv,
                            ));
                        }
                    }
                },
            }
            i += 1;
        }
        proof {
            assert(self.paths@.take(self.paths@.len() as int) =~= self.paths@);
        }
        let ghost extra = records_view(fresh@);
        let mut fresh_rest = fresh;
        generator.data.append(&mut fresh_rest);
        proof {
            assert(records_view(generator.data@) =~= records_view(old(generator).data@)
                + extra);
        }
        Ok(())
    }
}

} // verus!
