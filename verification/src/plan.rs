//! The build plan: what a build run writes, decided from plain values.
//!
//! The caller enumerates the files under the input directory and hands the
//! paths in; the planner resolves each against the rule table and decides,
//! for every file, whether it is ignored, copied, or transpiled, and where
//! its output lands. The unverified shell then only executes the plan:
//! clears the output root, copies bytes, renders and writes.

use vstd::prelude::*;

use crate::config::resolve_rules;
use crate::config::Config;
use crate::config::FileRule;
use crate::errors::BuildError;
use crate::paths::descends;
use crate::paths::ext_of;
use crate::paths::join_path;
use crate::paths::join_spec;
use crate::paths::lemma_replace_ext;
use crate::paths::rel_part;
use crate::paths::replace_ext;
use crate::paths::strip_prefix;
use crate::paths::with_ext;

verus! {

/// One planned write: where `input` will be copied or transpiled to.
#[derive(Debug)]
pub struct PlanEntry {
    /// The enumerated input file.
    pub input: String,
    /// The output path its artifact lands at.
    pub output: String,
    /// The action taken: `Copy` or `Transpile`, never `Ignore`.
    pub rule: FileRule,
}

/// The views of a sequence of plan entries.
pub open spec fn plan_view(s: Seq<PlanEntry>) -> Seq<(Seq<char>, Seq<char>, FileRule)> {
    s.map_values(|e: PlanEntry| (e.input@, e.output@, e.rule))
}

/// What a build plans, input by input: ignored files contribute nothing, a
/// copied file keeps its relative path under the output root, a transpiled
/// file additionally gets the target extension; an input that does not
/// descend from the input root fails the plan, naming the first offender.
pub open spec fn plan_spec(
    rules: Seq<(String, FileRule)>,
    in_dir: Seq<char>,
    out_dir: Seq<char>,
    inputs: Seq<Seq<char>>,
) -> Result<Seq<(Seq<char>, Seq<char>, FileRule)>, Seq<char>>
    decreases inputs.len(),
{
    if inputs.len() == 0 {
        Ok(Seq::empty())
    } else {
        match plan_spec(rules, in_dir, out_dir, inputs.drop_last()) {
            Err(p) => Err(p),
            Ok(prefix) => {
                let path = inputs.last();
                if !descends(path, in_dir) {
                    Err(path)
                } else {
                    let rel = rel_part(path, in_dir);
                    match resolve_rules(rules, rel) {
                        FileRule::Ignore => Ok(prefix),
                        FileRule::Copy => Ok(
                            prefix.push((path, join_spec(out_dir, rel), FileRule::Copy)),
                        ),
                        FileRule::Transpile => Ok(
                            prefix.push(
                                (
                                    path,
                                    replace_ext(join_spec(out_dir, rel), "html"@),
                                    FileRule::Transpile,
                                ),
                            ),
                        ),
                    }
                }
            },
        }
    }
}

/// The views of a vector of owned input paths.
pub open spec fn inputs_view(inputs: Seq<String>) -> Seq<Seq<char>> {
    inputs.map_values(|s: String| s@)
}

/// An earlier input's failure decides the whole plan.
proof fn lemma_plan_error_persists(
    rules: Seq<(String, FileRule)>,
    in_dir: Seq<char>,
    out_dir: Seq<char>,
    inputs: Seq<Seq<char>>,
    i: int,
)
    requires
        0 <= i <= inputs.len(),
        plan_spec(rules, in_dir, out_dir, inputs.take(i)) is Err,
    ensures
        plan_spec(rules, in_dir, out_dir, inputs) == plan_spec(
            rules,
            in_dir,
            out_dir,
            inputs.take(i),
        ),
    decreases inputs.len() - i,
{
    if i == inputs.len() {
        assert(inputs.take(i) =~= inputs);
    } else {
        assert(inputs.take(i + 1).drop_last() =~= inputs.take(i));
        lemma_plan_error_persists(rules, in_dir, out_dir, inputs, i + 1);
    }
}

/// Plans a build: resolves every enumerated input against the rule table
/// and computes the output path of every copied or transpiled file. The
/// first input that does not descend from the input directory aborts the
/// plan with a path error naming it.
#[verifier::loop_isolation(false)]
pub fn plan_with(config: &Config, inputs: &Vec<String>) -> (r: Result<
    Vec<PlanEntry>,
    BuildError,
>)
    ensures
        (r is Ok) <==> plan_spec(
            config.rules(),
            config.input_dir@,
            config.output_dir@,
            inputs_view(inputs@),
        ) is Ok,
        r matches Ok(entries) ==> plan_spec(
            config.rules(),
            config.input_dir@,
            config.output_dir@,
            inputs_view(inputs@),
        ) == Ok::<_, Seq<char>>(plan_view(entries@)),
        r matches Err(e) ==> {
            &&& e matches BuildError::Path { path, .. }
            &&& plan_spec(
                config.rules(),
                config.input_dir@,
                config.output_dir@,
                inputs_view(inputs@),
            ) matches Err(p) && path@ == p
        },
{
    let ghost iv = inputs_view(inputs@);
    let mut entries: Vec<PlanEntry> = Vec::new();
    let mut i: usize = 0;
    proof {
        assert(iv.take(0) =~= Seq::<Seq<char>>::empty());
        assert(plan_view(entries@) =~= Seq::<(Seq<char>, Seq<char>, FileRule)>::empty());
    }
    while i < inputs.len()
        invariant
            i <= inputs@.len(),
            plan_spec(config.rules(), config.input_dir@, config.output_dir@, iv.take(
                i as int,
            )) == Ok::<_, Seq<char>>(plan_view(entries@)),
        decreases inputs@.len() - i,
    {
        proof {
            assert(iv.take(i as int + 1).drop_last() =~= iv.take(i as int));
            assert(iv.take(i as int + 1).last() == iv[i as int]);
            assert(iv[i as int] == inputs@[i as int]@);
        }
        match strip_prefix(inputs[i].as_str(), config.input_dir.as_str()) {
            None => {
                proof {
                    lemma_plan_error_persists(
                        config.rules(),
                        config.input_dir@,
                        config.output_dir@,
                        iv,
                        i as int + 1,
                    );
                }
                return Err(
                    BuildError::Path {
                        path: inputs[i].clone(),
                        detail: "input file does not descend from the input directory"
                            .to_owned(),
                    },
                );
            },
            Some(rel) => {
                let ghost prev = plan_view(entries@);
                match config.resolve(rel.as_str()) {
                    FileRule::Ignore => {},
                    FileRule::Copy => {
                        let entry = PlanEntry {
                            input: inputs[i].clone(),
                            output: join_path(config.output_dir.as_str(), rel.as_str()),
                            rule: FileRule::Copy,
                        };
                        entries.push(entry);
                        proof {
                            assert(plan_view(entries@) =~= prev.push(
                                (
                                    iv[i as int],
                                    join_spec(config.output_dir@, rel@),
                                    FileRule::Copy,
                                ),
                            ));
                        }
                    },
                    FileRule::Transpile => {
                        let projected = join_path(config.output_dir.as_str(), rel.as_str());
                        let entry = PlanEntry {
                            input: inputs[i].clone(),
                            output: with_ext(projected.as_str(), "html"),
                            rule: FileRule::Transpile,
                        };
                        entries.push(entry);
                        proof {
                            assert(plan_view(entries@) =~= prev.push(
                                (
                                    iv[i as int],
                                    replace_ext(
                                        join_spec(config.output_dir@, rel@),
                                        "html"@,
                                    ),
                                    FileRule::Transpile,
                                ),
                            ));
                        }
                    },
                }
            },
        }
        i += 1;
    }
    proof {
        assert(iv.take(iv.len() as int) =~= iv);
    }
    Ok(entries)
}

/// Output-tree replacement: every planned artifact stems from an input that
/// is present in this run's enumeration, so after a clear-and-repopulate
/// build nothing survives from a file that is no longer there.
pub proof fn lemma_plan_covers_only_inputs(
    rules: Seq<(String, FileRule)>,
    in_dir: Seq<char>,
    out_dir: Seq<char>,
    inputs: Seq<Seq<char>>,
    entries: Seq<(Seq<char>, Seq<char>, FileRule)>,
)
    requires
        plan_spec(rules, in_dir, out_dir, inputs) == Ok::<_, Seq<char>>(entries),
    ensures
        forall|j: int|
            0 <= j < entries.len() ==> exists|i: int|
                0 <= i < inputs.len() && (#[trigger] entries[j]).0 == inputs[i]
                    && entries[j].1 == planned_output(rules, in_dir, out_dir, inputs[i]),
    decreases inputs.len(),
{
    if inputs.len() > 0 {
        match plan_spec(rules, in_dir, out_dir, inputs.drop_last()) {
            Err(_) => {},
            Ok(prefix) => {
                lemma_plan_covers_only_inputs(rules, in_dir, out_dir, inputs.drop_last(), prefix);
                assert forall|j: int| 0 <= j < entries.len() implies exists|i: int|
                    0 <= i < inputs.len() && (#[trigger] entries[j]).0 == inputs[i]
                        && entries[j].1 == planned_output(rules, in_dir, out_dir, inputs[i]) by {
                    if j < prefix.len() {
                        let i = choose|i: int|
                            0 <= i < inputs.drop_last().len() && (#[trigger] prefix[j]).0
                                == inputs.drop_last()[i] && prefix[j].1 == planned_output(
                                rules,
                                in_dir,
                                out_dir,
                                inputs.drop_last()[i],
                            );
                        assert(inputs.drop_last()[i] == inputs[i]);
                        assert(entries[j] == prefix[j]);
                    } else {
                        assert(entries[j].0 == inputs[inputs.len() - 1]);
                    }
                }
            },
        }
    }
}

/// Where a single input's artifact lands, if it has one.
pub open spec fn planned_output(
    rules: Seq<(String, FileRule)>,
    in_dir: Seq<char>,
    out_dir: Seq<char>,
    path: Seq<char>,
) -> Seq<char> {
    let rel = rel_part(path, in_dir);
    match resolve_rules(rules, rel) {
        FileRule::Transpile => replace_ext(join_spec(out_dir, rel), "html"@),
        _ => join_spec(out_dir, rel),
    }
}

/// Extension rewrite: every transpiled entry of a plan carries the target
/// extension, whatever source extension its pattern matched.
pub proof fn lemma_plan_transpile_extension(
    rules: Seq<(String, FileRule)>,
    in_dir: Seq<char>,
    out_dir: Seq<char>,
    inputs: Seq<Seq<char>>,
    entries: Seq<(Seq<char>, Seq<char>, FileRule)>,
)
    requires
        plan_spec(rules, in_dir, out_dir, inputs) == Ok::<_, Seq<char>>(entries),
        forall|i: int|
            0 <= i < inputs.len() ==> (#[trigger] inputs[i]).len() > 0 && inputs[i][
                inputs[i].len() - 1
            ] != '/',
    ensures
        forall|j: int|
            0 <= j < entries.len() ==> ((#[trigger] entries[j]).2 == FileRule::Transpile
                ==> ext_of(entries[j].1) == Some("html"@)),
    decreases inputs.len(),
{
    reveal_strlit("html");
    reveal_strlit("/");
    reveal_strlit(".");
    if inputs.len() > 0 {
        match plan_spec(rules, in_dir, out_dir, inputs.drop_last()) {
            Err(_) => {},
            Ok(prefix) => {
                assert forall|i: int| 0 <= i < inputs.drop_last().len() implies (
                #[trigger] inputs.drop_last()[i]).len() > 0 && inputs.drop_last()[i][
                    inputs.drop_last()[i].len() - 1
                ] != '/' by {
                    assert(inputs.drop_last()[i] == inputs[i]);
                }
                lemma_plan_transpile_extension(
                    rules,
                    in_dir,
                    out_dir,
                    inputs.drop_last(),
                    prefix,
                );
                let path = inputs.last();
                if descends(path, in_dir) {
                    let rel = rel_part(path, in_dir);
                    if resolve_rules(rules, rel) == FileRule::Transpile {
                        let joined = join_spec(out_dir, rel);
                        assert(joined.len() > 0);
                        assert(joined[joined.len() - 1] == path[path.len() - 1]);
                        assert(!"html"@.contains('.')) by {
                            if "html"@.contains('.') {
                                let k = choose|k: int|
                                    0 <= k < "html"@.len() && "html"@[k] == '.';
                            }
                        }
                        assert(!"html"@.contains('/')) by {
                            if "html"@.contains('/') {
                                let k = choose|k: int|
                                    0 <= k < "html"@.len() && "html"@[k] == '/';
                            }
                        }
                        lemma_replace_ext(joined, "html"@);
                    }
                }
            },
        }
    }
}

} // verus!
