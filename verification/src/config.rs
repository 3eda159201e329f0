//! Pattern rules and build configuration.
//!
//! A configuration carries an ordered table of (glob pattern, rule) entries.
//! Order is load-bearing: a path is resolved by consulting entries from the
//! most recently registered backwards, so broad defaults come first and
//! narrower overrides later, without explicit priorities.

use vstd::prelude::*;

use crate::context::Builtin;
use crate::context::Context;
use crate::context::Value;
use crate::errors::BuildError;
use crate::globs::check_pattern;
use crate::globs::match_pattern;
use crate::globs::pattern_match;
use crate::globs::pattern_ok;

verus! {

/// What to do with an input file matched by a glob pattern.
#[derive(Clone, Copy, Debug, Default, Eq, PartialEq, Structural)]
pub enum FileRule {
    /// File contents are transpiled into HTML and written to the output
    /// directory, preserving directory structure.
    Transpile,
    /// File contents are copied to the output directory, preserving
    /// directory structure.
    Copy,
    /// The file is left out of the output directory.
    #[default]
    Ignore,
}

/// Resolution over a rule table: entries are consulted from the most
/// recently registered backwards, the first whose well-formed pattern
/// matches decides, and a path that no pattern matches is ignored.
pub open spec fn resolve_rules(rules: Seq<(String, FileRule)>, path: Seq<char>) -> FileRule
    decreases rules.len(),
{
    if rules.len() == 0 {
        FileRule::Ignore
    } else if pattern_ok(rules.last().0@) && pattern_match(rules.last().0@, path) {
        rules.last().1
    } else {
        resolve_rules(rules.drop_last(), path)
    }
}

/// The rule table the default configuration registers, in order: copy
/// everything, transpile `.hat` files, and ignore the three helper
/// directories.
pub open spec fn default_rule_table(rules: Seq<(String, FileRule)>) -> bool {
    &&& rules.len() == 5
    &&& rules[0].0@ == "**/*"@ && rules[0].1 == FileRule::Copy
    &&& rules[1].0@ == "**/*.hat"@ && rules[1].1 == FileRule::Transpile
    &&& rules[2].0@ == "md/**/*"@ && rules[2].1 == FileRule::Ignore
    &&& rules[3].0@ == "tmpl/**/*"@ && rules[3].1 == FileRule::Ignore
    &&& rules[4].0@ == "vars/**/*"@ && rules[4].1 == FileRule::Ignore
}

/// The bindings the default configuration seeds in its one base scope: the
/// three helper directories and the three helpers.
pub open spec fn default_bindings(scopes: Seq<Seq<(Seq<char>, Value)>>) -> bool {
    &&& scopes.len() == 1
    &&& scopes[0].len() == 6
    &&& scopes[0][0].0 == "markdown"@
    &&& (scopes[0][0].1 matches Value::Str(s) && s@ == "md"@)
    &&& scopes[0][1].0 == "content"@ && scopes[0][1].1 == Value::Helper(Builtin::Content)
    &&& scopes[0][2].0 == "templates"@
    &&& (scopes[0][2].1 matches Value::Str(s) && s@ == "tmpl"@)
    &&& scopes[0][3].0 == "include"@ && scopes[0][3].1 == Value::Helper(Builtin::Include)
    &&& scopes[0][4].0 == "variables"@
    &&& (scopes[0][4].1 matches Value::Str(s) && s@ == "vars"@)
    &&& scopes[0][5].0 == "load"@ && scopes[0][5].1 == Value::Helper(Builtin::Load)
}

/// Build configuration: context bindings, the directory roots, and the
/// ordered pattern-rule table. Mutated only during setup; the build walk
/// itself only pushes and pops context scopes.
#[derive(Debug)]
pub struct Config {
    /// Bindings visible to transform collaborators while building.
    pub env: Context,
    /// The path of the input directory.
    pub input_dir: String,
    /// The path of the output directory.
    pub output_dir: String,
    /// The ordered pattern-rule table. Register entries through
    /// `set_file_rule`, which refuses malformed patterns.
    pub file_rules: Vec<(String, FileRule)>,
}

impl Config {
    /// The registered rules, in registration order.
    pub open spec fn rules(&self) -> Seq<(String, FileRule)> {
        self.file_rules@
    }

    /// A new configuration with the default file rules, bindings and
    /// directories, the same as `Config::default()`.
    pub fn new() -> (r: Config)
        ensures
            default_rule_table(r.rules()),
            default_bindings(r.env@),
            r.input_dir@ == "in"@,
            r.output_dir@ == "out"@,
    {
        Config::default()
    }

    /// An empty configuration with the default directories but no file
    /// rules: it resolves every path to `Ignore` until rules are registered.
    pub fn empty() -> (r: Config)
        ensures
            r.rules() == Seq::<(String, FileRule)>::empty(),
            r.env@ == seq![Seq::<(Seq<char>, Value)>::empty()],
            r.input_dir@ == "in"@,
            r.output_dir@ == "out"@,
    {
        Config {
            env: Context::new(),
            input_dir: "in".to_owned(),
            output_dir: "out".to_owned(),
            file_rules: Vec::new(),
        }
    }

    /// All file rules registered in this configuration, in order.
    pub fn file_rules(&self) -> (r: &Vec<(String, FileRule)>)
        ensures
            r@ == self.rules(),
    {
        &self.file_rules
    }

    /// Registers `rule` for every file matched by `pattern`, overriding any
    /// earlier registration for the paths it matches. A pattern that is not
    /// valid glob syntax is refused here, at registration time; resolution
    /// itself never fails.
    pub fn set_file_rule(&mut self, pattern: &str, rule: FileRule) -> (r: Result<
        (),
        BuildError,
    >)
        ensures
            r is Ok <==> pattern_ok(pattern@),
            r is Ok ==> final(self).rules().len() == old(self).rules().len() + 1
                && final(self).rules().last().0@ == pattern@
                && final(self).rules().last().1 == rule
                && final(self).rules().drop_last() == old(self).rules()
                && final(self).env == old(self).env
                && final(self).input_dir == old(self).input_dir
                && final(self).output_dir == old(self).output_dir,
            r matches Err(e) ==> *final(self) == *old(self)
                && (e matches BuildError::Config { path, .. } && path@ == pattern@),
    {
        if check_pattern(pattern) {
            self.file_rules.push((pattern.to_owned(), rule));
            proof {
                assert(self.rules().drop_last() =~= old(self).rules());
            }
            Ok(())
        } else {
            Err(
                BuildError::Config {
                    path: pattern.to_owned(),
                    detail: "invalid glob pattern".to_owned(),
                },
            )
        }
    }

    /// Resolves a path to its action: the most recently registered matching
    /// pattern decides, and a path that no pattern matches is ignored.
    #[verifier::loop_isolation(false)]
    pub fn resolve(&self, path: &str) -> (r: FileRule)
        ensures
            r == resolve_rules(self.rules(), path@),
    {
        let mut i: usize = self.file_rules.len();
        proof {
            assert(self.rules().take(self.rules().len() as int) =~= self.rules());
        }
        while i > 0
            invariant
                i <= self.rules().len(),
                resolve_rules(self.rules(), path@) == resolve_rules(
                    self.rules().take(i as int),
                    path@,
                ),
            decreases i,
        {
            i -= 1;
            proof {
                assert(self.rules().take(i as int + 1).drop_last() =~= self.rules().take(
                    i as int,
                ));
                assert(self.rules().take(i as int + 1).last() == self.rules()[i as int]);
            }
            if match_pattern(self.file_rules[i].0.as_str(), path) {
                return self.file_rules[i].1;
            }
        }
        FileRule::Ignore
    }
}

impl Default for Config {
    /// The default configuration: all input files are copied, except `.hat`
    /// files, which are transpiled to `.html`, and the `md/`, `tmpl/` and
    /// `vars/` helper directories, which are ignored; the helper directories
    /// and helpers are bound in the base scope.
    fn default() -> (r: Config)
        ensures
            default_rule_table(r.rules()),
            default_bindings(r.env@),
            r.input_dir@ == "in"@,
            r.output_dir@ == "out"@,
    {
        let mut env = Context::new();
        env.set("markdown", Value::Str("md".to_owned()));
        env.set("content", Value::Helper(Builtin::Content));
        env.set("templates", Value::Str("tmpl".to_owned()));
        env.set("include", Value::Helper(Builtin::Include));
        env.set("variables", Value::Str("vars".to_owned()));
        env.set("load", Value::Helper(Builtin::Load));
        let mut file_rules: Vec<(String, FileRule)> = Vec::new();
        file_rules.push(("**/*".to_owned(), FileRule::Copy));
        file_rules.push(("**/*.hat".to_owned(), FileRule::Transpile));
        file_rules.push(("md/**/*".to_owned(), FileRule::Ignore));
        file_rules.push(("tmpl/**/*".to_owned(), FileRule::Ignore));
        file_rules.push(("vars/**/*".to_owned(), FileRule::Ignore));
        let r = Config {
            env,
            input_dir: "in".to_owned(),
            output_dir: "out".to_owned(),
            file_rules,
        };
        r
    }
}

/// Later registration wins: a newly registered rule whose pattern matches a
/// path decides that path, whatever was registered before it.
pub proof fn lemma_later_rule_wins(
    rules: Seq<(String, FileRule)>,
    entry: (String, FileRule),
    path: Seq<char>,
)
    requires
        pattern_ok(entry.0@),
        pattern_match(entry.0@, path),
    ensures
        resolve_rules(rules.push(entry), path) == entry.1,
{
    assert(rules.push(entry).last() == entry);
}

/// A registered rule whose pattern does not match a path leaves that path's
/// resolution unchanged.
pub proof fn lemma_unmatched_rule_skipped(
    rules: Seq<(String, FileRule)>,
    entry: (String, FileRule),
    path: Seq<char>,
)
    requires
        !(pattern_ok(entry.0@) && pattern_match(entry.0@, path)),
    ensures
        resolve_rules(rules.push(entry), path) == resolve_rules(rules, path),
{
    assert(rules.push(entry).last() == entry);
    assert(rules.push(entry).drop_last() =~= rules);
}

/// The default action: a path that no registered pattern matches resolves to
/// `Ignore`.
pub proof fn lemma_unmatched_path_ignored(rules: Seq<(String, FileRule)>, path: Seq<char>)
    requires
        forall|i: int|
            0 <= i < rules.len() ==> !(#[trigger] pattern_ok(rules[i].0@) && pattern_match(
                rules[i].0@,
                path,
            )),
    ensures
        resolve_rules(rules, path) == FileRule::Ignore,
    decreases rules.len(),
{
    if rules.len() > 0 {
        assert(rules.last() == rules[rules.len() - 1]);
        assert forall|i: int| 0 <= i < rules.drop_last().len() implies !(#[trigger]
        pattern_ok(rules.drop_last()[i].0@) && pattern_match(
            rules.drop_last()[i].0@,
            path,
        )) by {
            assert(rules.drop_last()[i] == rules[i]);
        }
        lemma_unmatched_path_ignored(rules.drop_last(), path);
    }
}

} // verus!
