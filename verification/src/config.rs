//! Declarative per-project configuration of which base names count as
//! source files, and how the effective target set is formed from it.

use vstd::prelude::*;
use crate::scan::copy_names;

verus! {

/// The recognized configuration options: the base names of the files to
/// scan for dependency declarations.
#[derive(Debug, PartialEq)]
pub struct ParsingRules {
    pub filenames: Vec<String>,
}

/// A project's configuration. `rules` is absent when the configuration file
/// exists but holds no rules section.
#[derive(Debug, PartialEq)]
pub struct Config {
    pub rules: Option<ParsingRules>,
}

/// The built-in default target filename.
pub open spec fn default_target() -> Seq<char> {
    "main.c"@
}

impl Default for ParsingRules {
    /// The built-in default rules: scan files named `main.c`.
    fn default() -> (r: Self)
        ensures
            r.filenames.deep_view() == seq![default_target()],
    {
        let mut filenames: Vec<String> = Vec::new();
        filenames.push("main.c".to_owned());
        proof {
            assert(filenames.deep_view() =~= seq![default_target()]);
        }
        ParsingRules { filenames }
    }
}

impl Default for Config {
    /// The configuration of a project without a configuration file.
    fn default() -> (r: Self)
        ensures
            r.rules is None,
    {
        Config { rules: None }
    }
}

/// The effective target set. A command-line override replaces the whole set
/// with that one name; otherwise the configured filenames apply; an absent
/// rules section or an empty filename list violates the non-empty invariant
/// and falls back to the built-in default.
pub open spec fn effective_targets_spec(config: Config, cli_override: Option<String>) -> Seq<
    Seq<char>,
> {
    match cli_override {
        Some(f) => seq![f@],
        None => match config.rules {
            Some(rules) => if rules.filenames@.len() > 0 {
                rules.filenames.deep_view()
            } else {
                seq![default_target()]
            },
            None => seq![default_target()],
        },
    }
}

/// Form the effective, never empty target set, as
/// [`effective_targets_spec`] says.
pub fn effective_targets(config: &Config, cli_override: &Option<String>) -> (targets: Vec<String>)
    ensures
        targets.deep_view() == effective_targets_spec(*config, *cli_override),
        targets@.len() > 0,
{
    let targets: Vec<String> = match cli_override {
        Some(f) => {
            let mut v: Vec<String> = Vec::new();
            v.push(f.clone());
            proof {
                assert(v.deep_view() =~= seq![f@]);
            }
            v
        },
        None => match &config.rules {
            Some(rules) => {
                if rules.filenames.len() > 0 {
                    copy_names(&rules.filenames)
                } else {
                    ParsingRules::default().filenames
                }
            },
            None => ParsingRules::default().filenames,
        },
    };
    proof {
        assert(targets@.len() == targets.deep_view().len());
    }
    targets
}

} // verus!
