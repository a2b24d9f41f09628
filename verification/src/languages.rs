//! The closed set of supported project languages, each carrying its
//! dependency-update strategy.

use crate::javascript::{
    ascii_seq, bytes_chars, spec_find_report, spec_report_names, spec_update_names,
    update_js_repository, UpdateError,
};
use vstd::prelude::*;

verus! {

/// The languages the bot recognizes.  Only JavaScript has a working update
/// strategy; the others fail fast with a typed "unsupported" result.
#[derive(Clone, Copy, Debug, PartialEq, Eq, Structural)]
pub enum Language {
    Rust,
    JavaScript,
    Python,
}

impl Language {
    /// Whether this language has a working update strategy: the dispatcher
    /// runs an upgrade command only for a supported language.
    pub fn supports_update(&self) -> (r: bool)
        ensures
            r == (self is JavaScript),
    {
        match self {
            Language::JavaScript => true,
            _ => false,
        }
    }

    /// Reads the duplicate-free set of updated package names out of the
    /// upgrade command's output, by this language's strategy.  Languages
    /// without an implemented strategy are reported as unsupported, never as
    /// a parse failure.
    pub fn try_update(&self, upgrade_output: &[u8]) -> (r: Result<Vec<String>, UpdateError>)
        ensures
            self is JavaScript ==> match spec_find_report(upgrade_output@, 0) {
                Some(v) => r matches Ok(names) && {
                    &&& names@.len() == spec_update_names(v).len()
                    &&& (forall|k: int|
                        0 <= k < names@.len() && ascii_seq(#[trigger] spec_update_names(v)[k])
                            ==> names@[k]@ == bytes_chars(spec_update_names(v)[k]))
                    &&& (forall|k: int, m: int|
                        0 <= k < m < spec_update_names(v).len() ==> #[trigger] spec_update_names(
                            v,
                        )[k] != #[trigger] spec_update_names(v)[m])
                    &&& (forall|y: Seq<u8>| #[trigger]
                        spec_update_names(v).contains(y) <==> spec_report_names(v).contains(y))
                },
                None => (r matches Err(e) && e == UpdateError::OutputParseFailed),
            },
            !(self is JavaScript) ==> (r matches Err(e) && e == UpdateError::UnsupportedLanguage),
    {
        match self {
            Language::JavaScript => update_js_repository(upgrade_output, None),
            _ => Err(UpdateError::UnsupportedLanguage),
        }
    }

    /// Runs this language's build step.  No language defines one yet, so
    /// every build trivially succeeds.
    pub fn try_build(&self) -> (r: Result<(), UpdateError>)
        ensures
            r is Ok,
    {
        Ok(())
    }
}

} // verus!
