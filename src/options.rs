//! The configuration of one run: what to look up and how to report it.

use vstd::prelude::*;
use vstd::string::*;
use crate::alias::{valid_alias, alias_to_fqdn};

verus! {

/// What follows an invalid alias in the message that rejects it.
pub const INVALID_ALIAS_SUFFIX: &'static str = " is not a valid OpenAlias address";

/// All configurable values of a run.
#[derive(Debug, Clone, Hash, PartialEq, Eq)]
pub struct Options {
    /// Aliases to look up.
    pub aliases: Vec<String>,
    /// Print more information.
    ///
    /// Default: `false`.
    pub verbose: bool,
    /// Just print the record text.
    ///
    /// Default: `false`.
    pub raw: bool,
    /// Limit results to currencies from this list.
    ///
    /// Default: `None`.
    pub currency_filter: Option<Vec<String>>,
}

impl Options {
    /// Accepts a valid alias, and rejects any other string with a message
    /// that names it. It shares its rule with the lookup itself.
    pub fn open_alias_validator(s: String) -> (r: Result<(), String>)
        ensures
            r is Ok <==> valid_alias(s@),
            match r {
                Ok(_) => true,
                Err(m) => m@ == s@ + INVALID_ALIAS_SUFFIX@,
            },
    {
        match alias_to_fqdn(s.as_str()) {
            Some(_) => Ok(()),
            None => Err(s.concat(INVALID_ALIAS_SUFFIX)),
        }
    }
}

} // verus!
