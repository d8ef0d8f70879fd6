//! One lookup from end to end: the name to query for an alias, and the
//! outcome for what the query returned.

use vstd::prelude::*;
use crate::alias::{valid_alias, fqdn_of, alias_to_fqdn};
use crate::record::{RecordView, record_of, field_value, tokens, ADDRESS_KEY};
use crate::select::{
    LookupError, Selection, SelectionView, outcome_view, kept, selection_of, filter_view, passes,
    eq_ignore_ascii_case, in_filter, parse_and_select,
};

verus! {

/// How a TXT query can fail.
#[derive(Debug, Clone, Copy, PartialEq, Eq)]
pub enum FetchError {
    /// The name does not exist.
    NameNotFound,
    /// The name exists but holds no TXT records.
    NoData,
    /// Timeout, network error or malformed response.
    TransportFailure,
}

/// The lookup error that stands for a failed query.
pub open spec fn fetch_failure(e: FetchError) -> LookupError {
    match e {
        FetchError::NameNotFound => LookupError::NameNotFound,
        FetchError::NoData => LookupError::NoData,
        FetchError::TransportFailure => LookupError::TransportFailure,
    }
}

/// What a query returned, as character sequences.
pub open spec fn fetched_view(fetched: Result<Vec<String>, FetchError>) -> Result<
    Seq<Seq<char>>,
    FetchError,
> {
    match fetched {
        Ok(v) => Ok(v.deep_view()),
        Err(e) => Err(e),
    }
}

/// The outcome of a lookup for what its query returned: a failed query is
/// passed on, an empty record set is `NoData`, and any other set is parsed
/// and narrowed by filter `f`.
pub open spec fn resolution(
    fetched: Result<Seq<Seq<char>>, FetchError>,
    f: Option<Seq<Seq<char>>>,
) -> Result<SelectionView, LookupError> {
    match fetched {
        Err(e) => Err(fetch_failure(e)),
        Ok(raws) => if raws.len() == 0 {
            Err(LookupError::NoData)
        } else {
            selection_of(kept(raws, f))
        },
    }
}

/// The name to query for `alias`, or `Invalid` where the alias is malformed;
/// this is decided before any query is made.
pub fn query_name(alias: &str) -> (r: Result<String, LookupError>)
    ensures
        r is Ok <==> valid_alias(alias@),
        match r {
            Ok(name) => name@ == fqdn_of(alias@),
            Err(e) => e == LookupError::Invalid,
        },
{
    match alias_to_fqdn(alias) {
        Some(name) => Ok(name),
        None => Err(LookupError::Invalid),
    }
}

/// The outcome of a lookup for what its TXT query returned, narrowed by
/// `filter`. The query's own failures come first; the parser only sees a
/// non-empty record set.
pub fn resolve_fetched(fetched: Result<Vec<String>, FetchError>, filter: &Option<Vec<String>>) -> (r:
    Result<Selection, LookupError>)
    ensures
        outcome_view(r) == resolution(fetched_view(fetched), filter_view(*filter)),
{
    match fetched {
        Err(FetchError::NameNotFound) => Err(LookupError::NameNotFound),
        Err(FetchError::NoData) => Err(LookupError::NoData),
        Err(FetchError::TransportFailure) => Err(LookupError::TransportFailure),
        Ok(raws) => if raws.len() == 0 {
            Err(LookupError::NoData)
        } else {
            parse_and_select(&raws, filter)
        },
    }
}

/// An empty record set and a name that does not exist are told apart by what
/// the query returned, before any record is parsed: the first is `NoData`,
/// the second `NameNotFound`, whatever the filter.
pub proof fn lemma_empty_set_is_not_missing_name(f: Option<Seq<Seq<char>>>)
    ensures
        resolution(Ok(Seq::empty()), f) == Err::<SelectionView, LookupError>(LookupError::NoData),
        resolution(Err(FetchError::NameNotFound), f) == Err::<SelectionView, LookupError>(
            LookupError::NameNotFound,
        ),
        resolution(Ok(Seq::empty()), f) != resolution(Err(FetchError::NameNotFound), f),
{
}

/// A raw string without a payment address yields no record, so it is
/// dropped; a non-empty set of only such strings gives `NoMatch`, not an
/// error of its own, whatever the filter.
pub proof fn lemma_unaddressed_strings_dropped(raws: Seq<Seq<char>>, f: Option<Seq<Seq<char>>>)
    requires
        forall|i: int| 0 <= i < raws.len() ==> field_value(tokens(#[trigger] raws[i]), ADDRESS_KEY@) is None,
    ensures
        forall|i: int| 0 <= i < raws.len() ==> record_of(#[trigger] raws[i]) is None,
        kept(raws, f).len() == 0,
        raws.len() > 0 ==> resolution(Ok(raws), f) == Err::<SelectionView, LookupError>(
            LookupError::NoMatch,
        ),
    decreases raws.len(),
{
    if raws.len() > 0 {
        assert(record_of(raws.last()) is None);
        assert forall|i: int| 0 <= i < raws.drop_last().len() implies field_value(
            tokens(#[trigger] raws.drop_last()[i]),
            ADDRESS_KEY@,
        ) is None by {
            assert(raws.drop_last()[i] == raws[i]);
        }
        lemma_unaddressed_strings_dropped(raws.drop_last(), f);
    }
}

/// Currency tags match up to ASCII case: a record whose currency equals a
/// tag of the filter up to case passes that filter.
pub proof fn lemma_currency_case_insensitive(r: RecordView, tags: Seq<Seq<char>>, i: int)
    requires
        r.currency is Some,
        0 <= i < tags.len(),
        eq_ignore_ascii_case(tags[i], r.currency->0),
    ensures
        passes(r, Some(tags)),
{
    assert(in_filter(r.currency->0, tags));
}

} // verus!
