//! Narrowing parsed records by currency, and deciding the outcome.

use vstd::prelude::*;
use crate::record::{ParsedRecord, RecordView, record_of, parse_record};

verus! {

/// Why a lookup produced no record.
#[derive(Debug, Clone, Copy, PartialEq, Eq)]
pub enum LookupError {
    /// The alias is malformed; nothing was queried.
    Invalid,
    /// The queried name does not exist.
    NameNotFound,
    /// The queried name exists but holds no TXT data.
    NoData,
    /// The query itself failed.
    TransportFailure,
    /// There were records, but none survived parsing and the currency filter.
    NoMatch,
}

/// The records that a lookup settled on.
#[derive(Debug, Clone, PartialEq, Eq)]
pub enum Selection {
    /// Exactly one record matched.
    Single(ParsedRecord),
    /// Several records matched, in the order of the raw strings.
    Ambiguous(Vec<ParsedRecord>),
}

/// What a `Selection` holds, as record views.
pub enum SelectionView {
    Single(RecordView),
    Ambiguous(Seq<RecordView>),
}

/// The views of a sequence of records.
pub open spec fn records_view(v: Seq<ParsedRecord>) -> Seq<RecordView> {
    v.map_values(|r: ParsedRecord| r@)
}

impl View for Selection {
    type V = SelectionView;

    open spec fn view(&self) -> SelectionView {
        match self {
            Selection::Single(r) => SelectionView::Single(r@),
            Selection::Ambiguous(v) => SelectionView::Ambiguous(records_view(v@)),
        }
    }
}

/// The view of a lookup's result.
pub open spec fn outcome_view(r: Result<Selection, LookupError>) -> Result<SelectionView, LookupError> {
    match r {
        Ok(s) => Ok(s@),
        Err(e) => Err(e),
    }
}

/// `a` and `b` are the same character up to ASCII case.
pub open spec fn same_letter(a: char, b: char) -> bool {
    ||| a == b
    ||| ('A' <= a && a <= 'Z' && b as int == a as int + 32)
    ||| ('A' <= b && b <= 'Z' && a as int == b as int + 32)
}

/// `x` and `y` are equal up to ASCII case.
pub open spec fn eq_ignore_ascii_case(x: Seq<char>, y: Seq<char>) -> bool {
    &&& x.len() == y.len()
    &&& forall|i: int| 0 <= i < x.len() ==> same_letter(#[trigger] x[i], y[i])
}

/// The currency filter as character sequences.
pub open spec fn filter_view(f: Option<Vec<String>>) -> Option<Seq<Seq<char>>> {
    match f {
        Some(v) => Some(v.deep_view()),
        None => None,
    }
}

/// A filter narrows the records only where it is present and not empty.
pub open spec fn narrows(f: Option<Seq<Seq<char>>>) -> bool {
    f is Some && f->0.len() > 0
}

/// `c` is one of the filter's tags, up to ASCII case.
pub open spec fn in_filter(c: Seq<char>, tags: Seq<Seq<char>>) -> bool {
    exists|i: int| 0 <= i < tags.len() && eq_ignore_ascii_case(#[trigger] tags[i], c)
}

/// A record passes the filter: the filter does not narrow, the record names
/// no currency, or its currency is one of the filter's tags.
pub open spec fn passes(r: RecordView, f: Option<Seq<Seq<char>>>) -> bool {
    match r.currency {
        None => true,
        Some(c) => !narrows(f) || in_filter(c, f->0),
    }
}

/// The records read from `raws` that pass filter `f`, in the order of `raws`.
pub open spec fn kept(raws: Seq<Seq<char>>, f: Option<Seq<Seq<char>>>) -> Seq<RecordView>
    decreases raws.len(),
{
    if raws.len() == 0 {
        Seq::empty()
    } else {
        let prev = kept(raws.drop_last(), f);
        let r = record_of(raws.last());
        if r is Some && passes(r->0, f) {
            prev.push(r->0)
        } else {
            prev
        }
    }
}

/// The outcome for the records that survived: none is `NoMatch`, one is that
/// record, more are all of them.
pub open spec fn selection_of(recs: Seq<RecordView>) -> Result<SelectionView, LookupError> {
    if recs.len() == 0 {
        Err(LookupError::NoMatch)
    } else if recs.len() == 1 {
        Ok(SelectionView::Single(recs[0]))
    } else {
        Ok(SelectionView::Ambiguous(recs))
    }
}

fn same_letter_exec(a: char, b: char) -> (r: bool)
    ensures
        r == same_letter(a, b),
{
    a == b || ('A' <= a && a <= 'Z' && (b as u32) == (a as u32) + 32) || ('A' <= b && b <= 'Z'
        && (a as u32) == (b as u32) + 32)
}

/// Whether `x` and `y` are equal up to ASCII case.
pub fn equal_ignoring_case(x: &str, y: &str) -> (r: bool)
    ensures
        r == eq_ignore_ascii_case(x@, y@),
{
    let n = x.unicode_len();
    if n != y.unicode_len() {
        return false;
    }
    let mut i: usize = 0;
    while i < n
        invariant
            n == x@.len(),
            n == y@.len(),
            i <= n,
            forall|j: int| 0 <= j < i ==> same_letter(#[trigger] x@[j], y@[j]),
        decreases n - i,
    {
        if !same_letter_exec(x.get_char(i), y.get_char(i)) {
            return false;
        }
        i = i + 1;
    }
    true
}

/// Whether currency `c` is one of `tags`, up to ASCII case.
pub fn currency_listed(c: &str, tags: &Vec<String>) -> (r: bool)
    ensures
        r == in_filter(c@, tags.deep_view()),
{
    let mut i: usize = 0;
    while i < tags.len()
        invariant
            i <= tags.len(),
            forall|j: int| 0 <= j < i ==> !eq_ignore_ascii_case(#[trigger] tags.deep_view()[j], c@),
        decreases tags.len() - i,
    {
        if equal_ignoring_case(tags[i].as_str(), c) {
            assert(eq_ignore_ascii_case(tags.deep_view()[i as int], c@));
            return true;
        }
        i = i + 1;
    }
    false
}

/// Whether record `r` passes currency filter `filter`.
pub fn record_passes(r: &ParsedRecord, filter: &Option<Vec<String>>) -> (b: bool)
    ensures
        b == passes(r@, filter_view(*filter)),
{
    match &r.currency {
        None => true,
        Some(c) => match filter {
            None => true,
            Some(tags) => tags.len() == 0 || currency_listed(c.as_str(), tags),
        },
    }
}

/// Parses every raw string and keeps the records that pass the filter, in
/// order; strings that are no record are dropped.
pub fn matching_records(raws: &Vec<String>, filter: &Option<Vec<String>>) -> (r: Vec<ParsedRecord>)
    ensures
        records_view(r@) == kept(raws.deep_view(), filter_view(*filter)),
{
    let ghost f = filter_view(*filter);
    let mut out: Vec<ParsedRecord> = Vec::new();
    let mut i: usize = 0;
    assert(raws.deep_view().subrange(0, 0) =~= Seq::<Seq<char>>::empty());
    assert(records_view(out@) =~= Seq::<RecordView>::empty());
    while i < raws.len()
        invariant
            i <= raws.len(),
            f == filter_view(*filter),
            records_view(out@) == kept(raws.deep_view().subrange(0, i as int), f),
        decreases raws.len() - i,
    {
        let ghost prefix = raws.deep_view().subrange(0, i + 1);
        assert(prefix.drop_last() =~= raws.deep_view().subrange(0, i as int));
        assert(prefix.last() == raws[i as int]@);
        let parsed = parse_record(raws[i].as_str());
        match parsed {
            Some(rec) => {
                if record_passes(&rec, filter) {
                    let ghost prev = out@;
                    out.push(rec);
                    assert(records_view(out@) =~= records_view(prev).push(rec@));
                }
            },
            None => {},
        }
        i = i + 1;
    }
    assert(raws.deep_view().subrange(0, i as int) =~= raws.deep_view());
    out
}

/// Parses the raw strings of one lookup, applies the currency filter and
/// settles the outcome: `NoMatch` where no record survives, the record where
/// one does, all of them in order where several do.
pub fn parse_and_select(raws: &Vec<String>, filter: &Option<Vec<String>>) -> (r: Result<
    Selection,
    LookupError,
>)
    ensures
        outcome_view(r) == selection_of(kept(raws.deep_view(), filter_view(*filter))),
{
    let mut recs = matching_records(raws, filter);
    if recs.len() == 0 {
        Err(LookupError::NoMatch)
    } else if recs.len() == 1 {
        let ghost before = recs@;
        let rec = recs.pop().unwrap();
        assert(rec == before[0]);
        Ok(Selection::Single(rec))
    } else {
        Ok(Selection::Ambiguous(recs))
    }
}

} // verus!
