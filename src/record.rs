//! The key=value grammar of one TXT record.

use vstd::prelude::*;
use vstd::string::*;
use crate::split::{pieces, lemma_pieces_len, lemma_pieces_step};

verus! {

/// The key whose value marks a record of this protocol.
pub const VERSION_KEY: &'static str = "oa1";

/// The value that `VERSION_KEY` must carry.
pub const VERSION_TAG: &'static str = "1";

/// The key of the payment address; a record without it is no record.
pub const ADDRESS_KEY: &'static str = "recipient_address";

/// The key of the recipient's name.
pub const NAME_KEY: &'static str = "recipient_name";

/// The key of the transaction description; it takes precedence over `MEMO_KEY`.
pub const DESCRIPTION_KEY: &'static str = "tx_description";

/// The other key of the memo.
pub const MEMO_KEY: &'static str = "memo";

/// The key of the currency a record is scoped to.
pub const CURRENCY_KEY: &'static str = "currency";

/// A payment record read from one TXT string.
#[derive(Debug, Clone, PartialEq, Eq)]
pub struct ParsedRecord {
    pub address: String,
    pub recipient_name: Option<String>,
    pub memo: Option<String>,
    pub currency: Option<String>,
}

/// What a `ParsedRecord` holds, as character sequences.
pub struct RecordView {
    pub address: Seq<char>,
    pub recipient_name: Option<Seq<char>>,
    pub memo: Option<Seq<char>>,
    pub currency: Option<Seq<char>>,
}

/// The characters of an optional string.
pub open spec fn opt_view(o: Option<String>) -> Option<Seq<char>> {
    match o {
        Some(s) => Some(s@),
        None => None,
    }
}

impl View for ParsedRecord {
    type V = RecordView;

    open spec fn view(&self) -> RecordView {
        RecordView {
            address: self.address@,
            recipient_name: opt_view(self.recipient_name),
            memo: opt_view(self.memo),
            currency: opt_view(self.currency),
        }
    }
}

/// Characters that separate the `key=value` pairs of a record: ASCII
/// whitespace and `;`.
pub open spec fn is_field_sep(c: char) -> bool {
    c == ' ' || c == '\t' || c == '\n' || c == '\r' || c == ';'
}

/// The non-empty sequences among `p`, in order.
pub open spec fn nonempty(p: Seq<Seq<char>>) -> Seq<Seq<char>>
    decreases p.len(),
{
    if p.len() == 0 {
        Seq::empty()
    } else if p.last().len() > 0 {
        nonempty(p.drop_last()).push(p.last())
    } else {
        nonempty(p.drop_last())
    }
}

/// The tokens of a record: its maximal runs of characters that are not
/// separators, in order.
pub open spec fn tokens(s: Seq<char>) -> Seq<Seq<char>> {
    nonempty(pieces(s, |c: char| is_field_sep(c)))
}

/// Token `t` is `key=` followed by a value.
pub open spec fn has_key(t: Seq<char>, key: Seq<char>) -> bool {
    &&& t.len() > key.len()
    &&& t.subrange(0, key.len() as int) == key
    &&& t[key.len() as int] == '='
}

/// What follows `key=` in a token that has that key.
pub open spec fn value_after(t: Seq<char>, key: Seq<char>) -> Seq<char> {
    t.subrange(key.len() as int + 1, t.len() as int)
}

/// The value of the first token with key `key`, if any.
pub open spec fn field_value(toks: Seq<Seq<char>>, key: Seq<char>) -> Option<Seq<char>>
    decreases toks.len(),
{
    if toks.len() == 0 {
        None
    } else if has_key(toks[0], key) {
        Some(value_after(toks[0], key))
    } else {
        field_value(toks.drop_first(), key)
    }
}

/// The memo of a record: its transaction description, else its memo field.
pub open spec fn memo_of(toks: Seq<Seq<char>>) -> Option<Seq<char>> {
    if field_value(toks, DESCRIPTION_KEY@) is Some {
        field_value(toks, DESCRIPTION_KEY@)
    } else {
        field_value(toks, MEMO_KEY@)
    }
}

/// The record that a raw TXT string describes: `None` unless it carries the
/// version marker and an address.
pub open spec fn record_of(raw: Seq<char>) -> Option<RecordView> {
    let t = tokens(raw);
    if field_value(t, VERSION_KEY@) == Some(VERSION_TAG@) && field_value(t, ADDRESS_KEY@) is Some {
        Some(
            RecordView {
                address: field_value(t, ADDRESS_KEY@)->0,
                recipient_name: field_value(t, NAME_KEY@),
                memo: memo_of(t),
                currency: field_value(t, CURRENCY_KEY@),
            },
        )
    } else {
        None
    }
}

fn is_field_sep_exec(c: char) -> (r: bool)
    ensures
        r == is_field_sep(c),
{
    c == ' ' || c == '\t' || c == '\n' || c == '\r' || c == ';'
}

/// Splits a raw record into its tokens.
pub fn split_tokens(raw: &str) -> (r: Vec<String>)
    ensures
        r.deep_view() == tokens(raw@),
{
    let ghost sep = |c: char| is_field_sep(c);
    let n = raw.unicode_len();
    let mut toks: Vec<String> = Vec::new();
    let mut start: usize = 0;
    let mut i: usize = 0;
    proof {
        lemma_pieces_len(raw@.subrange(0, 0), sep);
        assert(raw@.subrange(0, 0) =~= Seq::<char>::empty());
        assert(pieces(raw@.subrange(0, 0), sep).drop_last() =~= Seq::<Seq<char>>::empty());
        assert(toks.deep_view() =~= Seq::<Seq<char>>::empty());
    }
    while i < n
        invariant
            n == raw@.len(),
            start <= i <= n,
            sep == (|c: char| is_field_sep(c)),
            pieces(raw@.subrange(0, i as int), sep).len() >= 1,
            pieces(raw@.subrange(0, i as int), sep).last() == raw@.subrange(
                start as int,
                i as int,
            ),
            toks.deep_view() == nonempty(pieces(raw@.subrange(0, i as int), sep).drop_last()),
        decreases n - i,
    {
        let ghost before = pieces(raw@.subrange(0, i as int), sep);
        proof {
            lemma_pieces_step(raw@, sep, i as int);
        }
        let ghost after = pieces(raw@.subrange(0, i + 1), sep);
        if is_field_sep_exec(raw.get_char(i)) {
            assert(after.drop_last() =~= before);
            if start < i {
                let t = String::from_str(raw.substring_char(start, i));
                let ghost prev = toks.deep_view();
                toks.push(t);
                assert(toks.deep_view() =~= prev.push(before.last()));
            }
            start = i + 1;
            assert(after.last() =~= raw@.subrange(start as int, i + 1));
        } else {
            assert(after.drop_last() =~= before.drop_last());
            assert(after.last() =~= raw@.subrange(start as int, i + 1));
        }
        i = i + 1;
    }
    assert(raw@.subrange(0, n as int) =~= raw@);
    if start < n {
        let t = String::from_str(raw.substring_char(start, n));
        let ghost prev = toks.deep_view();
        toks.push(t);
        assert(toks.deep_view() =~= prev.push(raw@.subrange(start as int, n as int)));
    }
    toks
}

/// The value of token `tok` where it is `key=value`.
fn value_for_key(tok: &str, key: &str) -> (r: Option<String>)
    ensures
        r is Some <==> has_key(tok@, key@),
        r is Some ==> r->0@ == value_after(tok@, key@),
{
    let n = tok.unicode_len();
    let m = key.unicode_len();
    if n <= m {
        return None;
    }
    let mut k: usize = 0;
    while k < m
        invariant
            m == key@.len(),
            n == tok@.len(),
            m < n,
            k <= m,
            forall|j: int| 0 <= j < k ==> tok@[j] == key@[j],
        decreases m - k,
    {
        if tok.get_char(k) != key.get_char(k) {
            assert(tok@.subrange(0, m as int)[k as int] != key@[k as int]);
            return None;
        }
        k = k + 1;
    }
    assert(tok@.subrange(0, m as int) =~= key@);
    if tok.get_char(m) != '=' {
        return None;
    }
    Some(String::from_str(tok.substring_char(m + 1, n)))
}

/// The value of the first token with key `key`.
pub fn find_field(toks: &Vec<String>, key: &str) -> (r: Option<String>)
    ensures
        opt_view(r) == field_value(toks.deep_view(), key@),
{
    let mut i: usize = 0;
    assert(toks.deep_view().skip(0) =~= toks.deep_view());
    while i < toks.len()
        invariant
            i <= toks.len(),
            field_value(toks.deep_view(), key@) == field_value(toks.deep_view().skip(i as int), key@),
        decreases toks.len() - i,
    {
        let ghost rest = toks.deep_view().skip(i as int);
        assert(rest[0] == toks[i as int]@);
        let v = value_for_key(toks[i].as_str(), key);
        if v.is_some() {
            return v;
        }
        assert(rest.drop_first() =~= toks.deep_view().skip(i + 1));
        i = i + 1;
    }
    assert(toks.deep_view().skip(i as int) =~= Seq::<Seq<char>>::empty());
    None
}

/// Reads the record that a raw TXT string describes; `None` where the string
/// lacks the version marker or the address.
pub fn parse_record(raw: &str) -> (r: Option<ParsedRecord>)
    ensures
        r is Some <==> record_of(raw@) is Some,
        r is Some ==> r->0@ == record_of(raw@)->0,
{
    let toks = split_tokens(raw);
    let version = find_field(&toks, VERSION_KEY);
    let address = find_field(&toks, ADDRESS_KEY);
    let marked = match version {
        Some(v) => v == String::from_str(VERSION_TAG),
        None => false,
    };
    if !marked {
        return None;
    }
    match address {
        None => None,
        Some(address) => {
            let description = find_field(&toks, DESCRIPTION_KEY);
            let memo = if description.is_some() {
                description
            } else {
                find_field(&toks, MEMO_KEY)
            };
            Some(
                ParsedRecord {
                    address,
                    recipient_name: find_field(&toks, NAME_KEY),
                    memo,
                    currency: find_field(&toks, CURRENCY_KEY),
                },
            )
        },
    }
}

} // verus!
