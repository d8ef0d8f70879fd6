//! Alias validation and conversion of an alias into the DNS name to query.

use vstd::prelude::*;
use vstd::string::*;
use crate::split::{pieces, lemma_pieces_step};

verus! {

/// The fixed discovery label put in front of an alias's domain to form the
/// name whose TXT records are queried. The local part of an alias does not
/// take part in the query: the records describe the whole domain.
pub const DISCOVERY_PREFIX: &'static str = "oa1._openalias.";

/// The longest domain name, in characters.
pub const MAX_DOMAIN_LEN: usize = 253;

/// The longest label of a domain name, in characters.
pub const MAX_LABEL_LEN: usize = 63;

/// A character that may stand in a label: an ASCII letter, digit or hyphen.
pub open spec fn is_label_char(c: char) -> bool {
    ('a' <= c && c <= 'z') || ('A' <= c && c <= 'Z') || ('0' <= c && c <= '9') || c == '-'
}

/// A label of a domain name: 1 to 63 letters, digits and hyphens, neither
/// starting nor ending with a hyphen.
pub open spec fn valid_label(l: Seq<char>) -> bool {
    &&& 1 <= l.len() <= MAX_LABEL_LEN
    &&& forall|i: int| 0 <= i < l.len() ==> is_label_char(#[trigger] l[i])
    &&& l[0] != '-'
    &&& l.last() != '-'
}

/// The labels of a domain name: its pieces between dots.
pub open spec fn labels(d: Seq<char>) -> Seq<Seq<char>> {
    pieces(d, |c: char| c == '.')
}

/// A syntactically valid domain name: 1 to 253 characters, every label valid.
pub open spec fn valid_domain(d: Seq<char>) -> bool {
    &&& 1 <= d.len() <= MAX_DOMAIN_LEN
    &&& forall|k: int| 0 <= k < labels(d).len() ==> valid_label(#[trigger] labels(d)[k])
}

/// `p` is the position of the one and only `@` of `a`.
pub open spec fn is_sole_at(a: Seq<char>, p: int) -> bool {
    &&& 0 <= p < a.len()
    &&& a[p] == '@'
    &&& forall|j: int| 0 <= j < a.len() && j != p ==> #[trigger] a[j] != '@'
}

/// The position of the sole `@` of `a`, where it has exactly one.
pub open spec fn at_position(a: Seq<char>) -> int {
    choose|p: int| is_sole_at(a, p)
}

/// The domain part of an alias: what follows its sole `@`.
pub open spec fn domain_part(a: Seq<char>) -> Seq<char> {
    a.subrange(at_position(a) + 1, a.len() as int)
}

/// A valid alias: exactly one `@`, a non-empty local part before it and a
/// valid domain name after it.
pub open spec fn valid_alias(a: Seq<char>) -> bool {
    &&& exists|p: int| is_sole_at(a, p)
    &&& at_position(a) > 0
    &&& valid_domain(domain_part(a))
}

/// The DNS name queried for a valid alias: the discovery prefix followed by
/// the alias's domain part.
pub open spec fn fqdn_of(a: Seq<char>) -> Seq<char> {
    DISCOVERY_PREFIX@ + domain_part(a)
}

/// The sole `@` of an alias is the one that `at_position` picks.
proof fn lemma_at_position(a: Seq<char>, p: int)
    requires
        is_sole_at(a, p),
    ensures
        at_position(a) == p,
{
    let q = at_position(a);
    assert(is_sole_at(a, q));
    if q != p {
        assert(a[q] != '@');
    }
}

/// A string without exactly one `@`, or whose part after its sole `@` is
/// not a valid domain name, is no alias: converting it gives nothing.
pub proof fn lemma_invalid_aliases(a: Seq<char>)
    requires
        (forall|j: int| 0 <= j < a.len() ==> a[j] != '@')
            || (exists|i: int, j: int| 0 <= i < j < a.len() && a[i] == '@' && a[j] == '@')
            || (exists|p: int|
            is_sole_at(a, p) && !valid_domain(#[trigger] a.subrange(p + 1, a.len() as int))),
    ensures
        !valid_alias(a),
{
    if exists|p: int| is_sole_at(a, p) {
        let p = choose|p: int| is_sole_at(a, p);
        lemma_at_position(a, p);
        if exists|i: int, j: int| 0 <= i < j < a.len() && a[i] == '@' && a[j] == '@' {
            let (i, j) = choose|i: int, j: int| 0 <= i < j < a.len() && a[i] == '@' && a[j] == '@';
            assert(i == p && j == p);
        }
        assert(a[p] == '@');
        if exists|q: int| is_sole_at(a, q) && !valid_domain(#[trigger] a.subrange(q + 1, a.len() as int)) {
            let q = choose|q: int| is_sole_at(a, q) && !valid_domain(#[trigger] a.subrange(q + 1, a.len() as int));
            lemma_at_position(a, q);
        }
    }
}

/// Conversion is a function of the alias alone: equal aliases are equally
/// valid and give the same name.
pub proof fn lemma_conversion_deterministic(a: Seq<char>, b: Seq<char>)
    requires
        a == b,
    ensures
        valid_alias(a) == valid_alias(b),
        fqdn_of(a) == fqdn_of(b),
{
}

fn is_label_char_exec(c: char) -> (r: bool)
    ensures
        r == is_label_char(c),
{
    ('a' <= c && c <= 'z') || ('A' <= c && c <= 'Z') || ('0' <= c && c <= '9') || c == '-'
}

/// Whether the characters of `d` from `start` up to `end` form a valid label.
fn is_valid_label(d: &str, start: usize, end: usize) -> (r: bool)
    requires
        start <= end <= d@.len(),
    ensures
        r == valid_label(d@.subrange(start as int, end as int)),
{
    let ghost l = d@.subrange(start as int, end as int);
    if end - start < 1 || end - start > MAX_LABEL_LEN {
        return false;
    }
    if d.get_char(start) == '-' || d.get_char(end - 1) == '-' {
        return false;
    }
    let mut i: usize = start;
    while i < end
        invariant
            start <= i <= end <= d@.len(),
            l == d@.subrange(start as int, end as int),
            forall|k: int| 0 <= k < i - start ==> is_label_char(#[trigger] l[k]),
        decreases end - i,
    {
        if !is_label_char_exec(d.get_char(i)) {
            assert(!is_label_char(l[i - start]));
            return false;
        }
        i = i + 1;
    }
    true
}

/// Whether `d` is a syntactically valid domain name.
pub fn is_valid_domain(d: &str) -> (r: bool)
    ensures
        r == valid_domain(d@),
{
    let n = d.unicode_len();
    if n < 1 || n > MAX_DOMAIN_LEN {
        return false;
    }
    let mut ok = true;
    let mut start: usize = 0;
    let mut i: usize = 0;
    while i < n
        invariant
            n == d@.len(),
            start <= i <= n,
            labels(d@.subrange(0, i as int)).len() >= 1,
            labels(d@.subrange(0, i as int)).last() == d@.subrange(start as int, i as int),
            ok == forall|k: int|
                0 <= k < labels(d@.subrange(0, i as int)).len() - 1 ==> valid_label(
                    #[trigger] labels(d@.subrange(0, i as int))[k],
                ),
        decreases n - i,
    {
        let ghost before = labels(d@.subrange(0, i as int));
        proof {
            lemma_pieces_step(d@, |c: char| c == '.', i as int);
        }
        let ghost after = labels(d@.subrange(0, i + 1));
        if d.get_char(i) == '.' {
            let label_ok = is_valid_label(d, start, i);
            proof {
                assert(after.len() == before.len() + 1);
                assert forall|k: int| 0 <= k < after.len() - 1 implies after[k] == before[k] by {}
                assert((ok && label_ok) == forall|k: int|
                    0 <= k < after.len() - 1 ==> valid_label(#[trigger] after[k]));
            }
            ok = ok && label_ok;
            start = i + 1;
            assert(after.last() =~= d@.subrange(start as int, i + 1));
        } else {
            proof {
                assert(after.len() == before.len());
                assert forall|k: int| 0 <= k < after.len() - 1 implies after[k] == before[k] by {}
                assert(after.last() =~= d@.subrange(start as int, i + 1));
            }
        }
        i = i + 1;
    }
    assert(d@.subrange(0, n as int) =~= d@);
    let last_ok = is_valid_label(d, start, n);
    ok && last_ok
}

/// Converts an alias into the DNS name whose TXT records describe it, or
/// `None` where the alias is not valid: not exactly one `@`, an empty local
/// part, or a domain part that is not a valid domain name.
pub fn alias_to_fqdn(alias: &str) -> (r: Option<String>)
    ensures
        r is Some <==> valid_alias(alias@),
        r is Some ==> r->0@ == fqdn_of(alias@),
{
    let n = alias.unicode_len();
    let mut p: usize = 0;
    while p < n && alias.get_char(p) != '@'
        invariant
            n == alias@.len(),
            p <= n,
            forall|j: int| 0 <= j < p ==> alias@[j] != '@',
        decreases n - p,
    {
        p = p + 1;
    }
    if p == n {
        assert forall|q: int| !is_sole_at(alias@, q) by {
            if is_sole_at(alias@, q) {
                assert(alias@[q] != '@');
            }
        }
        return None;
    }
    let mut j: usize = p + 1;
    while j < n
        invariant
            n == alias@.len(),
            p < j <= n,
            alias@[p as int] == '@',
            forall|k: int| 0 <= k < j && k != p ==> alias@[k] != '@',
        decreases n - j,
    {
        if alias.get_char(j) == '@' {
            assert forall|q: int| !is_sole_at(alias@, q) by {
                if is_sole_at(alias@, q) {
                    if q == p {
                        assert(alias@[j as int] != '@');
                    } else {
                        assert(alias@[p as int] != '@');
                    }
                }
            }
            return None;
        }
        j = j + 1;
    }
    assert(is_sole_at(alias@, p as int));
    proof {
        lemma_at_position(alias@, p as int);
    }
    if p == 0 {
        return None;
    }
    let domain = alias.substring_char(p + 1, n);
    if !is_valid_domain(domain) {
        return None;
    }
    let mut fqdn = String::from_str(DISCOVERY_PREFIX);
    fqdn.append(domain);
    Some(fqdn)
}

} // verus!
