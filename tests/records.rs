use openalias::lookup::{resolve_fetched, FetchError};
use openalias::record::{parse_record, split_tokens, ParsedRecord};
use openalias::select::{equal_ignoring_case, parse_and_select, LookupError, Selection};

fn raws(items: &[&str]) -> Vec<String> {
    items.iter().map(|s| s.to_string()).collect()
}

fn tags(items: &[&str]) -> Option<Vec<String>> {
    Some(raws(items))
}

fn record(address: &str, currency: Option<&str>) -> ParsedRecord {
    ParsedRecord {
        address: address.to_string(),
        recipient_name: None,
        memo: None,
        currency: currency.map(|c| c.to_string()),
    }
}

#[test]
fn single_record_matching_filter() {
    let set = raws(&["oa1=1 recipient_address=ADDR1 currency=BTC"]);
    let r = parse_and_select(&set, &tags(&["BTC"]));
    assert_eq!(r, Ok(Selection::Single(record("ADDR1", Some("BTC")))));
    match r {
        Ok(Selection::Single(rec)) => assert_eq!(rec.address, "ADDR1"),
        other => panic!("unexpected {:?}", other),
    }
}

#[test]
fn filter_excluding_the_only_currency() {
    let set = raws(&["oa1=1 recipient_address=ADDR1 currency=BTC"]);
    assert_eq!(parse_and_select(&set, &tags(&["ETH"])), Err(LookupError::NoMatch));
}

#[test]
fn two_records_without_filter_are_ambiguous() {
    let set = raws(&[
        "oa1=1 recipient_address=ADDR1 currency=BTC",
        "oa1=1 recipient_address=ADDR2 currency=XMR",
    ]);
    assert_eq!(
        parse_and_select(&set, &None),
        Ok(Selection::Ambiguous(vec![record("ADDR1", Some("BTC")), record("ADDR2", Some("XMR"))]))
    );
    // an empty filter does not narrow either
    assert_eq!(
        parse_and_select(&set, &tags(&[])),
        Ok(Selection::Ambiguous(vec![record("ADDR1", Some("BTC")), record("ADDR2", Some("XMR"))]))
    );
}

#[test]
fn filter_picks_one_of_several() {
    let set = raws(&[
        "oa1=1 recipient_address=ADDR1 currency=BTC",
        "oa1=1 recipient_address=ADDR2 currency=XMR",
    ]);
    assert_eq!(parse_and_select(&set, &tags(&["xmr", "eth"])), Ok(Selection::Single(record("ADDR2", Some("XMR")))));
}

#[test]
fn record_without_address_is_dropped() {
    let set = raws(&["oa1=1 recipient_name=Someone currency=BTC", "oa1=1 currency=XMR"]);
    assert_eq!(parse_and_select(&set, &None), Err(LookupError::NoMatch));
    let mixed = raws(&["oa1=1 currency=XMR", "oa1=1 recipient_address=ADDR3"]);
    assert_eq!(parse_and_select(&mixed, &None), Ok(Selection::Single(record("ADDR3", None))));
}

#[test]
fn record_without_version_marker_is_dropped() {
    assert_eq!(parse_record("recipient_address=ADDR1"), None);
    assert_eq!(parse_record("oa1=2 recipient_address=ADDR1"), None);
    assert_eq!(parse_record("oa1:btc recipient_address=ADDR1"), None);
    assert_eq!(parse_record(""), None);
}

#[test]
fn empty_set_differs_from_missing_name() {
    assert_eq!(resolve_fetched(Ok(Vec::new()), &None), Err(LookupError::NoData));
    assert_eq!(resolve_fetched(Err(FetchError::NameNotFound), &None), Err(LookupError::NameNotFound));
    assert_eq!(resolve_fetched(Err(FetchError::NoData), &None), Err(LookupError::NoData));
    assert_eq!(
        resolve_fetched(Err(FetchError::TransportFailure), &tags(&["BTC"])),
        Err(LookupError::TransportFailure)
    );
}

#[test]
fn resolve_parses_non_empty_sets() {
    let set = raws(&["oa1=1 recipient_address=ADDR1 currency=BTC"]);
    assert_eq!(resolve_fetched(Ok(set.clone()), &tags(&["BTC"])), Ok(Selection::Single(record("ADDR1", Some("BTC")))));
    assert_eq!(resolve_fetched(Ok(set), &tags(&["ETH"])), Err(LookupError::NoMatch));
}

#[test]
fn currency_matching_ignores_case() {
    let set = raws(&["oa1=1 recipient_address=ADDR1 currency=BTC"]);
    assert_eq!(parse_and_select(&set, &tags(&["btc"])), Ok(Selection::Single(record("ADDR1", Some("BTC")))));
    let lower = raws(&["oa1=1 recipient_address=ADDR1 currency=xmr"]);
    assert_eq!(parse_and_select(&lower, &tags(&["XmR"])), Ok(Selection::Single(record("ADDR1", Some("xmr")))));
}

#[test]
fn case_folding_is_ascii_only() {
    assert!(equal_ignoring_case("BTC", "btc"));
    assert!(equal_ignoring_case("a-1", "A-1"));
    assert!(!equal_ignoring_case("BTC", "BTX"));
    assert!(!equal_ignoring_case("BTC", "BTCX"));
    assert!(!equal_ignoring_case("@", "`"));
    assert!(!equal_ignoring_case("[", "{"));
}

#[test]
fn record_without_currency_passes_any_filter() {
    let set = raws(&["oa1=1 recipient_address=ADDR9"]);
    assert_eq!(parse_and_select(&set, &tags(&["ETH"])), Ok(Selection::Single(record("ADDR9", None))));
}

#[test]
fn all_fields_are_read() {
    let r = parse_record("oa1=1; recipient_address=ADDR1; recipient_name=Donations; tx_description=Thanks; currency=XMR;");
    assert_eq!(
        r,
        Some(ParsedRecord {
            address: "ADDR1".to_string(),
            recipient_name: Some("Donations".to_string()),
            memo: Some("Thanks".to_string()),
            currency: Some("XMR".to_string()),
        })
    );
}

#[test]
fn description_takes_precedence_over_memo() {
    let a = parse_record("oa1=1 recipient_address=A memo=M tx_description=D").unwrap();
    assert_eq!(a.memo, Some("D".to_string()));
    let b = parse_record("oa1=1 recipient_address=A memo=M").unwrap();
    assert_eq!(b.memo, Some("M".to_string()));
}

#[test]
fn first_occurrence_of_a_key_wins() {
    let r = parse_record("oa1=1 recipient_address=FIRST recipient_address=SECOND").unwrap();
    assert_eq!(r.address, "FIRST");
}

#[test]
fn value_may_hold_equals_sign_and_be_empty() {
    let r = parse_record("oa1=1\trecipient_address=a=b recipient_name= junk").unwrap();
    assert_eq!(r.address, "a=b");
    assert_eq!(r.recipient_name, Some(String::new()));
    assert_eq!(r.currency, None);
}

#[test]
fn tokens_split_on_whitespace_and_semicolons() {
    assert_eq!(split_tokens("  a=1;;b=2 \tc  "), vec!["a=1".to_string(), "b=2".to_string(), "c".to_string()]);
    assert_eq!(split_tokens(""), Vec::<String>::new());
    assert_eq!(split_tokens(" ; "), Vec::<String>::new());
}
