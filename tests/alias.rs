use openalias::alias::{alias_to_fqdn, is_valid_domain};
use openalias::lookup::query_name;
use openalias::select::LookupError;
use openalias::Options;

#[test]
fn converts_valid_alias() {
    assert_eq!(alias_to_fqdn("donate@example.org"), Some("oa1._openalias.example.org".to_string()));
}

#[test]
fn local_part_is_not_queried() {
    assert_eq!(alias_to_fqdn("alice@getmonero.org"), alias_to_fqdn("bob@getmonero.org"));
    assert_eq!(alias_to_fqdn("a@b"), Some("oa1._openalias.b".to_string()));
}

#[test]
fn conversion_is_deterministic() {
    let first = alias_to_fqdn("donate@example.org");
    let second = alias_to_fqdn("donate@example.org");
    assert!(first.is_some());
    assert_eq!(first, second);
}

#[test]
fn rejects_alias_without_at() {
    assert_eq!(alias_to_fqdn("example.org"), None);
    assert_eq!(alias_to_fqdn(""), None);
}

#[test]
fn rejects_alias_with_two_ats() {
    assert_eq!(alias_to_fqdn("a@b@example.org"), None);
    assert_eq!(alias_to_fqdn("donate@example.org@"), None);
}

#[test]
fn rejects_empty_local_part() {
    assert_eq!(alias_to_fqdn("@example.org"), None);
}

#[test]
fn rejects_invalid_domains() {
    assert_eq!(alias_to_fqdn("donate@"), None);
    assert_eq!(alias_to_fqdn("donate@example..org"), None);
    assert_eq!(alias_to_fqdn("donate@example.org."), None);
    assert_eq!(alias_to_fqdn("donate@.example.org"), None);
    assert_eq!(alias_to_fqdn("donate@-example.org"), None);
    assert_eq!(alias_to_fqdn("donate@example-.org"), None);
    assert_eq!(alias_to_fqdn("donate@exa_mple.org"), None);
    assert_eq!(alias_to_fqdn("donate@exa mple.org"), None);
    assert_eq!(alias_to_fqdn("donate@ex\u{e4}mple.org"), None);
}

#[test]
fn accepts_hyphens_and_digits_inside_labels() {
    assert_eq!(alias_to_fqdn("x@my-host1.EXAMPLE.org"), Some("oa1._openalias.my-host1.EXAMPLE.org".to_string()));
}

#[test]
fn label_length_limit() {
    let ok = "a".repeat(63);
    let long = "a".repeat(64);
    assert!(is_valid_domain(&format!("{}.org", ok)));
    assert!(!is_valid_domain(&format!("{}.org", long)));
    assert_eq!(alias_to_fqdn(&format!("x@{}.org", long)), None);
}

#[test]
fn domain_length_limit() {
    let label = "a".repeat(63);
    // four labels of 63 and three dots: 255 characters
    let too_long = format!("{0}.{0}.{0}.{0}", label);
    assert_eq!(too_long.len(), 255);
    assert!(!is_valid_domain(&too_long));
    // 63 + 1 + 63 + 1 + 63 + 1 + 61 = 253 characters
    let longest = format!("{0}.{0}.{0}.{1}", label, "a".repeat(61));
    assert_eq!(longest.len(), 253);
    assert!(is_valid_domain(&longest));
    let one_more = format!("{0}.{0}.{0}.{1}", label, "a".repeat(62));
    assert!(!is_valid_domain(&one_more));
}

#[test]
fn query_name_reports_invalid() {
    assert_eq!(query_name("nope"), Err(LookupError::Invalid));
    assert_eq!(query_name("donate@example.org"), Ok("oa1._openalias.example.org".to_string()));
}

#[test]
fn validator_accepts_and_rejects() {
    assert_eq!(Options::open_alias_validator("donate@example.org".to_string()), Ok(()));
    assert_eq!(
        Options::open_alias_validator("bad".to_string()),
        Err("bad is not a valid OpenAlias address".to_string())
    );
}
