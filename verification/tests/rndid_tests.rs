use replicante_util::rndid::DecodeError;
use replicante_util::rndid::DecodeKind;
use replicante_util::rndid::RndId;

#[test]
fn ids_differ() {
    let id1 = RndId::new();
    let id2 = RndId::new();
    assert_ne!(id1, id2);
}

#[test]
fn new_ids_are_lowercase_hex() {
    let id = RndId::new();
    let text = id.as_str();
    assert_eq!(text.len(), 32);
    assert!(text.chars().all(|c| c.is_ascii_hexdigit() && !c.is_ascii_uppercase()));
}

#[test]
fn from_string() {
    let raw_id = "ce84c2f150f72f1499d28b50c550c4c0";
    let id: RndId = raw_id.parse().unwrap();
    assert_eq!(id.as_str(), raw_id);
}

#[test]
fn from_string_upper() {
    let raw_id = "CE84c2f150f72f1499D28b50c550c4c0";
    let id: RndId = raw_id.parse().unwrap();
    assert_eq!(id.as_str(), raw_id.to_lowercase());
}

#[test]
#[should_panic(expected = "kind: Length")]
fn from_string_invalid_length() {
    let raw_id = "ABC";
    let _id: RndId = raw_id.parse().unwrap();
}

#[test]
#[should_panic(expected = "DecodeError")]
fn from_string_not_hex() {
    let raw_id = "%^84c2f150f72f1499d28b50c550c4c0";
    let _id: RndId = raw_id.parse().unwrap();
}

#[test]
fn parse_reports_first_bad_symbol() {
    let raw_id = "ce84c2f150f72f14_9d28b50c550c4c0";
    let error = RndId::parse(raw_id).unwrap_err();
    assert_eq!(error, DecodeError { position: 16, kind: DecodeKind::Symbol });
}

#[test]
fn parse_reports_wrong_length() {
    let error = RndId::parse("ce84c2f1").unwrap_err();
    assert_eq!(error, DecodeError { position: 0, kind: DecodeKind::Length });
}

#[test]
fn parse_round_trip() {
    let id = RndId::new();
    let again: RndId = id.as_str().parse().unwrap();
    assert_eq!(id, again);
}
