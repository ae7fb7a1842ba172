use prefixid::{CreateIdError, IdKind, PrefixId, DEFAULT_SEGMENT_LENGTH};

fn im_kind() -> IdKind {
    IdKind::new("im", 10).unwrap()
}

fn is_symbol(c: char) -> bool {
    c.is_ascii_digit() || c.is_ascii_lowercase() || c.is_ascii_uppercase()
}

#[test]
fn simple() {
    let id: String = prefixid::prefixid("im");

    assert_eq!(id.len(), 24);
    assert_eq!(&id[..3], "im_");
}

#[test]
fn size() {
    let id: String = prefixid::format("im", 10);

    assert_eq!(id.len(), 13);
    assert_eq!(&id[..3], "im_");
}

#[test]
fn simple_with_prefix() {
    let kind = IdKind::with_default_length("im").unwrap();

    let id = PrefixId::new(&kind);

    assert_eq!(id.len(), 24);
    assert_eq!(&id[..3], "im_");
}

#[test]
fn simple_with_prefix_and_size() {
    let kind = im_kind();

    let id = PrefixId::new(&kind);

    assert_eq!(id.len(), 13);
    assert_eq!(&id[..3], "im_");
}

#[test]
#[should_panic]
fn throw_invalid_size() {
    let _id: PrefixId = PrefixId::parse(&im_kind(), "im_123456789").unwrap();
}

#[test]
#[should_panic]
fn throw_invalid_prefix() {
    let _id: PrefixId = PrefixId::parse(&im_kind(), "in_1234567890").unwrap();
}

#[test]
fn test_as_str() {
    let id = PrefixId::new(&im_kind());

    assert_eq!(id.as_str(), &id[..]);
}

#[test]
fn owned_text_is_the_canonical_text() {
    let id = PrefixId::parse(&im_kind(), "im_abcdefghij").unwrap();

    assert_eq!(id.to_string(), String::from("im_abcdefghij"));
    assert_eq!(id.clone().into_string(), String::from("im_abcdefghij"));
    assert_eq!(&id[3..], "abcdefghij");
}

#[test]
fn test_serde_serialize() {
    let id = PrefixId::new(&im_kind());

    let serialized = serde_json::to_string(id.as_str()).unwrap();

    assert_eq!(serialized, format!("\"{}\"", id.to_string()));
}

#[test]
fn test_serde_deserialize() {
    let as_str = "\"im_1234567890\"";

    let text: String = serde_json::from_str(as_str).unwrap();
    let id = PrefixId::parse(&im_kind(), &text).unwrap();

    assert_eq!(id.as_str(), "im_1234567890");
}

#[test]
fn serde_round_trip_keeps_the_text() {
    let kind = im_kind();
    let id = PrefixId::new(&kind);

    let serialized = serde_json::to_string(id.as_str()).unwrap();
    let text: String = serde_json::from_str(&serialized).unwrap();
    let back = PrefixId::parse(&kind, &text).unwrap();

    assert_eq!(back.as_str(), id.as_str());
    assert_eq!(back, id);
}

#[test]
fn serde_malformed_text_is_an_error() {
    let text: String = serde_json::from_str("\"im_12\"").unwrap();

    assert_eq!(PrefixId::parse(&im_kind(), &text), Err(CreateIdError::InvalidSize));
}

#[test]
fn parse_rejects_wrong_length() {
    assert_eq!(PrefixId::parse(&im_kind(), "im_123456789"), Err(CreateIdError::InvalidSize));
    assert_eq!(PrefixId::parse(&im_kind(), "im_12345678901"), Err(CreateIdError::InvalidSize));
    assert_eq!(PrefixId::parse(&im_kind(), ""), Err(CreateIdError::InvalidSize));
}

#[test]
fn parse_rejects_wrong_prefix() {
    assert_eq!(PrefixId::parse(&im_kind(), "in_1234567890"), Err(CreateIdError::InvalidPrefix));
    assert_eq!(PrefixId::parse(&im_kind(), "xm_1234567890"), Err(CreateIdError::InvalidPrefix));
}

#[test]
fn parse_rejects_missing_separator() {
    assert_eq!(PrefixId::parse(&im_kind(), "im-1234567890"), Err(CreateIdError::InvalidPrefix));
    assert_eq!(PrefixId::parse(&im_kind(), "im12345678901"), Err(CreateIdError::InvalidPrefix));
}

#[test]
fn parse_tests_length_before_prefix() {
    assert_eq!(PrefixId::parse(&im_kind(), "in_123456789"), Err(CreateIdError::InvalidSize));
    assert_eq!(PrefixId::parse(&im_kind(), "xx"), Err(CreateIdError::InvalidSize));
}

#[test]
fn parse_keeps_the_text_verbatim() {
    let id = PrefixId::parse(&im_kind(), "im_1234567890").unwrap();

    assert_eq!(id.as_str(), "im_1234567890");
    assert_eq!(id.clone().into_string(), String::from("im_1234567890"));
    assert_eq!(id.kind(), &im_kind());
}

#[test]
fn parse_does_not_look_at_the_segment() {
    let id = PrefixId::parse(&im_kind(), "im_!!--??  __").unwrap();

    assert_eq!(id.as_str(), "im_!!--??  __");
}

#[test]
fn parse_counts_bytes() {
    let kind = IdKind::new("é", 3).unwrap();

    assert_eq!(kind.total_length(), 6);
    assert_eq!(PrefixId::parse(&kind, "é_abc").unwrap().as_str(), "é_abc");
    assert_eq!(PrefixId::parse(&kind, "e_abc"), Err(CreateIdError::InvalidSize));
    assert_eq!(PrefixId::parse(&kind, "e_abcd"), Err(CreateIdError::InvalidPrefix));
    assert_eq!(PrefixId::parse(&kind, "é_aé").unwrap().as_str(), "é_aé");
    assert_eq!(PrefixId::parse(&kind, "é_aéb"), Err(CreateIdError::InvalidSize));
}

#[test]
fn fresh_id_parses_back() {
    let kind = im_kind();
    let id = PrefixId::new(&kind);

    let back = PrefixId::parse(&kind, id.as_str()).unwrap();

    assert_eq!(back.as_str(), id.as_str());
    assert_eq!(back, id);
}

#[test]
fn fresh_id_has_length_prefix_and_symbols() {
    let kind = IdKind::new("order", 32).unwrap();
    let id = PrefixId::new(&kind);
    let text = id.as_str();

    assert_eq!(text.len(), 5 + 1 + 32);
    assert_eq!(text.len(), kind.total_length());
    assert!(text.starts_with("order_"));
    assert!(text[6..].chars().all(is_symbol));
}

#[test]
fn fresh_text_after_a_long_prefix() {
    let text = prefixid::format("päfix", 7);

    assert_eq!(text.len(), 6 + 1 + 7);
    assert_eq!(text.chars().count(), 5 + 1 + 7);
    assert!(text.starts_with("päfix_"));
    assert!(text["päfix_".len()..].chars().all(is_symbol));
}

#[test]
fn format_with_no_symbols() {
    assert_eq!(prefixid::format("im", 0), String::from("im_"));
    assert_eq!(prefixid::format("", 0), String::from("_"));
}

#[test]
fn generate_gives_symbols_only() {
    let segment = prefixid::generate(500);

    assert_eq!(segment.len(), 500);
    assert!(segment.chars().all(is_symbol));
}

#[test]
fn generate_of_nothing() {
    assert_eq!(prefixid::generate(0), String::new());
    assert_eq!(prefixid::generate(1).len(), 1);
}

#[test]
fn alphabet_in_order() {
    let table = prefixid::alphabet::symbols();
    let text: String = table.iter().collect();

    assert_eq!(text, "0123456789abcdefghijklmnopqrstuvwxyzABCDEFGHIJKLMNOPQRSTUVWXYZ");
}

#[test]
fn every_symbol_is_drawn() {
    let segment = prefixid::generate(20000);

    for symbol in prefixid::alphabet::symbols() {
        assert!(segment.contains(symbol));
    }
}

#[test]
fn compose_joins_with_the_separator() {
    assert_eq!(prefixid::compose("im", "1234567890"), String::from("im_1234567890"));
    assert_eq!(prefixid::compose("user", ""), String::from("user_"));
    assert_eq!(prefixid::compose("", "x"), String::from("_x"));
}

#[test]
fn starts_with_lead_wants_prefix_and_separator() {
    assert!(prefixid::text::starts_with_lead("im_1", "im"));
    assert!(prefixid::text::starts_with_lead("im_", "im"));
    assert!(prefixid::text::starts_with_lead("_", ""));
    assert!(!prefixid::text::starts_with_lead("im", "im"));
    assert!(!prefixid::text::starts_with_lead("imx1", "im"));
    assert!(!prefixid::text::starts_with_lead("in_1", "im"));
    assert!(!prefixid::text::starts_with_lead("", "im"));
    assert!(!prefixid::text::starts_with_lead("é_", "e"));
}

#[test]
fn kind_holds_its_configuration() {
    let kind = im_kind();

    assert_eq!(kind.prefix(), "im");
    assert_eq!(kind.segment_length(), 10);
    assert_eq!(kind.total_length(), 13);
    assert_eq!(kind.clone(), kind);
}

#[test]
fn default_segment_length() {
    let kind = IdKind::with_default_length("im").unwrap();

    assert_eq!(DEFAULT_SEGMENT_LENGTH, 21);
    assert_eq!(kind.segment_length(), 21);
    assert_eq!(kind.total_length(), 24);
    assert_eq!(kind, IdKind::new("im", 21).unwrap());
}

#[test]
fn kind_needs_a_prefix_and_a_length() {
    assert!(IdKind::new("", 10).is_none());
    assert!(IdKind::new("im", 0).is_none());
    assert!(IdKind::with_default_length("").is_none());
    assert!(IdKind::new("i", 1).is_some());
}

#[test]
fn kind_has_a_longest_text() {
    let max = prefixid::MAX_TEXT_LENGTH;

    assert_eq!(max, usize::MAX / 8);
    assert!(IdKind::new("im", max).is_none());
    assert!(IdKind::new("im", max - 2).is_none());
    assert!(IdKind::new("im", max - 3).is_some());
    assert!(IdKind::new("im", usize::MAX).is_none());
}

#[test]
fn ids_differ_by_kind_and_text() {
    let a = PrefixId::parse(&im_kind(), "im_1_34567890").unwrap();
    let b = PrefixId::parse(&im_kind(), "im_1_34567891").unwrap();
    let c = PrefixId::parse(&IdKind::new("im_1", 8).unwrap(), "im_1_34567890").unwrap();

    assert_eq!(a, a.clone());
    assert_ne!(a, b);
    assert_ne!(a, c);
    assert_eq!(a.as_str(), c.as_str());
}

#[test]
fn many_fresh_ids_are_distinct() {
    let kind = IdKind::with_default_length("im").unwrap();
    let mut seen = std::collections::HashSet::new();

    for _ in 0..10000 {
        assert!(seen.insert(PrefixId::new(&kind).into_string()));
    }
    assert_eq!(seen.len(), 10000);
}
