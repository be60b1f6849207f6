use floormap::flextimestamp::{FlexTimestamp, TimestampParseError, MAX_NAIVE_SECS, MIN_NAIVE_SECS};
use floormap::flexuuid::FlexUuid;

#[test]
fn uuid_text_is_lowercase_hyphenated() {
    let u = FlexUuid::from_bits(0xa1a2a3a4b1b2c1c2d1d2d3d4d5d6d7d8);
    assert_eq!(u.to_string(), "a1a2a3a4-b1b2-c1c2-d1d2-d3d4d5d6d7d8");
    let z = FlexUuid::from_bits(0);
    assert_eq!(z.to_string(), "00000000-0000-0000-0000-000000000000");
}

#[test]
fn uuid_text_parses_back() {
    let u = FlexUuid::from_bits(0x1e79ba6efb3a11e9b12403c84357f69a);
    let s = u.to_string();
    assert_eq!(FlexUuid::from_str(&s), Some(u));
    assert_eq!(
        FlexUuid::from_str("1e79ba6e-fb3a-11e9-b124-03c84357f69a"),
        Some(FlexUuid::from_bits(0x1e79ba6efb3a11e9b12403c84357f69a))
    );
}

#[test]
fn uuid_parse_rejects_garbage() {
    assert_eq!(FlexUuid::from_str("not a uuid"), None);
    assert_eq!(FlexUuid::from_str(""), None);
}

#[test]
fn uuid_random_is_version_4_and_fresh() {
    let a = FlexUuid::new_random();
    let b = FlexUuid::default();
    assert_ne!(a, b);
    assert_eq!((a.bits >> 76) & 0xf, 4);
    assert_eq!((b.bits >> 62) & 0x3, 2);
    let text: Vec<char> = a.to_string().chars().collect();
    assert_eq!(text[14], '4');
    assert!(matches!(text[19], '8' | '9' | 'a' | 'b'));
}

#[test]
fn timestamp_round_trip() {
    let t = FlexTimestamp::from_timestamp(1_572_690_030);
    assert_eq!(t.timestamp(), 1_572_690_030);
    assert_eq!(t.nanos, 0);
}

#[test]
fn timestamp_range_bounds() {
    assert!(FlexTimestamp::try_from_timestamp(MIN_NAIVE_SECS).is_some());
    assert!(FlexTimestamp::try_from_timestamp(MAX_NAIVE_SECS).is_some());
    assert!(FlexTimestamp::try_from_timestamp(MIN_NAIVE_SECS - 1).is_none());
    assert!(FlexTimestamp::try_from_timestamp(MAX_NAIVE_SECS + 1).is_none());
    assert!(FlexTimestamp::try_from_timestamp(i64::MAX).is_none());
    assert_eq!(
        FlexTimestamp::try_from_timestamp(0),
        Some(FlexTimestamp { secs: 0, nanos: 0 })
    );
}

#[test]
fn timestamp_from_str_needs_fraction() {
    let t = FlexTimestamp::from_str("2019-11-02T10:20:30.123").unwrap();
    assert_eq!(t.secs, 1_572_690_030);
    assert_eq!(t.nanos, 123);
    assert_eq!(FlexTimestamp::from_str("2019-11-02T10:20:30"), Err(TimestampParseError));
    assert_eq!(FlexTimestamp::from_str("yesterday"), Err(TimestampParseError));
}

#[test]
fn timestamp_parse_flexible_falls_back() {
    assert_eq!(
        FlexTimestamp::parse_flexible("2019-11-02T10:20:30"),
        Some(FlexTimestamp { secs: 1_572_690_030, nanos: 0 })
    );
    assert_eq!(
        FlexTimestamp::parse_flexible("1970-01-01T00:00:01.5"),
        Some(FlexTimestamp { secs: 1, nanos: 5 })
    );
    assert_eq!(FlexTimestamp::parse_flexible("1970-01-01"), None);
}

#[test]
fn timestamp_now_is_valid_and_ordered() {
    let a = FlexTimestamp::now();
    let b = FlexTimestamp::default();
    assert!(a.nanos < 2_000_000_000);
    assert!(b.at_or_after(&a));
    let early = FlexTimestamp { secs: 5, nanos: 10 };
    let late = FlexTimestamp { secs: 5, nanos: 11 };
    assert!(late.at_or_after(&early));
    assert!(!early.at_or_after(&late));
    assert!(early.at_or_after(&early));
    assert!(early.order_key() < late.order_key());
    assert_eq!(late.order_key(), 5 * 2_000_000_000 + 11);
}

#[test]
fn uuid_parse_accepts_the_four_forms() {
    let u = Some(FlexUuid::from_bits(0x1e79ba6efb3a11e9b12403c84357f69a));
    assert_eq!(FlexUuid::from_str("1e79ba6efb3a11e9b12403c84357f69a"), u);
    assert_eq!(FlexUuid::from_str("1E79BA6E-FB3A-11E9-B124-03C84357F69A"), u);
    assert_eq!(FlexUuid::from_str("{1e79ba6e-fb3a-11e9-b124-03c84357f69a}"), u);
    assert_eq!(FlexUuid::from_str("URN:uuid:1e79ba6e-fb3a-11e9-b124-03c84357f69a"), u);
    assert_eq!(FlexUuid::from_str("1e79ba6e-fb3a11e9-b124-03c84357f69a-"), None);
    assert_eq!(FlexUuid::from_str("(1e79ba6e-fb3a-11e9-b124-03c84357f69a)"), None);
    assert_eq!(FlexUuid::from_str("urn:uid::1e79ba6e-fb3a-11e9-b124-03c84357f69a"), None);
    assert_eq!(FlexUuid::from_str("1e79ba6efb3a11e9b12403c84357f69g"), None);
    assert_eq!(FlexUuid::from_str("1e79ba6efb3a11e9b12403c84357f69"), None);
}
