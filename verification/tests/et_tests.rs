use et_timestamp::key_value::Field;
use et_timestamp::Et;
use et_timestamp::EtError;

fn field(key: &str, value: i64) -> Field {
    Field { key: String::from(key), value }
}

#[test]
fn rs_json() {
    let now = time::get_time();
    let t = Et::new(now.sec, now.nsec);
    let e = t.encode_positional();
    let t2 = Et::decode_positional(&e).unwrap();
    assert_eq!(t, t2);
}

#[test]
fn rs_bincode() {
    let now = time::get_time();
    let t = Et::new(now.sec, now.nsec);
    let e = t.encode_positional();
    let t2 = Et::decode_positional(&e).unwrap();
    assert_eq!(t, t2);
}

#[test]
fn serde_bincode() {
    let now = time::get_time();
    let t = Et::new(now.sec, now.nsec);
    let e = t.encode_key_value();
    let t2 = Et::decode_key_value(&e).unwrap();
    assert_eq!(t, t2);
}

#[test]
fn construction_and_field_access() {
    let t = Et::new(123, 456);
    assert_eq!(t.sec(), 123);
    assert_eq!(t.nsec(), 456);
    assert_eq!(t.sec, 123);
    assert_eq!(t.nsec, 456);
}

#[test]
fn equality_same_pair() {
    assert_eq!(Et::new(5, 7), Et::new(5, 7));
    assert_eq!(Et::new(-5, -7), Et::new(-5, -7));
}

#[test]
fn equality_differs_in_either_field() {
    assert_ne!(Et::new(5, 7), Et::new(6, 7));
    assert_ne!(Et::new(5, 7), Et::new(5, 8));
}

#[test]
fn positional_round_trip() {
    for &(sec, nsec) in &[
        (0i64, 0i32),
        (1609459200, 123456789),
        (-1, -1),
        (i64::MIN, i32::MIN),
        (i64::MAX, i32::MAX),
        (-62135596800, 2000000000),
    ] {
        let t = Et::new(sec, nsec);
        let e = t.encode_positional();
        assert_eq!(e.len(), 12);
        assert_eq!(Et::decode_positional(&e), Ok(t));
    }
}

#[test]
fn positional_exact_bytes() {
    let e = Et::new(1, 2).encode_positional();
    assert_eq!(e, vec![1, 0, 0, 0, 0, 0, 0, 0, 2, 0, 0, 0]);
    let e = Et::new(-1, -1).encode_positional();
    assert_eq!(e, vec![0xff; 12]);
    let e = Et::new(258, 0).encode_positional();
    assert_eq!(e, vec![2, 1, 0, 0, 0, 0, 0, 0, 0, 0, 0, 0]);
}

#[test]
fn positional_wrong_length_is_malformed() {
    assert_eq!(Et::decode_positional(&[]), Err(EtError::MalformedEncoding));
    assert_eq!(Et::decode_positional(&[0; 11]), Err(EtError::MalformedEncoding));
    assert_eq!(Et::decode_positional(&[0; 13]), Err(EtError::MalformedEncoding));
}

#[test]
fn key_value_encode_shape() {
    let e = Et::new(77, 88).encode_key_value();
    assert_eq!(e.len(), 2);
    assert_eq!(e[0].key, "sec");
    assert_eq!(e[0].value, 77);
    assert_eq!(e[1].key, "nsec");
    assert_eq!(e[1].value, 88);
}

#[test]
fn key_value_round_trip() {
    for &(sec, nsec) in &[(0i64, 0i32), (1609459200, 500000000), (-1, -1), (i64::MIN, i32::MIN)] {
        let t = Et::new(sec, nsec);
        let e = t.encode_key_value();
        assert_eq!(Et::decode_key_value(&e), Ok(t));
    }
}

#[test]
fn key_value_keys_in_either_order() {
    let fields = vec![field("nsec", 9), field("sec", 8)];
    assert_eq!(Et::decode_key_value(&fields), Ok(Et::new(8, 9)));
}

#[test]
fn key_value_missing_nsec() {
    let fields = vec![field("sec", 1)];
    assert_eq!(Et::decode_key_value(&fields), Err(EtError::MissingField));
}

#[test]
fn key_value_missing_sec() {
    let fields = vec![field("nsec", 1)];
    assert_eq!(Et::decode_key_value(&fields), Err(EtError::MissingField));
}

#[test]
fn key_value_empty_is_missing() {
    assert_eq!(Et::decode_key_value(&vec![]), Err(EtError::MissingField));
}

#[test]
fn key_value_unknown_field() {
    let fields = vec![field("sec", 1), field("foo", 2), field("nsec", 3)];
    assert_eq!(Et::decode_key_value(&fields), Err(EtError::UnknownField));
}

#[test]
fn key_value_nsec_out_of_range_is_malformed() {
    let fields = vec![field("sec", 1), field("nsec", 3_000_000_000)];
    assert_eq!(Et::decode_key_value(&fields), Err(EtError::MalformedEncoding));
    let fields = vec![field("sec", 1), field("nsec", -3_000_000_000)];
    assert_eq!(Et::decode_key_value(&fields), Err(EtError::MalformedEncoding));
}

#[test]
fn key_value_duplicate_key_last_wins() {
    let fields = vec![field("sec", 1), field("sec", 2), field("nsec", 3)];
    assert_eq!(Et::decode_key_value(&fields), Ok(Et::new(2, 3)));
}

#[test]
fn display_new_year_2021() {
    let s = Et::new(1609459200, 0).to_display_string().unwrap();
    assert_eq!(s, "2021-01-01T00:00:00Z");
    let s = Et::new(1609459200, 123456789).to_display_string().unwrap();
    assert_eq!(s, "2021-01-01T00:00:00Z");
}

#[test]
fn display_ignores_nanoseconds() {
    let a = Et::new(1609459200, 0).to_display_string().unwrap();
    let b = Et::new(1609459200, 500000000).to_display_string().unwrap();
    assert_eq!(a, b);
}

#[test]
fn display_epoch() {
    let s = Et::new(0, 0).to_display_string().unwrap();
    assert_eq!(s, "1970-01-01T00:00:00Z");
}

#[test]
fn display_pre_epoch() {
    let s = Et::new(-1, 0).to_display_string().unwrap();
    assert_eq!(s, "1969-12-31T23:59:59Z");
}

#[test]
fn display_leap_day() {
    let s = Et::new(1582934400, 0).to_display_string().unwrap();
    assert_eq!(s, "2020-02-29T00:00:00Z");
}

#[test]
fn display_arbitrary_instant() {
    // 2001-09-09T01:46:40Z, one billion seconds after the epoch.
    let s = Et::new(1_000_000_000, 0).to_display_string().unwrap();
    assert_eq!(s, "2001-09-09T01:46:40Z");
}

#[test]
fn display_edges_of_the_four_digit_era() {
    let s = Et::new(-62167219200, 0).to_display_string().unwrap();
    assert_eq!(s, "0000-01-01T00:00:00Z");
    let s = Et::new(253402300799, 0).to_display_string().unwrap();
    assert_eq!(s, "9999-12-31T23:59:59Z");
}

#[test]
fn display_out_of_range() {
    assert_eq!(Et::new(-62167219201, 0).to_display_string(), Err(EtError::FormatRangeError));
    assert_eq!(Et::new(253402300800, 0).to_display_string(), Err(EtError::FormatRangeError));
    assert_eq!(Et::new(i64::MIN, 0).to_display_string(), Err(EtError::FormatRangeError));
    assert_eq!(Et::new(i64::MAX, 0).to_display_string(), Err(EtError::FormatRangeError));
}
