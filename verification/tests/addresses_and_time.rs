use dneyes::utils::ip_addr::IpAddress;
use dneyes::utils::text::split_lines;
use dneyes::utils::time_utils::{
    duration_from_wire_value, duration_wire_value, TimeSpan, Timestamp,
};

fn v6(s: [u16; 8]) -> IpAddress {
    IpAddress::V6(s)
}

#[test]
fn ipv4_text_is_dotted_decimal() {
    assert_eq!(IpAddress::V4([8, 8, 8, 8]).to_text(), "8.8.8.8");
    assert_eq!(IpAddress::V4([192, 168, 0, 255]).to_text(), "192.168.0.255");
    assert_eq!(IpAddress::V4([0, 0, 0, 0]).to_text(), "0.0.0.0");
}

#[test]
fn ipv6_text_compresses_longest_zero_run() {
    assert_eq!(v6([0x2001, 0xdb8, 0, 0, 0, 0, 0, 1]).to_text(), "2001:db8::1");
    assert_eq!(v6([0; 8]).to_text(), "::");
    assert_eq!(v6([0, 0, 0, 0, 0, 0, 0, 1]).to_text(), "::1");
    assert_eq!(v6([1, 0, 0, 0, 0, 0, 0, 0]).to_text(), "1::");
    assert_eq!(v6([1, 0, 0, 2, 0, 0, 3, 4]).to_text(), "1::2:0:0:3:4");
    assert_eq!(v6([1, 0, 0, 2, 0, 0, 0, 3]).to_text(), "1:0:0:2::3");
    assert_eq!(v6([1, 0, 2, 0, 3, 0, 4, 0]).to_text(), "1:0:2:0:3:0:4:0");
    assert_eq!(
        v6([0x2001, 0x4860, 0x4860, 0, 0, 0, 0, 0x8888]).to_text(),
        "2001:4860:4860::8888"
    );
    assert_eq!(v6([0, 0, 0, 0, 0, 0, 0x0102, 0x0304]).to_text(), "::102:304");
}

#[test]
fn ipv4_mapped_text_and_canonical_form() {
    let mapped = v6([0, 0, 0, 0, 0, 0xffff, 0x0102, 0x0304]);
    assert_eq!(mapped.to_text(), "::ffff:1.2.3.4");
    assert_eq!(mapped.to_canonical(), IpAddress::V4([1, 2, 3, 4]));
    assert_eq!(mapped.to_canonical().to_canonical(), IpAddress::V4([1, 2, 3, 4]));
    let plain = v6([0x2001, 0xdb8, 0, 0, 0, 0, 0, 1]);
    assert_eq!(plain.to_canonical(), plain);
    assert_eq!(IpAddress::V4([9, 9, 9, 9]).to_canonical(), IpAddress::V4([9, 9, 9, 9]));
}

#[test]
fn time_span_milliseconds_round_towards_zero() {
    let d = TimeSpan::new(1, 999_999_999).unwrap();
    assert_eq!(d.num_milliseconds(), 1999);
    let neg = TimeSpan::from_signed_parts(-1, -500_000_000).unwrap();
    assert_eq!(neg.num_milliseconds(), -1500);
    let small_neg = TimeSpan::microseconds(-1500);
    assert_eq!(small_neg.num_milliseconds(), -1);
    assert_eq!(small_neg.floor_secs(), -1);
    assert_eq!(small_neg.fraction_nanos(), 998_500_000);
    assert!(TimeSpan::new(0, 1_000_000_000).is_none());
    assert!(TimeSpan::new(i64::MAX, 0).is_none());
}

#[test]
fn time_span_matches_chrono() {
    for micros in [0i64, 1, -1, 999, -999, 1_000, -1_001, 123_456_789, -987_654_321] {
        let ours = TimeSpan::microseconds(micros);
        let theirs = chrono::Duration::microseconds(micros);
        assert_eq!(ours.num_milliseconds(), theirs.num_milliseconds());
        assert_eq!(ours.num_microseconds(), theirs.num_microseconds());
    }
    let theirs = chrono::Duration::nanoseconds(-1_234_567_891);
    let ours = TimeSpan::from_signed_parts(theirs.num_seconds(), theirs.subsec_nanos()).unwrap();
    assert_eq!(ours.num_milliseconds(), theirs.num_milliseconds());
}

#[test]
fn duration_wire_value_roundtrip() {
    for m in [0i64, 42, -42, i64::MAX, i64::MIN] {
        assert_eq!(duration_wire_value(&duration_from_wire_value(m)), m);
    }
    let huge = TimeSpan::new(9_223_372_036_854, 775_808_000).unwrap();
    assert_eq!(duration_wire_value(&huge), -1);
}

#[test]
fn rfc3339_reading_and_writing() {
    let t = Timestamp::parse_rfc3339("2024-05-23T10:00:00Z").unwrap();
    assert_eq!(t, Timestamp { secs: 1716458400, nanos: 0 });
    let shifted = Timestamp::parse_rfc3339("2024-05-23T12:00:00.5+02:00").unwrap();
    assert_eq!(shifted, Timestamp { secs: 1716458400, nanos: 500_000_000 });
    assert!(Timestamp::parse_rfc3339("yesterday").is_none());
    assert_eq!(
        Timestamp { secs: 0, nanos: 0 }.to_rfc3339().unwrap(),
        "1970-01-01T00:00:00+00:00"
    );
    assert_eq!(t.compact_stamp().unwrap(), "20240523100000");
    assert!(Timestamp { secs: i64::MAX, nanos: 0 }.to_rfc3339().is_none());
}

#[test]
fn rfc3339_text_reads_back_as_same_instant() {
    let cases = [
        Timestamp { secs: 1_716_458_400, nanos: 123_456_789 },
        Timestamp { secs: 1_716_458_400, nanos: 500_000_000 },
        Timestamp { secs: 1_716_458_399, nanos: 1_500_000_000 },
        Timestamp { secs: -62_167_219_200, nanos: 0 },
        Timestamp { secs: 253_402_300_799, nanos: 999_999_999 },
    ];
    for t in cases {
        let text = t.to_rfc3339().unwrap();
        assert_eq!(Timestamp::parse_rfc3339(&text), Some(t), "{}", text);
    }
    let leap = Timestamp { secs: 1_716_458_399, nanos: 1_500_000_000 };
    assert_eq!(leap.to_rfc3339().unwrap(), "2024-05-23T09:59:60.500+00:00");
    let beyond = Timestamp { secs: 253_402_300_800, nanos: 0 }.to_rfc3339().unwrap();
    assert_eq!(beyond, "+10000-01-01T00:00:00+00:00");
    assert!(Timestamp::parse_rfc3339(&beyond).is_none());
}

#[test]
fn lines_like_str_lines() {
    for text in ["", "a", "a\n", "a\r\nb\n\nc\r", "\n", "\r\n\r\n", "x\ry\nz", "one\ntwo"] {
        let ours = split_lines(text);
        let theirs: Vec<String> = text.lines().map(|l| l.to_string()).collect();
        assert_eq!(ours, theirs, "text {:?}", text);
    }
}
