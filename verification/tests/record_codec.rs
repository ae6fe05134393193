use statusbot::codec::encode_record;
use statusbot::codec::load_record;
use statusbot::codec::parse_record;
use statusbot::codec::u64_string;
use statusbot::record::DataJson;
use statusbot::record::Target;

fn record(sc: u16, brc: u16, smid: Option<u64>, cmid: Option<u64>) -> DataJson {
    DataJson {
        suggestion_count: sc,
        bug_report_count: brc,
        status_message_id: smid,
        cfx_status_message_id: cmid,
    }
}

#[test]
fn encode_default_record_is_canonical() {
    let s = encode_record(&DataJson::new());
    assert_eq!(
        s,
        "{\"suggestionCount\":0,\"bugReportCount\":0,\"statusMessageId\":null,\"cfxStatusMessageId\":null}"
    );
}

#[test]
fn encode_full_record_is_canonical() {
    let s = encode_record(&record(12, 345, Some(987654321), Some(u64::MAX)));
    assert_eq!(
        s,
        "{\"suggestionCount\":12,\"bugReportCount\":345,\"statusMessageId\":987654321,\"cfxStatusMessageId\":18446744073709551615}"
    );
}

#[test]
fn round_trip_various_records() {
    let samples = vec![
        DataJson::new(),
        record(0, 0, Some(0), None),
        record(1, 2, Some(3), Some(4)),
        record(u16::MAX, u16::MAX, Some(u64::MAX), Some(u64::MAX)),
        record(65534, 1, None, Some(1253416891096240168)),
    ];
    for d in samples {
        let text = encode_record(&d);
        assert_eq!(parse_record(&text), Some(d));
    }
}

#[test]
fn record_sent_then_fresh_load_returns_same_id() {
    let mut d = DataJson::new();
    d.record_sent(Target::ServerStatus, 555000111);
    let stored = encode_record(&d);
    let (loaded, rewritten) = load_record(Some(&stored));
    assert!(!rewritten);
    assert_eq!(loaded.get(Target::ServerStatus), Some(555000111));
    assert_eq!(loaded, d);

    let mut d2 = loaded;
    d2.record_sent(Target::CfxStatus, 42);
    let stored2 = encode_record(&d2);
    let (loaded2, rewritten2) = load_record(Some(&stored2));
    assert!(!rewritten2);
    assert_eq!(loaded2.get(Target::CfxStatus), Some(42));
    assert_eq!(loaded2.get(Target::ServerStatus), Some(555000111));
}

#[test]
fn load_from_missing_store_heals_to_default() {
    let (d, rewrite) = load_record(None);
    assert_eq!(d, DataJson::new());
    assert!(rewrite);
    assert_eq!(d.status_message_id, None);
    assert_eq!(d.cfx_status_message_id, None);
}

#[test]
fn load_from_corrupt_store_heals_to_default() {
    for bad in [
        "",
        "garbage",
        "{",
        "{\"suggestionCount\":",
        "{\"suggestionCount\":1,}",
        "[1,2,3]",
        "{\"suggestionCount\":-1,\"bugReportCount\":0,\"statusMessageId\":null,\"cfxStatusMessageId\":null}",
        "{\"suggestionCount\":\"1\",\"bugReportCount\":0,\"statusMessageId\":null,\"cfxStatusMessageId\":null}",
        "{\"nested\":{\"a\":1}}",
        "{\"suggestionCount\":0,\"suggestionCount\":0}",
        "{\"statusMessageId\":true}",
        "{\"suggestionCount\":0} trailing",
    ] {
        let (d, rewrite) = load_record(Some(bad));
        assert_eq!(d, DataJson::new(), "input {:?} must heal to the default", bad);
        assert!(rewrite, "input {:?} must ask for a rewrite", bad);
    }
}

#[test]
fn parse_accepts_whitespace_and_unknown_scalar_fields() {
    let text = " {\n\t\"unknownText\": \"hello\" ,\r\n \"suggestionCount\" : 7 , \"alsoUnknown\" : true , \"statusMessageId\" : 12 , \"flag\" : null }  ";
    let parsed = parse_record(text).expect("lenient parse must succeed");
    assert_eq!(parsed, record(7, 0, Some(12), None));
}

#[test]
fn parse_defaults_missing_fields() {
    assert_eq!(parse_record("{}"), Some(DataJson::new()));
    assert_eq!(
        parse_record("{\"bugReportCount\":9}"),
        Some(record(0, 9, None, None))
    );
}

#[test]
fn parse_rejects_counter_overflow_and_keeps_bounds() {
    assert_eq!(parse_record("{\"suggestionCount\":65535}"), Some(record(65535, 0, None, None)));
    assert_eq!(parse_record("{\"suggestionCount\":65536}"), None);
    assert_eq!(
        parse_record("{\"statusMessageId\":18446744073709551615}"),
        Some(record(0, 0, Some(u64::MAX), None))
    );
    assert_eq!(parse_record("{\"statusMessageId\":18446744073709551616}"), None);
}

#[test]
fn parse_rejects_duplicate_known_key() {
    assert_eq!(parse_record("{\"suggestionCount\":1,\"suggestionCount\":2}"), None);
    assert_eq!(parse_record("{\"statusMessageId\":null,\"statusMessageId\":3}"), None);
}

#[test]
fn counters_increment_without_touching_ids() {
    let mut d = record(4, 9, Some(1), None);
    d.increment_suggestion_count();
    d.increment_bug_report_count();
    d.increment_bug_report_count();
    assert_eq!(d, record(5, 11, Some(1), None));
}

#[test]
fn set_ids_directly() {
    let mut d = DataJson::new();
    d.set_status_message_id(10);
    d.set_cfx_status_message_id(20);
    assert_eq!(d.status_message_id, Some(10));
    assert_eq!(d.cfx_status_message_id, Some(20));
    assert_eq!(d.get(Target::ServerStatus), Some(10));
    assert_eq!(d.get(Target::CfxStatus), Some(20));
}

#[test]
fn default_record_matches_new() {
    assert_eq!(DataJson::default(), DataJson::new());
}

#[test]
fn decimal_text_of_numbers() {
    assert_eq!(u64_string(0), "0");
    assert_eq!(u64_string(10), "10");
    assert_eq!(u64_string(18446744073709551615), "18446744073709551615");
}

#[test]
fn whitespace_only_object_parses_to_default() {
    assert_eq!(parse_record(" \n\t{ }\r\n "), Some(DataJson::new()));
    let (d, rewrite) = load_record(Some(" { } "));
    assert_eq!(d, DataJson::new());
    assert!(!rewrite);
}
