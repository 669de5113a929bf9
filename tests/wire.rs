use looplan::wire::{
    object_key_text, parse_object_key, color_replies, color_reply, parse_record_id, parse_time, record_id_text, schedule_replies,
    schedule_reply, time_text,
};
use looplan::{ApiError, Schedule, ScheduleColor};

#[test]
fn record_id_text_is_object_id_hex() {
    assert_eq!(record_id_text(0), "000000000000000000000000");
    assert_eq!(record_id_text(1), "000000000000000000000001");
    assert_eq!(record_id_text(0x0123_4567_89ab_cdef), "000000000123456789abcdef");
    assert_eq!(record_id_text(u64::MAX), "00000000ffffffffffffffff");
}

#[test]
fn record_id_round_trip() {
    for id in [0u64, 1, 255, 256, 0xdead_beef, u64::MAX] {
        assert_eq!(parse_record_id(&record_id_text(id)), Ok(id));
    }
    assert_eq!(parse_record_id("00000000000000000000002A"), Ok(42));
}

#[test]
fn malformed_record_id_is_validation() {
    assert_eq!(parse_record_id(""), Err(ApiError::Validation));
    assert_eq!(parse_record_id("00000000000000000000001"), Err(ApiError::Validation));
    assert_eq!(parse_record_id("00000000000000000000000g"), Err(ApiError::Validation));
}

#[test]
fn foreign_object_id_is_not_found() {
    assert_eq!(parse_record_id("650e8400e29b41d4a7164466"), Err(ApiError::NotFound));
}

#[test]
fn parse_time_reads_rfc3339() {
    assert_eq!(parse_time("1970-01-01T00:00:00Z"), Ok(0));
    assert_eq!(parse_time("2024-01-01T09:00:00Z"), Ok(1_704_099_600_000));
    assert_eq!(parse_time("2024-01-01T10:00:00+01:00"), Ok(1_704_099_600_000));
    assert_eq!(parse_time("yesterday"), Err(ApiError::Validation));
}

#[test]
fn time_text_writes_rfc3339() {
    assert_eq!(time_text(0), Ok("1970-01-01T00:00:00Z".to_string()));
    assert_eq!(time_text(1_704_099_600_000), Ok("2024-01-01T09:00:00Z".to_string()));
    assert_eq!(time_text(i64::MIN), Err(ApiError::Validation));
}

fn sample(start: i64) -> Schedule {
    Schedule {
        id: 3,
        user_id: 1,
        color_id: [0, 0, 0, 0, 0, 0, 0, 0, 0, 0, 0, 2],
        name: "n".to_string(),
        description: "d".to_string(),
        start_time: start,
        end_time: 1_704_099_600_000,
    }
}

#[test]
fn schedule_reply_renders_fields() {
    let r = schedule_reply(&sample(0)).ok().unwrap();
    assert_eq!(r.id, "000000000000000000000003");
    assert_eq!(r.user_id, "000000000000000000000001");
    assert_eq!(r.color_id, "000000000000000000000002");
    assert_eq!(r.start_time, "1970-01-01T00:00:00Z");
    assert_eq!(r.end_time, "2024-01-01T09:00:00Z");
    assert_eq!((r.name.as_str(), r.description.as_str()), ("n", "d"));
}

#[test]
fn schedule_reply_fails_on_unwritable_time() {
    assert!(matches!(schedule_reply(&sample(i64::MIN)), Err(ApiError::Validation)));
    assert!(matches!(schedule_replies(&vec![sample(0), sample(i64::MIN)]), Err(ApiError::Validation)));
    assert_eq!(schedule_replies(&vec![sample(0), sample(1)]).ok().unwrap().len(), 2);
}

#[test]
fn color_reply_renders_fields() {
    let c = ScheduleColor { id: 16, name: "work".to_string(), color: "#00ff00".to_string() };
    let r = color_reply(&c);
    assert_eq!(r.id, "000000000000000000000010");
    assert_eq!((r.name.as_str(), r.color.as_str()), ("work", "#00ff00"));
    assert_eq!(color_replies(&vec![c]).len(), 1);
}

#[test]
fn time_text_reads_back() {
    for ms in [0i64, -1, 1, 1_704_099_600_123, -62_167_219_200_000, 253_402_300_799_999] {
        let text = time_text(ms).unwrap();
        assert_eq!(parse_time(&text), Ok(ms));
    }
}

#[test]
fn object_key_round_trip() {
    let key = parse_object_key("650E8400e29b41d4a7164466").unwrap();
    assert_eq!(key[0], 0x65);
    assert_eq!(object_key_text(key), "650e8400e29b41d4a7164466");
    assert_eq!(parse_object_key("650e8400e29b41d4a716446"), Err(ApiError::Validation));
}
