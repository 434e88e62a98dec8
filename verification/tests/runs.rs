use base64::Engine;
use base64::engine::general_purpose::URL_SAFE_NO_PAD;
use executorch_bencher::cursor::RunCursor;
use executorch_bencher::runs::output_preview;
use executorch_bencher::time::Timestamp;

fn ts(text: &str) -> Timestamp {
    Timestamp::parse_rfc3339(text).expect("a valid RFC 3339 time")
}

#[test]
fn cursor_round_trips_through_its_token() {
    let cursor = RunCursor {
        started_at: ts("2026-09-01T12:34:56.123456789Z"),
        id: 0x0190_1234_5678_7abc_8def_0123_4567_89ab,
    };
    let token = cursor.encode();
    assert!(!token.contains('|'), "token must be opaque");
    assert_eq!(RunCursor::decode(&token).unwrap(), cursor);
}

#[test]
fn cursor_rejects_malformed_tokens() {
    assert!(RunCursor::decode("not base64!!").is_err());
    let valid = RunCursor { started_at: ts("2026-09-01T00:00:00Z"), id: 7 }.encode();
    assert!(RunCursor::decode(&valid[..valid.len() / 2]).is_err());
    let garbage = URL_SAFE_NO_PAD.encode(b"no separator here");
    assert!(RunCursor::decode(&garbage).is_err());
    let bad_ts = URL_SAFE_NO_PAD
        .encode(format!("yesterday|{}", "0190f1e2-0000-7000-8000-000000000001").as_bytes());
    assert!(RunCursor::decode(&bad_ts).is_err());
    let bad_id = URL_SAFE_NO_PAD.encode(b"2026-09-01T00:00:00Z|not-a-uuid");
    assert!(RunCursor::decode(&bad_id).is_err());
}

#[test]
fn cursor_refusals_name_their_reason() {
    assert_eq!(RunCursor::decode("not base64!!").unwrap_err().message(), "invalid cursor: not base64url");
    assert_eq!(
        RunCursor::decode(&URL_SAFE_NO_PAD.encode([0xff, 0xfe])).unwrap_err().message(),
        "invalid cursor: not UTF-8"
    );
    assert_eq!(
        RunCursor::decode(&URL_SAFE_NO_PAD.encode(b"no separator here")).unwrap_err().message(),
        "invalid cursor: missing separator"
    );
    assert_eq!(
        RunCursor::decode(&URL_SAFE_NO_PAD.encode(b"yesterday|x")).unwrap_err().message(),
        "invalid cursor: bad timestamp"
    );
    assert_eq!(
        RunCursor::decode(&URL_SAFE_NO_PAD.encode(b"2026-09-01T00:00:00Z|not-a-uuid"))
            .unwrap_err()
            .message(),
        "invalid cursor: bad run id"
    );
}

#[test]
fn a_cursor_token_is_the_base64url_of_its_time_and_id() {
    let cursor = RunCursor { started_at: ts("2026-09-01T00:00:00Z"), id: 1 };
    let raw = URL_SAFE_NO_PAD.decode(cursor.encode()).unwrap();
    assert_eq!(
        String::from_utf8(raw).unwrap(),
        "2026-09-01T00:00:00.000000000Z|00000000-0000-0000-0000-000000000001"
    );
}

#[test]
fn output_preview_truncates_at_a_char_boundary() {
    let full = "a".repeat(100);
    let preview = output_preview(&full, 10);
    assert_eq!(preview.chars().count(), 10);
    assert!(full.len() > preview.len());
}

#[test]
fn output_preview_never_splits_a_multibyte_character() {
    let full = "€".repeat(50);
    let preview = output_preview(&full, 5);
    assert_eq!(preview.chars().count(), 5);
    assert!(std::str::from_utf8(preview.as_bytes()).is_ok());
}

#[test]
fn a_short_output_is_its_own_preview() {
    assert_eq!(output_preview("héllo", 10), "héllo");
    assert_eq!(output_preview("héllo", 0), "");
}

#[test]
fn timestamps_out_of_range_are_refused() {
    assert!(Timestamp::new(0, 0).is_some());
    assert!(Timestamp::new(i64::MAX, 0).is_none());
    assert!(Timestamp::new(0, 2_000_000_000).is_none());
    let t = Timestamp::new(1_431_648_000, 5).unwrap();
    assert_eq!((t.seconds(), t.nanos()), (1_431_648_000, 5));
    assert!(Timestamp::new(1, 0).unwrap().le(Timestamp::new(1, 1).unwrap()));
    assert!(!Timestamp::new(2, 0).unwrap().le(Timestamp::new(1, 999).unwrap()));
}

#[test]
fn a_cursor_token_uses_only_the_url_safe_alphabet() {
    let cursor = RunCursor { started_at: ts("1999-12-31T23:59:59.999999999Z"), id: u128::MAX };
    let token = cursor.encode();
    assert!(!token.is_empty());
    assert!(token.chars().all(|c| c.is_ascii_alphanumeric() || c == '-' || c == '_'), "{token}");
    assert_eq!(RunCursor::decode(&token).unwrap(), cursor);
}
