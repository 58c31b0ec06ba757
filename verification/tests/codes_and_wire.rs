use muuzika::codes::{parse_code, render_code, RoomCode};
use muuzika::errors::{ErrorResponse, MuuzikaError};
use muuzika::messages::ServerMessage;
use muuzika::rooms::Username;
use muuzika::wire::make_frame;

#[test]
fn render_pads_to_width() {
    assert_eq!(render_code(42, 4), "0042");
    assert_eq!(render_code(0, 1), "0");
    assert_eq!(render_code(999999999, 9), "999999999");
}

#[test]
fn parse_inverts_render() {
    for v in [0u32, 1, 7, 42, 999, 1000, 9999] {
        let text = render_code(v, 4);
        assert_eq!(parse_code(&text, 4), Some(v));
    }
}

#[test]
fn parse_rejects_bad_codes() {
    assert_eq!(parse_code("123", 4), None);
    assert_eq!(parse_code("12345", 4), None);
    assert_eq!(parse_code("12a4", 4), None);
    assert_eq!(parse_code("", 1), None);
    assert_eq!(parse_code("één4", 4), None);
}

#[test]
fn player_event_frame_text() {
    let f = make_frame(
        &ServerMessage::PlayerJoined(Username::new("alice".to_string())),
        None,
    );
    assert_eq!(f, "{\"data\":\"alice\",\"type\":\"PlayerJoined\"}");
}

#[test]
fn noop_frame_text() {
    let f = make_frame(&ServerMessage::Noop, None);
    assert_eq!(f, "{\"type\":\"Noop\"}");
    let f2 = make_frame(&ServerMessage::Noop, Some(&"id7".to_string()));
    assert_eq!(f2, "{\"ack\":\"id7\",\"type\":\"Noop\"}");
}

#[test]
fn ack_is_inserted_into_data_frames() {
    let f = make_frame(
        &ServerMessage::AddResult {
            result: 5,
            username: Username::new("bob".to_string()),
        },
        Some(&"abc".to_string()),
    );
    assert_eq!(
        f,
        "{\"ack\":\"abc\",\"data\":{\"result\":5,\"username\":\"bob\"},\"type\":\"AddResult\"}"
    );
}

#[test]
fn string_escaping_matches_the_json_standard() {
    let tricky = "a\"b\\c\n\t\r\u{8}\u{c}\u{1f}z";
    let f = make_frame(
        &ServerMessage::PlayerJoined(Username::new(tricky.to_string())),
        None,
    );
    // The embedded string must be exactly what serde_json produces for it.
    let expected = format!(
        "{{\"data\":{},\"type\":\"PlayerJoined\"}}",
        serde_json::to_string(tricky).unwrap()
    );
    assert_eq!(f, expected);
}

#[test]
fn error_frame_text() {
    let err = MuuzikaError::UsernameTaken {
        room_code: RoomCode::new("0042".to_string()),
        username: Username::new("alice".to_string()),
    };
    let body = ErrorResponse::from_error(&err, "2024-01-01T00:00:00+00:00".to_string());
    let f = make_frame(&ServerMessage::Error(body), None);
    let expected = "{\"data\":{\"code\":409,\"data\":{\"roomCode\":\"0042\",\"username\":\"alice\"},\"error\":\"UsernameTaken\",\"message\":\"Username taken\",\"timestamp\":\"2024-01-01T00:00:00+00:00\"},\"type\":\"Error\"}";
    assert_eq!(f, expected);
}

#[test]
fn authorization_error_names_the_expected_prefix() {
    let body = ErrorResponse::from_error(
        &MuuzikaError::InvalidAuthorizationHeader,
        "2024-01-01T00:00:00+00:00".to_string(),
    );
    assert_eq!(body.code, 400);
    let data = body.data.as_ref().expect("data should be present");
    assert_eq!(data.expected_prefix.as_deref(), Some("Bearer "));
    assert!(data.room_code.is_none());
    let f = make_frame(&ServerMessage::Error(body), None);
    assert!(f.contains("\"data\":{\"expectedPrefix\":\"Bearer \"}"));
}

#[test]
fn rejection_bodies_follow_the_taxonomy() {
    let r = muuzika::errors::rejection_response(
        &muuzika::errors::RejectionKind::NotFound,
        "Not found".to_string(),
        "2024-01-01T00:00:00+00:00".to_string(),
    );
    assert_eq!(r.code, 404);
    assert_eq!(r.error, "NotFound");
    assert_eq!(r.message, "Not found");
    assert!(r.data.is_none());
    let r2 = muuzika::errors::rejection_response(
        &muuzika::errors::RejectionKind::PayloadTooLarge,
        "payload too large".to_string(),
        "2024-01-01T00:00:00+00:00".to_string(),
    );
    assert_eq!(r2.code, 413);
    assert_eq!(r2.error, "PayloadTooLarge");
}

#[test]
fn status_codes_follow_the_taxonomy() {
    assert_eq!(MuuzikaError::OutOfRoomCodes.code(), 503);
    assert_eq!(MuuzikaError::Unknown.code(), 500);
    assert_eq!(MuuzikaError::InvalidToken.code(), 401);
    assert_eq!(MuuzikaError::InvalidAuthorizationHeader.code(), 400);
    assert_eq!(
        MuuzikaError::RoomNotFound { room_code: RoomCode::new("9".to_string()) }.code(),
        404
    );
}
