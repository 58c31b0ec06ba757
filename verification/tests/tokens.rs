use muuzika::auth::{decode_token, encode_token, extract_token_from_header};
use muuzika::codes::RoomCode;
use muuzika::errors::MuuzikaError;
use muuzika::rooms::Username;

#[test]
fn token_round_trip() {
    let secret = "top SECRET-REDACTED".to_string();
    let code = RoomCode::new("0042".to_string());
    let user = Username::new("alice".to_string());
    let token = encode_token(&secret, 1234567890, &code, &user).unwrap();
    let claims = decode_token(&secret, &token).unwrap();
    assert_eq!(claims.iat, 1234567890);
    assert_eq!(claims.room_code.text, "0042");
    assert_eq!(claims.username.text, "alice");
}

#[test]
fn encoding_is_deterministic_and_total() {
    let secret = "s".to_string();
    let code = RoomCode::new("0042".to_string());
    let user = Username::new("alice".to_string());
    let t1 = encode_token(&secret, 77, &code, &user).expect("issuing never fails");
    let t2 = encode_token(&secret, 77, &code, &user).expect("issuing never fails");
    assert_eq!(t1, t2);
    let t3 = encode_token(&secret, 78, &code, &user).unwrap();
    assert_ne!(t1, t3);
}

#[test]
fn token_with_wrong_secret_is_rejected() {
    let code = RoomCode::new("7".to_string());
    let user = Username::new("bob".to_string());
    let token = encode_token(&"secret one".to_string(), 5, &code, &user).unwrap();
    let r = decode_token(&"secret two".to_string(), &token);
    assert!(matches!(r, Err(MuuzikaError::InvalidToken)));
}

#[test]
fn garbage_token_is_rejected() {
    let r = decode_token(&"s".to_string(), &"not.a.token".to_string());
    assert!(matches!(r, Err(MuuzikaError::InvalidToken)));
}

#[test]
fn bearer_prefix_is_stripped() {
    assert_eq!(
        extract_token_from_header("Bearer abc.def.ghi").unwrap(),
        "abc.def.ghi"
    );
    assert!(matches!(
        extract_token_from_header("Basic abc"),
        Err(MuuzikaError::InvalidAuthorizationHeader)
    ));
    assert!(matches!(
        extract_token_from_header("Bear"),
        Err(MuuzikaError::InvalidAuthorizationHeader)
    ));
}
