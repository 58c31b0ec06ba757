//! Token issuance and verification.
//!
//! Tokens are symmetric-key signed envelopes carrying exactly three claims:
//! `iat` (the seat version), `room_code` and `username`. The codec itself is
//! the `jsonwebtoken` crate behind two trusted wrappers; its results are
//! named by the uninterpreted functions [`token_of`] and [`claims_of`], and
//! the round trip between them is what the codec is trusted for.

use vstd::prelude::*;

use crate::codes::RoomCode;
use crate::errors::{ErrV, MuuzikaError, MuuzikaResult};
use crate::rooms::Username;

verus! {

use vstd::string::StrSliceExecFns;

/// The three claims carried by a token.
#[derive(Debug)]
pub struct JwtClaims {
    pub iat: u64,
    pub room_code: RoomCode,
    pub username: Username,
}

/// The token text produced by signing `(iat, room_code, username)` with
/// `secret`; a function of its arguments alone.
pub uninterp spec fn token_of(secret: Seq<char>, iat: u64, room_code: Seq<char>, username: Seq<
    char,
>) -> Seq<char>;

/// The claims recovered by verifying `token` against `secret`: `Some` with
/// the three claims when the signature checks out and the claims are well
/// formed, `None` otherwise; a function of its arguments alone.
pub uninterp spec fn claims_of(secret: Seq<char>, token: Seq<char>) -> Option<
    (u64, Seq<char>, Seq<char>),
>;

/// Relies on `jsonwebtoken::encode` with the default HS256 header. The
/// claims are built as a `serde_json::Map`, which serializes its keys in a
/// fixed order, so the token is a deterministic function of the secret and
/// the three claims; decoding it with the same secret yields those claims
/// again. HS256 signing of these string-keyed claims cannot fail, so
/// success is promised.
#[verifier::external_body]
fn jwt_encode(secret: &str, iat: u64, room_code: &str, username: &str) -> (r: Result<
    String,
    MuuzikaError,
>)
    ensures
        r is Ok,
        r matches Ok(t) ==> t@ == token_of(secret@, iat, room_code@, username@),
        r matches Ok(t) ==> claims_of(secret@, t@) == Some((iat, room_code@, username@)),
{
    let mut claims = serde_json::Map::new();
    claims.insert("iat".to_string(), serde_json::Value::from(iat));
    claims.insert("room_code".to_string(), serde_json::Value::from(room_code));
    claims.insert("username".to_string(), serde_json::Value::from(username));
    jsonwebtoken::encode(
        &jsonwebtoken::Header::default(),
        &claims,
        &jsonwebtoken::EncodingKey::from_secret(secret.as_bytes()),
    ).map_err(|_| MuuzikaError::Unknown)
}

/// Relies on `jsonwebtoken::decode` with HS256, expiry validation off and
/// no required claims: the outcome is a deterministic function of the
/// secret and the token, and is exactly what [`claims_of`] names.
#[verifier::external_body]
fn jwt_decode(secret: &str, token: &str) -> (r: Result<(u64, String, String), MuuzikaError>)
    ensures
        r matches Ok(c) ==> claims_of(secret@, token@) == Some((c.0, c.1@, c.2@)),
        r matches Err(e) ==> claims_of(secret@, token@) is None && e
            == MuuzikaError::InvalidToken,
{
    let mut validation = jsonwebtoken::Validation::default();
    validation.validate_exp = false;
    validation.required_spec_claims = std::collections::HashSet::new();
    let key = jsonwebtoken::DecodingKey::from_secret(secret.as_bytes());
    let r = jsonwebtoken::decode::<std::collections::HashMap<String, serde_json::Value>>(token, &key, &validation);
    let data = r.map_err(|_| MuuzikaError::InvalidToken)?;
    let iat = data.claims.get("iat").and_then(serde_json::Value::as_u64).ok_or(MuuzikaError::InvalidToken)?;
    let code = data.claims.get("room_code").and_then(serde_json::Value::as_str).ok_or(MuuzikaError::InvalidToken)?;
    let user = data.claims.get("username").and_then(serde_json::Value::as_str).ok_or(MuuzikaError::InvalidToken)?;
    Ok((iat, code.to_string(), user.to_string()))
}

/// Issue a token binding `username` to the seat version `iat` in
/// `room_code`. Issuing never fails.
pub fn encode_token(secret: &String, iat: u64, room_code: &RoomCode, username: &Username) -> (r:
    MuuzikaResult<String>)
    ensures
        r is Ok,
        r matches Ok(t) ==> t@ == token_of(secret@, iat, room_code@, username@) && claims_of(
            secret@,
            t@,
        ) == Some((iat, room_code@, username@)),
{
    jwt_encode(secret.as_str(), iat, room_code.text.as_str(), username.text.as_str())
}

/// Verify a token and recover its claims; any codec failure is reported as
/// `InvalidToken`.
pub fn decode_token(secret: &String, token: &String) -> (r: MuuzikaResult<JwtClaims>)
    ensures
        r matches Ok(c) ==> claims_of(secret@, token@) == Some(
            (c.iat, c.room_code@, c.username@),
        ),
        r matches Err(e) ==> claims_of(secret@, token@) is None && e
            == MuuzikaError::InvalidToken,
{
    match jwt_decode(secret.as_str(), token.as_str()) {
        Ok((iat, code, user)) => Ok(
            JwtClaims { iat, room_code: RoomCode::new(code), username: Username::new(user) },
        ),
        Err(e) => Err(e),
    }
}

/// Strip the fixed `"Bearer "` prefix from an authorization header.
pub fn extract_token_from_header(header: &str) -> (r: MuuzikaResult<String>)
    ensures
        match r {
            Ok(t) => header@.len() >= 7 && header@.subrange(0, 7) == "Bearer "@ && t@
                == header@.subrange(7, header@.len() as int),
            Err(e) => e@ == ErrV::InvalidAuthorizationHeader && !(header@.len() >= 7
                && header@.subrange(0, 7) == "Bearer "@),
        },
{
    proof {
        reveal_strlit("Bearer ");
    }
    let prefix = "Bearer ";
    let n = header.unicode_len();
    if n < 7 {
        return Err(MuuzikaError::InvalidAuthorizationHeader);
    }
    let mut i: usize = 0;
    while i < 7
        invariant
            i <= 7,
            n == header@.len() >= 7,
            prefix@ == "Bearer "@,
            prefix@.len() == 7,
            forall|j: int| 0 <= j < i ==> header@[j] == prefix@[j],
        decreases 7 - i,
    {
        if header.get_char(i) != prefix.get_char(i) {
            proof {
                assert(header@[i as int] != "Bearer "@[i as int]);
                assert(header@.subrange(0, 7) != "Bearer "@) by {
                    assert(header@.subrange(0, 7)[i as int] == header@[i as int]);
                }
            }
            return Err(MuuzikaError::InvalidAuthorizationHeader);
        }
        i += 1;
    }
    let rest = header.substring_char(7, n);
    proof {
        assert(header@.subrange(0, 7) =~= "Bearer "@);
    }
    Ok(rest.to_owned())
}

} // verus!
