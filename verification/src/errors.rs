//! The error taxonomy and its wire representation.

use vstd::prelude::*;

use crate::codes::RoomCode;
use crate::rooms::Username;

verus! {

use vstd::string::StringExecFns;

/// Every failure the lobby operations can report.
#[derive(Debug, PartialEq, Eq)]
pub enum MuuzikaError {
    Unknown,
    RoomNotFound { room_code: RoomCode },
    OutOfRoomCodes,
    UsernameTaken { room_code: RoomCode, username: Username },
    PlayerNotInRoom { room_code: RoomCode, username: Username },
    InvalidAuthorizationHeader,
    InvalidToken,
    ConnectedInAnotherDevice,
}

/// Mathematical model of a `MuuzikaError`.
pub enum ErrV {
    Unknown,
    RoomNotFound { room_code: Seq<char> },
    OutOfRoomCodes,
    UsernameTaken { room_code: Seq<char>, username: Seq<char> },
    PlayerNotInRoom { room_code: Seq<char>, username: Seq<char> },
    InvalidAuthorizationHeader,
    InvalidToken,
    ConnectedInAnotherDevice,
}

impl View for MuuzikaError {
    type V = ErrV;

    open spec fn view(&self) -> ErrV {
        match self {
            MuuzikaError::Unknown => ErrV::Unknown,
            MuuzikaError::RoomNotFound { room_code } => ErrV::RoomNotFound {
                room_code: room_code@,
            },
            MuuzikaError::OutOfRoomCodes => ErrV::OutOfRoomCodes,
            MuuzikaError::UsernameTaken { room_code, username } => ErrV::UsernameTaken {
                room_code: room_code@,
                username: username@,
            },
            MuuzikaError::PlayerNotInRoom { room_code, username } => ErrV::PlayerNotInRoom {
                room_code: room_code@,
                username: username@,
            },
            MuuzikaError::InvalidAuthorizationHeader => ErrV::InvalidAuthorizationHeader,
            MuuzikaError::InvalidToken => ErrV::InvalidToken,
            MuuzikaError::ConnectedInAnotherDevice => ErrV::ConnectedInAnotherDevice,
        }
    }
}

pub type MuuzikaResult<T> = Result<T, MuuzikaError>;

impl MuuzikaError {
    /// The HTTP status this error maps to.
    pub open spec fn status_spec(self) -> u16 {
        match self {
            MuuzikaError::RoomNotFound { .. } => 404,
            MuuzikaError::OutOfRoomCodes => 503,
            MuuzikaError::UsernameTaken { .. } => 409,
            MuuzikaError::PlayerNotInRoom { .. } => 404,
            MuuzikaError::InvalidAuthorizationHeader => 400,
            MuuzikaError::InvalidToken => 401,
            _ => 500,
        }
    }

    pub fn code(&self) -> (r: u16)
        ensures
            r == self.status_spec(),
    {
        match self {
            MuuzikaError::RoomNotFound { .. } => 404,
            MuuzikaError::OutOfRoomCodes => 503,
            MuuzikaError::UsernameTaken { .. } => 409,
            MuuzikaError::PlayerNotInRoom { .. } => 404,
            MuuzikaError::InvalidAuthorizationHeader => 400,
            MuuzikaError::InvalidToken => 401,
            _ => 500,
        }
    }

    /// The wire name of this error kind.
    pub open spec fn kind_spec(self) -> Seq<char> {
        match self {
            MuuzikaError::Unknown => "Unknown"@,
            MuuzikaError::RoomNotFound { .. } => "RoomNotFound"@,
            MuuzikaError::OutOfRoomCodes => "OutOfRoomCodes"@,
            MuuzikaError::UsernameTaken { .. } => "UsernameTaken"@,
            MuuzikaError::PlayerNotInRoom { .. } => "PlayerNotInRoom"@,
            MuuzikaError::InvalidAuthorizationHeader => "InvalidAuthorizationHeader"@,
            MuuzikaError::InvalidToken => "InvalidToken"@,
            MuuzikaError::ConnectedInAnotherDevice => "ConnectedInAnotherDevice"@,
        }
    }

    pub fn kind(&self) -> (r: &'static str)
        ensures
            r@ == self.kind_spec(),
    {
        match self {
            MuuzikaError::Unknown => "Unknown",
            MuuzikaError::RoomNotFound { .. } => "RoomNotFound",
            MuuzikaError::OutOfRoomCodes => "OutOfRoomCodes",
            MuuzikaError::UsernameTaken { .. } => "UsernameTaken",
            MuuzikaError::PlayerNotInRoom { .. } => "PlayerNotInRoom",
            MuuzikaError::InvalidAuthorizationHeader => "InvalidAuthorizationHeader",
            MuuzikaError::InvalidToken => "InvalidToken",
            MuuzikaError::ConnectedInAnotherDevice => "ConnectedInAnotherDevice",
        }
    }

    /// The human-readable message for this error kind.
    pub open spec fn message_spec(self) -> Seq<char> {
        match self {
            MuuzikaError::Unknown => "Unknown error"@,
            MuuzikaError::RoomNotFound { .. } => "Room not found"@,
            MuuzikaError::OutOfRoomCodes => "Out of room codes"@,
            MuuzikaError::UsernameTaken { .. } => "Username taken"@,
            MuuzikaError::PlayerNotInRoom { .. } => "Player not in room"@,
            MuuzikaError::InvalidAuthorizationHeader => "Invalid authorization header"@,
            MuuzikaError::InvalidToken => "Invalid token"@,
            MuuzikaError::ConnectedInAnotherDevice => "Connected in another device"@,
        }
    }

    pub fn message(&self) -> (r: &'static str)
        ensures
            r@ == self.message_spec(),
    {
        match self {
            MuuzikaError::Unknown => "Unknown error",
            MuuzikaError::RoomNotFound { .. } => "Room not found",
            MuuzikaError::OutOfRoomCodes => "Out of room codes",
            MuuzikaError::UsernameTaken { .. } => "Username taken",
            MuuzikaError::PlayerNotInRoom { .. } => "Player not in room",
            MuuzikaError::InvalidAuthorizationHeader => "Invalid authorization header",
            MuuzikaError::InvalidToken => "Invalid token",
            MuuzikaError::ConnectedInAnotherDevice => "Connected in another device",
        }
    }

    /// The kind-specific payload carried under `data` on the wire.
    pub open spec fn data_spec(self) -> Option<ErrorDataV> {
        match self {
            MuuzikaError::RoomNotFound { room_code } => Some(ErrorDataV {
                room_code: Some(room_code@),
                username: None,
                expected_prefix: None,
            }),
            MuuzikaError::UsernameTaken { room_code, username } => Some(ErrorDataV {
                room_code: Some(room_code@),
                username: Some(username@),
                expected_prefix: None,
            }),
            MuuzikaError::PlayerNotInRoom { room_code, username } => Some(ErrorDataV {
                room_code: Some(room_code@),
                username: Some(username@),
                expected_prefix: None,
            }),
            MuuzikaError::InvalidAuthorizationHeader => Some(ErrorDataV {
                room_code: None,
                username: None,
                expected_prefix: Some("Bearer "@),
            }),
            _ => None,
        }
    }
}

/// A request failure raised by the HTTP framework itself, beside the
/// library's own errors: the rejection kinds the edge can surface, each
/// with its status and wire name.
#[derive(Debug, PartialEq, Eq)]
pub enum RejectionKind {
    NotFound,
    MethodNotAllowed,
    InvalidHeader,
    MissingHeader,
    MissingCookie,
    InvalidQuery,
    BodyDeserializeError,
    MissingConnectionUpgrade,
    LengthRequired,
    PayloadTooLarge,
    UnsupportedMediaType,
    CorsForbidden,
    Unknown,
}

impl RejectionKind {
    /// The HTTP status this rejection maps to.
    pub open spec fn status_spec(self) -> u16 {
        match self {
            RejectionKind::NotFound => 404,
            RejectionKind::MethodNotAllowed => 405,
            RejectionKind::InvalidHeader => 400,
            RejectionKind::MissingHeader => 400,
            RejectionKind::MissingCookie => 400,
            RejectionKind::InvalidQuery => 400,
            RejectionKind::BodyDeserializeError => 400,
            RejectionKind::MissingConnectionUpgrade => 400,
            RejectionKind::LengthRequired => 411,
            RejectionKind::PayloadTooLarge => 413,
            RejectionKind::UnsupportedMediaType => 415,
            RejectionKind::CorsForbidden => 403,
            RejectionKind::Unknown => 500,
        }
    }

    pub fn status(&self) -> (r: u16)
        ensures
            r == self.status_spec(),
    {
        match self {
            RejectionKind::NotFound => 404,
            RejectionKind::MethodNotAllowed => 405,
            RejectionKind::InvalidHeader => 400,
            RejectionKind::MissingHeader => 400,
            RejectionKind::MissingCookie => 400,
            RejectionKind::InvalidQuery => 400,
            RejectionKind::BodyDeserializeError => 400,
            RejectionKind::MissingConnectionUpgrade => 400,
            RejectionKind::LengthRequired => 411,
            RejectionKind::PayloadTooLarge => 413,
            RejectionKind::UnsupportedMediaType => 415,
            RejectionKind::CorsForbidden => 403,
            RejectionKind::Unknown => 500,
        }
    }

    /// The wire name of this rejection kind.
    pub open spec fn name_spec(self) -> Seq<char> {
        match self {
            RejectionKind::NotFound => "NotFound"@,
            RejectionKind::MethodNotAllowed => "MethodNotAllowed"@,
            RejectionKind::InvalidHeader => "InvalidHeader"@,
            RejectionKind::MissingHeader => "MissingHeader"@,
            RejectionKind::MissingCookie => "MissingCookie"@,
            RejectionKind::InvalidQuery => "InvalidQuery"@,
            RejectionKind::BodyDeserializeError => "BodyDeserializeError"@,
            RejectionKind::MissingConnectionUpgrade => "MissingConnectionUpgrade"@,
            RejectionKind::LengthRequired => "LengthRequired"@,
            RejectionKind::PayloadTooLarge => "PayloadTooLarge"@,
            RejectionKind::UnsupportedMediaType => "UnsupportedMediaType"@,
            RejectionKind::CorsForbidden => "CorsForbidden"@,
            RejectionKind::Unknown => "Unknown"@,
        }
    }

    pub fn name(&self) -> (r: &'static str)
        ensures
            r@ == self.name_spec(),
    {
        match self {
            RejectionKind::NotFound => "NotFound",
            RejectionKind::MethodNotAllowed => "MethodNotAllowed",
            RejectionKind::InvalidHeader => "InvalidHeader",
            RejectionKind::MissingHeader => "MissingHeader",
            RejectionKind::MissingCookie => "MissingCookie",
            RejectionKind::InvalidQuery => "InvalidQuery",
            RejectionKind::BodyDeserializeError => "BodyDeserializeError",
            RejectionKind::MissingConnectionUpgrade => "MissingConnectionUpgrade",
            RejectionKind::LengthRequired => "LengthRequired",
            RejectionKind::PayloadTooLarge => "PayloadTooLarge",
            RejectionKind::UnsupportedMediaType => "UnsupportedMediaType",
            RejectionKind::CorsForbidden => "CorsForbidden",
            RejectionKind::Unknown => "Unknown",
        }
    }
}

/// The error body for a framework-level rejection: the kind's status and
/// name, the caller-supplied detail message and timestamp, and no data.
pub fn rejection_response(kind: &RejectionKind, message: String, timestamp: String) -> (r:
    ErrorResponse)
    ensures
        r@ == (ErrorResponseV {
            code: kind.status_spec(),
            timestamp: timestamp@,
            error: kind.name_spec(),
            message: message@,
            data: None,
        }),
{
    ErrorResponse {
        code: kind.status(),
        timestamp,
        error: String::from_str(kind.name()),
        message,
        data: None,
    }
}

/// Kind-specific fields of an error body.
#[derive(Debug)]
pub struct ErrorData {
    pub room_code: Option<RoomCode>,
    pub username: Option<Username>,
    pub expected_prefix: Option<String>,
}

/// Mathematical model of `ErrorData`.
#[verifier::ext_equal]
pub struct ErrorDataV {
    pub room_code: Option<Seq<char>>,
    pub username: Option<Seq<char>>,
    pub expected_prefix: Option<Seq<char>>,
}

impl View for ErrorData {
    type V = ErrorDataV;

    open spec fn view(&self) -> ErrorDataV {
        ErrorDataV {
            room_code: match self.room_code {
                Some(ref c) => Some(c@),
                None => None,
            },
            username: match self.username {
                Some(ref u) => Some(u@),
                None => None,
            },
            expected_prefix: match self.expected_prefix {
                Some(ref p) => Some(p@),
                None => None,
            },
        }
    }
}

/// The JSON error body sent on HTTP failures and inside transport `Error`
/// frames.
#[derive(Debug)]
pub struct ErrorResponse {
    pub code: u16,
    pub timestamp: String,
    pub error: String,
    pub message: String,
    pub data: Option<ErrorData>,
}

/// Mathematical model of an `ErrorResponse`.
#[verifier::ext_equal]
pub struct ErrorResponseV {
    pub code: u16,
    pub timestamp: Seq<char>,
    pub error: Seq<char>,
    pub message: Seq<char>,
    pub data: Option<ErrorDataV>,
}

impl View for ErrorResponse {
    type V = ErrorResponseV;

    open spec fn view(&self) -> ErrorResponseV {
        ErrorResponseV {
            code: self.code,
            timestamp: self.timestamp@,
            error: self.error@,
            message: self.message@,
            data: match self.data {
                Some(ref d) => Some(d@),
                None => None,
            },
        }
    }
}

/// The response body an error maps to, stamped with the given timestamp.
pub open spec fn response_of(e: MuuzikaError, timestamp: Seq<char>) -> ErrorResponseV {
    ErrorResponseV {
        code: e.status_spec(),
        timestamp,
        error: e.kind_spec(),
        message: e.message_spec(),
        data: e.data_spec(),
    }
}

impl ErrorResponse {
    pub fn new(
        code: u16,
        timestamp: String,
        error: String,
        message: String,
        data: Option<ErrorData>,
    ) -> (r: ErrorResponse)
        ensures
            r@ == (ErrorResponseV {
                code,
                timestamp: timestamp@,
                error: error@,
                message: message@,
                data: match data {
                    Some(d) => Some(d@),
                    None => None,
                },
            }),
    {
        ErrorResponse { code, timestamp, error, message, data }
    }

    pub fn no_data(code: u16, timestamp: String, error: String, message: String) -> (r:
        ErrorResponse)
        ensures
            r@ == (ErrorResponseV {
                code,
                timestamp: timestamp@,
                error: error@,
                message: message@,
                data: None,
            }),
    {
        ErrorResponse::new(code, timestamp, error, message, None)
    }

    /// Build the wire body for an error, stamped with `timestamp`.
    pub fn from_error(e: &MuuzikaError, timestamp: String) -> (r: ErrorResponse)
        ensures
            r@ == response_of(*e, timestamp@),
    {
        let data = match e {
            MuuzikaError::RoomNotFound { room_code } => Some(ErrorData {
                room_code: Some(room_code.clone()),
                username: None,
                expected_prefix: None,
            }),
            MuuzikaError::UsernameTaken { room_code, username } => Some(ErrorData {
                room_code: Some(room_code.clone()),
                username: Some(username.clone()),
                expected_prefix: None,
            }),
            MuuzikaError::PlayerNotInRoom { room_code, username } => Some(ErrorData {
                room_code: Some(room_code.clone()),
                username: Some(username.clone()),
                expected_prefix: None,
            }),
            MuuzikaError::InvalidAuthorizationHeader => Some(ErrorData {
                room_code: None,
                username: None,
                expected_prefix: Some(String::from_str("Bearer ")),
            }),
            _ => None,
        };
        ErrorResponse {
            code: e.code(),
            timestamp,
            error: String::from_str(e.kind()),
            message: String::from_str(e.message()),
            data,
        }
    }
}

} // verus!
