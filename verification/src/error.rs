//! Errors that requests can fail with, and their HTTP projection.

use vstd::prelude::*;
use vstd::string::StringExecFns;

verus! {

/// The request fields that validation can reject.
#[derive(Clone, Copy, Debug, PartialEq, Eq, Structural)]
pub enum Field {
    PeerPublicKey,
    EndpointAddress,
    AllowedIpAddress,
    DevicePrivateKey,
}

/// What a field is called inside an error body.
pub open spec fn field_text(f: Field) -> Seq<char> {
    match f {
        Field::PeerPublicKey => "peer public key"@,
        Field::EndpointAddress => "endpoint address"@,
        Field::AllowedIpAddress => "allowed ip address"@,
        Field::DevicePrivateKey => "device private key"@,
    }
}

impl Field {
    /// The field's name, as it appears inside an error body.
    pub fn text(self) -> (r: &'static str)
        ensures
            r@ == field_text(self),
    {
        match self {
            Field::PeerPublicKey => "peer public key",
            Field::EndpointAddress => "endpoint address",
            Field::AllowedIpAddress => "allowed ip address",
            Field::DevicePrivateKey => "device private key",
        }
    }
}

/// The error kinds a request can fail with.
#[derive(Clone, Copy, Debug, PartialEq, Eq, Structural)]
pub enum Error {
    InternalServerError,
    PermissionDenied,
    AlreadyExists,
    NotFound,
    MissingField(Field),
    InvalidField(Field),
}

/// OS error code for 'permission denied'.
pub const ERR_PERMISSION_DENIED: i32 = 1;

/// OS error code for 'file exists'.
pub const ERR_FILE_EXISTS: i32 = 17;

/// OS error code for 'no such device'.
pub const ERR_NOT_FOUND: i32 = 19;

/// The error kind that a low-level OS error code stands for: a fixed table
/// with a safe default for unknown or absent codes.
pub open spec fn error_of_os_code(code: Option<i32>) -> Error {
    match code {
        Some(c) => if c == ERR_PERMISSION_DENIED {
            Error::PermissionDenied
        } else if c == ERR_FILE_EXISTS {
            Error::AlreadyExists
        } else if c == ERR_NOT_FOUND {
            Error::NotFound
        } else {
            Error::InternalServerError
        },
        None => Error::InternalServerError,
    }
}

/// The HTTP status that reflects an error.
pub open spec fn error_status(e: Error) -> u16 {
    match e {
        Error::InternalServerError => 500,
        Error::PermissionDenied => 401,
        Error::AlreadyExists => 409,
        Error::NotFound => 404,
        Error::MissingField(_) => 400,
        Error::InvalidField(_) => 400,
    }
}

/// The JSON body that reflects an error: only the two field-validation
/// kinds carry one.
pub open spec fn error_body(e: Error) -> Option<Seq<char>> {
    match e {
        Error::MissingField(f) => Some("{\"error\":\"missing field: "@ + field_text(f) + "\"}"@),
        Error::InvalidField(f) => Some("{\"error\":\"invalid field: "@ + field_text(f) + "\"}"@),
        _ => None,
    }
}

/// An HTTP response, reduced to what this layer decides: a status code and
/// an optional JSON body.
#[derive(Clone, Debug)]
pub struct HttpReply {
    pub status: u16,
    pub body: Option<String>,
}

impl Error {
    /// The error kind behind a low-level OS error code, per the fixed table.
    pub fn from_os_code(code: Option<i32>) -> (r: Error)
        ensures
            r == error_of_os_code(code),
    {
        match code {
            Some(c) => {
                if c == ERR_PERMISSION_DENIED {
                    Error::PermissionDenied
                } else if c == ERR_FILE_EXISTS {
                    Error::AlreadyExists
                } else if c == ERR_NOT_FOUND {
                    Error::NotFound
                } else {
                    Error::InternalServerError
                }
            },
            None => Error::InternalServerError,
        }
    }

    /// Transform the error into an HTTP reply that reflects it. Consumes `self`.
    pub fn into_http(self) -> (r: HttpReply)
        ensures
            r.status == error_status(self),
            match r.body {
                Some(b) => error_body(self) == Some(b@),
                None => error_body(self) is None,
            },
    {
        match self {
            Error::InternalServerError => HttpReply { status: 500, body: None },
            Error::PermissionDenied => HttpReply { status: 401, body: None },
            Error::AlreadyExists => HttpReply { status: 409, body: None },
            Error::NotFound => HttpReply { status: 404, body: None },
            Error::MissingField(f) => HttpReply {
                status: 400,
                body: Some(
                    String::from_str("{\"error\":\"missing field: ").concat(f.text()).concat(
                        "\"}",
                    ),
                ),
            },
            Error::InvalidField(f) => HttpReply {
                status: 400,
                body: Some(
                    String::from_str("{\"error\":\"invalid field: ").concat(f.text()).concat(
                        "\"}",
                    ),
                ),
            },
        }
    }
}

} // verus!
