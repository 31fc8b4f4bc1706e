//! The errors of the relay and their HTTP status codes.

use vstd::prelude::*;

verus! {

/// What can go wrong while serving a request.
#[derive(Debug, PartialEq, Eq, Structural, Clone, Copy)]
pub enum DaianaError {
    InternalError,
    InvalidArgument,
    Timeout,
    InvalidRoomId,
    Websocket,
    MaximumClientsReached,
}

/// The HTTP status code that answers each error.
pub open spec fn spec_status_code(e: DaianaError) -> u16 {
    match e {
        DaianaError::InternalError => 500,
        DaianaError::InvalidArgument => 400,
        DaianaError::Timeout => 504,
        DaianaError::InvalidRoomId => 404,
        DaianaError::Websocket => 400,
        DaianaError::MaximumClientsReached => 409,
    }
}

impl DaianaError {
    /// The HTTP status code of the response for this error.
    pub fn status_code(&self) -> (r: u16)
        ensures
            r == spec_status_code(*self),
    {
        match self {
            DaianaError::InternalError => 500,
            DaianaError::InvalidArgument => 400,
            DaianaError::Timeout => 504,
            DaianaError::InvalidRoomId => 404,
            DaianaError::Websocket => 400,
            DaianaError::MaximumClientsReached => 409,
        }
    }

    /// The human-readable text of the error, as shown in error responses.
    pub fn message(&self) -> (r: &'static str)
        ensures
            *self == DaianaError::InternalError ==> r@ == "internal error"@,
            *self == DaianaError::InvalidArgument ==> r@ == "invalid argument"@,
            *self == DaianaError::Timeout ==> r@ == "timeout"@,
            *self == DaianaError::InvalidRoomId ==> r@ == "room not found or invalid"@,
            *self == DaianaError::Websocket ==> r@
                == "something failed while initialising the websocket connection"@,
            *self == DaianaError::MaximumClientsReached ==> r@ == "maximum clients on a room reached"@,
    {
        match self {
            DaianaError::InternalError => "internal error",
            DaianaError::InvalidArgument => "invalid argument",
            DaianaError::Timeout => "timeout",
            DaianaError::InvalidRoomId => "room not found or invalid",
            DaianaError::Websocket => "something failed while initialising the websocket connection",
            DaianaError::MaximumClientsReached => "maximum clients on a room reached",
        }
    }
}

} // verus!
