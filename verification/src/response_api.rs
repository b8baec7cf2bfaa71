//! The uniform envelope of every API response.
use vstd::prelude::*;

verus! {

/// The response envelope: a success flag, a message, and the payload.
#[derive(Debug)]
pub struct ResponseApi<T> {
    pub status: bool,
    pub message: String,
    pub data: Option<T>,
}

impl<T> ResponseApi<T> {
    /// A successful response carrying `data`.
    pub fn ok(message: String, data: T) -> (r: ResponseApi<T>)
        ensures
            r.status == true,
            r.message == message,
            r.data == Option::Some(data),
    {
        ResponseApi { status: true, message, data: Option::Some(data) }
    }

    /// A failure response carrying no data.
    pub fn fail(message: String) -> (r: ResponseApi<T>)
        ensures
            r.status == false,
            r.message == message,
            r.data matches Option::None,
    {
        ResponseApi { status: false, message, data: Option::None }
    }
}

} // verus!
