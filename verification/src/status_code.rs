use vstd::prelude::*;

verus! {

/// An HTTP response status, held as its three-digit code.
#[derive(Clone, Copy, Debug, PartialEq, Eq, Structural)]
pub struct StatusCode {
    pub code: u16,
}

impl StatusCode {
    /// The status with the given numeric code.
    pub fn from_u16(code: u16) -> (s: StatusCode)
        ensures
            s.code == code,
    {
        StatusCode { code }
    }

    /// The numeric code of this status.
    pub fn to_u16(&self) -> (n: u16)
        ensures
            n == self.code,
    {
        self.code
    }

    /// `200 OK`.
    pub fn ok() -> (s: StatusCode)
        ensures
            s.code == 200,
    {
        StatusCode { code: 200 }
    }

    /// `404 Not Found`.
    pub fn not_found() -> (s: StatusCode)
        ensures
            s.code == 404,
    {
        StatusCode { code: 404 }
    }

    /// `500 Internal Server Error`.
    pub fn internal_server_error() -> (s: StatusCode)
        ensures
            s.code == 500,
    {
        StatusCode { code: 500 }
    }
}

} // verus!
