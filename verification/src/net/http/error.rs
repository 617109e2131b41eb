//! The error of an HTTP request.
use vstd::prelude::*;

use vstd::string::StringExecFns;

verus! {

/// What went wrong while making an HTTP request, as a message.
#[derive(Debug)]
pub struct HttpRequestError {
    err: String,
}

impl HttpRequestError {
    /// Wraps the message of an error.
    pub fn from(err: String) -> (res: HttpRequestError)
        ensures
            res.message()@ == err@,
    {
        HttpRequestError { err }
    }

    /// The message that the error carries.
    pub closed spec fn message(&self) -> String {
        self.err
    }

    /// The message that the error carries.
    pub fn description(&self) -> (res: &String)
        ensures
            res@ == self.message()@,
    {
        &self.err
    }

    /// The text that the error displays: `HTTP Request error: ` and the message, wrapped.
    pub fn to_string(&self) -> (res: String)
        ensures
            res@ == "HTTP Request error: "@ + self.message()@,
    {
        let mut res = String::from_str("HTTP Request error: ");
        res.append(self.err.as_str());
        res
    }

    /// The error that this error wraps: its message.
    pub fn source(&self) -> (res: &String)
        ensures
            res@ == self.message()@,
    {
        &self.err
    }
}

} // verus!
