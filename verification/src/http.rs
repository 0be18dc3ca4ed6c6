//! The failure of building an HTTP request.
use vstd::prelude::*;

use crate::text::append_str;

verus! {

/// An HTTP request could not be built.
#[derive(Clone, Debug, PartialEq, Eq)]
pub enum HttpBuildError {
    Build(String),
}

impl HttpBuildError {
    /// The human-readable text of this failure.
    pub fn describe(&self) -> (text: String)
        ensures
            text@ == match *self {
                HttpBuildError::Build(m) => "could not build the HTTP request: "@ + m@,
            },
    {
        let mut s = String::new();
        match self {
            HttpBuildError::Build(m) => {
                append_str(&mut s, "could not build the HTTP request: ");
                append_str(&mut s, m.as_str());
            },
        }
        s
    }
}

} // verus!
