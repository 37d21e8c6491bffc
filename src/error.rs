use vstd::prelude::*;

verus! {

#[verifier::external_type_specification]
#[verifier::external_body]
pub struct ExJsonError(serde_json::Error);

#[verifier::external_type_specification]
#[verifier::external_body]
pub struct ExReqwestError(reqwest::Error);

/// Why a metadata lookup failed: the response body was not the expected
/// JSON envelope, or the transport failed.
#[derive(Debug)]
pub enum GeneralError {
    Serde(serde_json::Error),
    Reqwest(reqwest::Error),
}

impl From<serde_json::Error> for GeneralError {
    fn from(value: serde_json::Error) -> (r: GeneralError)
        ensures
            r == GeneralError::Serde(value),
    {
        GeneralError::Serde(value)
    }
}

impl vstd::std_specs::convert::FromSpecImpl<serde_json::Error> for GeneralError {
    open spec fn obeys_from_spec() -> bool {
        true
    }

    open spec fn from_spec(v: serde_json::Error) -> GeneralError {
        GeneralError::Serde(v)
    }
}

impl From<reqwest::Error> for GeneralError {
    fn from(value: reqwest::Error) -> (r: GeneralError)
        ensures
            r == GeneralError::Reqwest(value),
    {
        GeneralError::Reqwest(value)
    }
}

impl vstd::std_specs::convert::FromSpecImpl<reqwest::Error> for GeneralError {
    open spec fn obeys_from_spec() -> bool {
        true
    }

    open spec fn from_spec(v: reqwest::Error) -> GeneralError {
        GeneralError::Reqwest(v)
    }
}

} // verus!
