//! What can go wrong between a deck document and its images.

use crate::json::{Json, JsonView};
use vstd::prelude::*;
use vstd::std_specs::convert::FromSpecImpl;

verus! {

/// `serde_json::Error`: why a text is no JSON document. Nothing is read from it.
#[verifier::external_type_specification]
#[verifier::external_body]
pub struct ExSerdeJsonError(serde_json::Error);

/// `reqwest::Error`: why a request did not bring a response. Nothing is read
/// from it.
#[verifier::external_type_specification]
#[verifier::external_body]
pub struct ExReqwestError(reqwest::Error);

/// Why a deck could not be read, or an image not be named.
#[derive(Debug)]
pub enum DeckError {
    /// The text is no JSON document.
    SerdeJsonError(serde_json::Error),
    /// A key of the document holds no value of the kind that is needed: the
    /// key, and the value that was searched.
    InvalidJsonKey(String, Json),
    /// A value of the document is not of the kind that is needed: the kind,
    /// and the value.
    InvalidJsonType(String, Json),
    /// A request did not bring a response.
    ReqwestError(reqwest::Error),
    /// A response lacks a header: the header's name, and all headers of the
    /// response.
    MissingHeader(String, String),
    /// A header of a response is not of the form that is needed: the header's
    /// name, and all headers of the response.
    InvalidHeader(String, String),
}

/// What a `DeckError` holds.
pub enum DeckErrorView {
    SerdeJsonError(serde_json::Error),
    InvalidJsonKey(Seq<char>, JsonView),
    InvalidJsonType(Seq<char>, JsonView),
    ReqwestError(reqwest::Error),
    MissingHeader(Seq<char>, Seq<char>),
    InvalidHeader(Seq<char>, Seq<char>),
}

impl View for DeckError {
    type V = DeckErrorView;

    open spec fn view(&self) -> DeckErrorView {
        match self {
            DeckError::SerdeJsonError(cause) => DeckErrorView::SerdeJsonError(*cause),
            DeckError::InvalidJsonKey(key, value) => DeckErrorView::InvalidJsonKey(key@, value@),
            DeckError::InvalidJsonType(kind, value) => DeckErrorView::InvalidJsonType(kind@, value@),
            DeckError::ReqwestError(cause) => DeckErrorView::ReqwestError(*cause),
            DeckError::MissingHeader(name, headers) => DeckErrorView::MissingHeader(name@, headers@),
            DeckError::InvalidHeader(name, headers) => DeckErrorView::InvalidHeader(name@, headers@),
        }
    }
}

impl From<serde_json::Error> for DeckError {
    fn from(cause: serde_json::Error) -> (error: DeckError) {
        DeckError::SerdeJsonError(cause)
    }
}

impl FromSpecImpl<serde_json::Error> for DeckError {
    open spec fn obeys_from_spec() -> bool {
        true
    }

    open spec fn from_spec(cause: serde_json::Error) -> DeckError {
        DeckError::SerdeJsonError(cause)
    }
}

impl From<reqwest::Error> for DeckError {
    fn from(cause: reqwest::Error) -> (error: DeckError) {
        DeckError::ReqwestError(cause)
    }
}

impl FromSpecImpl<reqwest::Error> for DeckError {
    open spec fn obeys_from_spec() -> bool {
        true
    }

    open spec fn from_spec(cause: reqwest::Error) -> DeckError {
        DeckError::ReqwestError(cause)
    }
}

} // verus!
