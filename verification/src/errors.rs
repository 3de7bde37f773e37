//! The directory's errors, and the protocol results that report them.

use crate::octets::{bytes_clone, bytes_from_str, bytes_view, empty_bytes};
use crate::text::concat2;
use bytes::Bytes;
use vstd::prelude::*;
use vstd::string::*;
use vstd::utf8::encode_utf8;

verus! {

/// What went wrong while serving a request.
#[derive(Debug)]
pub enum LdapError {
    /// A field of an add request is not UTF-8.
    InvalidAddRequest { name: Bytes, msg: String },
    UnknownError(String),
    /// The text of a distinguished name cannot be parsed, or names an unknown attribute.
    InvalidDN { dn: String, msg: String },
    EntryAlreadyExists { dn: String },
    EntryDoesNotExists { dn: String },
    /// An entry does not satisfy the schema, or the tree around it is broken.
    InvalidEntry { id: String, msg: String },
    /// The schema refers to an identifier that it does not define.
    InvalidSchema(String),
    UnknownAttribute(String),
    UnknownObjectClass(String),
}

/// An [`LdapError`] as plain values.
pub enum LdapErrorView {
    InvalidAddRequest { name: Seq<u8>, msg: Seq<char> },
    UnknownError(Seq<char>),
    InvalidDN { dn: Seq<char>, msg: Seq<char> },
    EntryAlreadyExists { dn: Seq<char> },
    EntryDoesNotExists { dn: Seq<char> },
    InvalidEntry { id: Seq<char>, msg: Seq<char> },
    InvalidSchema(Seq<char>),
    UnknownAttribute(Seq<char>),
    UnknownObjectClass(Seq<char>),
}

/// The text of `s` as `Debug` prints a string: quoted, with escapes.
pub uninterp spec fn debug_quoted(s: Seq<char>) -> Seq<char>;

/// `Debug` formatting of a string slice, by `format!("{:?}", ..)`: the
/// result is a function of the characters alone.
#[verifier::external_body]
fn debug_text(s: &str) -> (r: String)
    ensures
        r@ == debug_quoted(s@),
{
    format!("{:?}", s)
}

/// The message of an error.
pub open spec fn error_text(e: LdapErrorView) -> Seq<char> {
    match e {
        LdapErrorView::InvalidAddRequest { name, msg } => "Invalid Add Request: "@ + debug_quoted(msg),
        LdapErrorView::UnknownError(m) => "An unknown error occured: "@ + m,
        LdapErrorView::InvalidDN { dn, msg } => "Invalid DN "@ + dn + ": "@ + msg,
        LdapErrorView::EntryAlreadyExists { dn } => "Entry already exists at "@ + dn,
        LdapErrorView::EntryDoesNotExists { dn } => "Entry does not exist at "@ + dn,
        LdapErrorView::InvalidEntry { id, msg } => "Entry "@ + id + " has invalid state: "@ + msg,
        LdapErrorView::InvalidSchema(m) => "Schema is invalid: "@ + m,
        LdapErrorView::UnknownAttribute(m) => "Could not find attribute: "@ + m,
        LdapErrorView::UnknownObjectClass(m) => "Could not find object class: "@ + m,
    }
}

impl View for LdapError {
    type V = LdapErrorView;

    open spec fn view(&self) -> LdapErrorView {
        match self {
            LdapError::InvalidAddRequest { name, msg } => LdapErrorView::InvalidAddRequest {
                name: bytes_view(*name),
                msg: msg@,
            },
            LdapError::UnknownError(m) => LdapErrorView::UnknownError(m@),
            LdapError::InvalidDN { dn, msg } => LdapErrorView::InvalidDN { dn: dn@, msg: msg@ },
            LdapError::EntryAlreadyExists { dn } => LdapErrorView::EntryAlreadyExists { dn: dn@ },
            LdapError::EntryDoesNotExists { dn } => LdapErrorView::EntryDoesNotExists { dn: dn@ },
            LdapError::InvalidEntry { id, msg } => LdapErrorView::InvalidEntry { id: id@, msg: msg@ },
            LdapError::InvalidSchema(m) => LdapErrorView::InvalidSchema(m@),
            LdapError::UnknownAttribute(m) => LdapErrorView::UnknownAttribute(m@),
            LdapError::UnknownObjectClass(m) => LdapErrorView::UnknownObjectClass(m@),
        }
    }
}

impl Clone for LdapError {
    fn clone(&self) -> (r: Self)
        ensures
            r@ == self@,
    {
        match self {
            LdapError::InvalidAddRequest { name, msg } => LdapError::InvalidAddRequest {
                name: bytes_clone(name),
                msg: msg.clone(),
            },
            LdapError::UnknownError(m) => LdapError::UnknownError(m.clone()),
            LdapError::InvalidDN { dn, msg } => LdapError::InvalidDN { dn: dn.clone(), msg: msg.clone() },
            LdapError::EntryAlreadyExists { dn } => LdapError::EntryAlreadyExists { dn: dn.clone() },
            LdapError::EntryDoesNotExists { dn } => LdapError::EntryDoesNotExists { dn: dn.clone() },
            LdapError::InvalidEntry { id, msg } => LdapError::InvalidEntry {
                id: id.clone(),
                msg: msg.clone(),
            },
            LdapError::InvalidSchema(m) => LdapError::InvalidSchema(m.clone()),
            LdapError::UnknownAttribute(m) => LdapError::UnknownAttribute(m.clone()),
            LdapError::UnknownObjectClass(m) => LdapError::UnknownObjectClass(m.clone()),
        }
    }
}

impl LdapError {
    /// The message of the error.
    pub fn to_string(&self) -> (r: String)
        ensures
            r@ == error_text(self@),
    {
        match self {
            LdapError::InvalidAddRequest { name, msg } => {
                let quoted = debug_text(msg.as_str());
                concat2("Invalid Add Request: ", quoted.as_str())
            },
            LdapError::UnknownError(m) => concat2("An unknown error occured: ", m.as_str()),
            LdapError::InvalidDN { dn, msg } => {
                let mut s = concat2("Invalid DN ", dn.as_str());
                s.append(": ");
                s.append(msg.as_str());
                s
            },
            LdapError::EntryAlreadyExists { dn } => concat2("Entry already exists at ", dn.as_str()),
            LdapError::EntryDoesNotExists { dn } => concat2("Entry does not exist at ", dn.as_str()),
            LdapError::InvalidEntry { id, msg } => {
                let mut s = concat2("Entry ", id.as_str());
                s.append(" has invalid state: ");
                s.append(msg.as_str());
                s
            },
            LdapError::InvalidSchema(m) => concat2("Schema is invalid: ", m.as_str()),
            LdapError::UnknownAttribute(m) => concat2("Could not find attribute: ", m.as_str()),
            LdapError::UnknownObjectClass(m) => concat2("Could not find object class: ", m.as_str()),
        }
    }
}

/// The result codes that the directory answers with.
#[derive(Debug, Copy, Clone, PartialEq, Eq, Structural)]
pub enum ResultCode {
    Success,
    ProtocolError,
    InvalidDnSyntax,
    EntryAlreadyExists,
    NoSuchObject,
    UndefinedAttributeType,
    UnwillingToPerform,
}

/// The outcome of an operation as the protocol reports it.
#[derive(Debug)]
pub struct LdapResult {
    pub result_code: ResultCode,
    pub matched_dn: Bytes,
    pub diagnostic_message: Bytes,
}

/// An [`LdapResult`] as plain values.
pub struct LdapResultView {
    pub result_code: ResultCode,
    pub matched_dn: Seq<u8>,
    pub diagnostic_message: Seq<u8>,
}

impl View for LdapResult {
    type V = LdapResultView;

    open spec fn view(&self) -> LdapResultView {
        LdapResultView {
            result_code: self.result_code,
            matched_dn: bytes_view(self.matched_dn),
            diagnostic_message: bytes_view(self.diagnostic_message),
        }
    }
}

/// The result that reports `e`, for the errors that a result can report.
pub open spec fn result_of_error(e: LdapErrorView) -> Option<LdapResultView> {
    match e {
        LdapErrorView::InvalidAddRequest { name, msg } => Some(
            LdapResultView {
                result_code: ResultCode::ProtocolError,
                matched_dn: name,
                diagnostic_message: encode_utf8(msg),
            },
        ),
        LdapErrorView::InvalidDN { dn, msg } => Some(
            LdapResultView {
                result_code: ResultCode::InvalidDnSyntax,
                matched_dn: encode_utf8(dn),
                diagnostic_message: encode_utf8(error_text(e)),
            },
        ),
        LdapErrorView::EntryAlreadyExists { dn } => Some(
            LdapResultView {
                result_code: ResultCode::EntryAlreadyExists,
                matched_dn: encode_utf8(dn),
                diagnostic_message: encode_utf8(error_text(e)),
            },
        ),
        LdapErrorView::EntryDoesNotExists { dn } => Some(
            LdapResultView {
                result_code: ResultCode::NoSuchObject,
                matched_dn: encode_utf8(dn),
                diagnostic_message: encode_utf8(error_text(e)),
            },
        ),
        LdapErrorView::UnknownAttribute(_) => Some(
            LdapResultView {
                result_code: ResultCode::UndefinedAttributeType,
                matched_dn: Seq::empty(),
                diagnostic_message: encode_utf8(error_text(e)),
            },
        ),
        LdapErrorView::UnknownObjectClass(_) => Some(
            LdapResultView {
                result_code: ResultCode::UndefinedAttributeType,
                matched_dn: Seq::empty(),
                diagnostic_message: encode_utf8(error_text(e)),
            },
        ),
        LdapErrorView::InvalidEntry { id, msg } => Some(
            LdapResultView {
                result_code: ResultCode::UnwillingToPerform,
                matched_dn: Seq::empty(),
                diagnostic_message: encode_utf8(error_text(e)),
            },
        ),
        LdapErrorView::InvalidSchema(_) => None,
        LdapErrorView::UnknownError(_) => None,
    }
}

impl LdapResult {
    pub fn new(result_code: ResultCode, matched_dn: Bytes, diagnostic_message: Bytes) -> (r:
        LdapResult)
        ensures
            r@ == (LdapResultView {
                result_code,
                matched_dn: bytes_view(matched_dn),
                diagnostic_message: bytes_view(diagnostic_message),
            }),
    {
        LdapResult { result_code, matched_dn, diagnostic_message }
    }

    /// The result that reports `value`; the error itself where no result can report it.
    pub fn try_from(value: LdapError) -> (r: Result<LdapResult, LdapError>)
        ensures
            match r {
                Ok(res) => result_of_error(value@) == Some(res@),
                Err(e) => result_of_error(value@) is None && e@ == value@,
            },
    {
        let text = value.to_string();
        let diagnostic = bytes_from_str(text.as_str());
        match value {
            LdapError::InvalidAddRequest { name, msg } => Ok(
                LdapResult::new(ResultCode::ProtocolError, name, bytes_from_str(msg.as_str())),
            ),
            LdapError::InvalidDN { dn, msg } => Ok(
                LdapResult::new(ResultCode::InvalidDnSyntax, bytes_from_str(dn.as_str()), diagnostic),
            ),
            LdapError::EntryAlreadyExists { dn } => Ok(
                LdapResult::new(ResultCode::EntryAlreadyExists, bytes_from_str(dn.as_str()), diagnostic),
            ),
            LdapError::EntryDoesNotExists { dn } => Ok(
                LdapResult::new(ResultCode::NoSuchObject, bytes_from_str(dn.as_str()), diagnostic),
            ),
            LdapError::UnknownAttribute(_) => Ok(
                LdapResult::new(ResultCode::UndefinedAttributeType, empty_bytes(), diagnostic),
            ),
            LdapError::UnknownObjectClass(_) => Ok(
                LdapResult::new(ResultCode::UndefinedAttributeType, empty_bytes(), diagnostic),
            ),
            LdapError::InvalidEntry { id, msg } => Ok(
                LdapResult::new(ResultCode::UnwillingToPerform, empty_bytes(), diagnostic),
            ),
            other => Err(other),
        }
    }
}

} // verus!
