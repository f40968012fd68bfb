//! The failures of the cache, each with its HTTP status and its message.

use crate::codec::{DecodeError, DecodeKind};
use crate::nix::sign::Ed25519Error;
use crate::registry::OciLocation;
use crate::text::{concat2, concat3, decimal, decimal_text, signed_decimal, signed_decimal_text};
use vstd::prelude::*;
use vstd::string::StringExecFns;

verus! {

/// The body of a not-found response, as S3 clients expect it.
pub const NO_SUCH_KEY_RESPONSE_BODY: &'static str = "<Error><Code>NoSuchKey</Code></Error>";

/// Every failure of the cache. Failures of the services around it carry the
/// service's own description as text.
#[derive(Debug, PartialEq, Eq)]
pub enum Error {
    Http(String),
    Reqwest(String),
    Io(String),
    Rusqlite(String),
    DuplicatedPathInfo(String),
    InvalidSignature(String),
    EarlyStop,
    Join(String),
    InvalidNarSize(i64),
    NarSizeNotMatch(i64, usize),
    RetryAllFails(Vec<Error>),
    PushFailed,
    Nar(String),
    PathRejection(String),
    UpstreamCanNotBeBase(String),
    Decode(DecodeError),
    TagToKey(Vec<Error>),
    InvalidTag(String),
    FromUtf8(Vec<u8>),
    HeaderToStr(String, String),
    InvalidAuthorization(String),
    OciDistribution(String),
    InvalidLayerCount(usize),
    InvalidLayerMediaType(String),
    NoLayerAnnotations,
    NoLayerAnnotationKey(String),
    ReferenceNotFound(OciLocation),
    IllFormedPath(String),
    InvalidQueryString(String),
    InvalidOsString(String),
    NoPathInfo(String),
    InvalidStorePath(String),
    InvalidSigningKey(String),
    InvalidMaxRetry(usize),
    NixDbFolderNotWritable(String),
    Ed25519(Ed25519Error),
    InvalidSigningKeyEnv(String),
    SignatureMismatch { name: String, new: String, exists: String },
}

/// The phrase that `http::StatusCode::canonical_reason` has for a status.
pub uninterp spec fn reason_phrase(code: u16) -> Option<Seq<char>>;

/// The view of an optional string.
pub open spec fn optional_text(s: Option<String>) -> Option<Seq<char>> {
    match s {
        Some(s) => Some(s@),
        None => None,
    }
}

/// The canonical reason phrase of an HTTP status.
///
/// Calls `http::StatusCode::from_u16` and `canonical_reason`. The result is
/// named `reason_phrase`; of the statuses that this library answers with,
/// the contract states the phrase as it stands in the crate's table.
#[verifier::external_body]
pub(crate) fn canonical_reason(code: u16) -> (r: Option<String>)
    ensures
        optional_text(r) == reason_phrase(code),
        code == 500 ==> optional_text(r) == Some("Internal Server Error"@),
        code == 404 ==> optional_text(r) == Some("Not Found"@),
        code == 400 ==> optional_text(r) == Some("Bad Request"@),
        code == 302 ==> optional_text(r) == Some("Found"@),
        code == 200 ==> optional_text(r) == Some("OK"@),
{
    match http::StatusCode::from_u16(code) {
        Ok(status) => status.canonical_reason().map(|reason| reason.to_owned()),
        Err(_) => None,
    }
}

impl DecodeKind {
    /// What the kind is called in a message.
    pub open spec fn description_text(self) -> Seq<char> {
        match self {
            DecodeKind::Length => "invalid length"@,
            DecodeKind::Symbol => "invalid symbol"@,
            DecodeKind::Trailing => "non-zero trailing bits"@,
            DecodeKind::Padding => "invalid padding length"@,
        }
    }

    /// What the kind is called in a message.
    pub fn description(&self) -> (s: &'static str)
        ensures
            s@ == self.description_text(),
    {
        match self {
            DecodeKind::Length => "invalid length",
            DecodeKind::Symbol => "invalid symbol",
            DecodeKind::Trailing => "non-zero trailing bits",
            DecodeKind::Padding => "invalid padding length",
        }
    }
}

impl Ed25519Error {
    /// What the failure is called in a message.
    pub open spec fn description_text(self) -> Seq<char> {
        match self {
            Ed25519Error::SignatureMismatch => "Signature doesn't verify"@,
            Ed25519Error::WeakPublicKey => "Weak public key"@,
            Ed25519Error::InvalidPublicKey => "Invalid public key"@,
            Ed25519Error::InvalidSecretKey => "Invalid secret key"@,
            Ed25519Error::InvalidSignature => "Invalid signature"@,
            Ed25519Error::InvalidSeed => "Invalid seed"@,
            Ed25519Error::InvalidBlind => "Invalid blind length"@,
            Ed25519Error::InvalidNoise => "Invalid noise length"@,
            Ed25519Error::ParseError => "Parse error"@,
            Ed25519Error::NonCanonical => "Non-canonical encoding"@,
        }
    }

    /// What the failure is called in a message.
    pub fn description(&self) -> (s: &'static str)
        ensures
            s@ == self.description_text(),
    {
        match self {
            Ed25519Error::SignatureMismatch => "Signature doesn't verify",
            Ed25519Error::WeakPublicKey => "Weak public key",
            Ed25519Error::InvalidPublicKey => "Invalid public key",
            Ed25519Error::InvalidSecretKey => "Invalid secret key",
            Ed25519Error::InvalidSignature => "Invalid signature",
            Ed25519Error::InvalidSeed => "Invalid seed",
            Ed25519Error::InvalidBlind => "Invalid blind length",
            Ed25519Error::InvalidNoise => "Invalid noise length",
            Ed25519Error::ParseError => "Parse error",
            Ed25519Error::NonCanonical => "Non-canonical encoding",
        }
    }
}

/// The messages of the first `n` failures of a list, separated by `, `.
pub open spec fn list_text(errors: Seq<Error>, n: int) -> Seq<char>
    decreases errors, n,
{
    if n <= 0 || n > errors.len() {
        Seq::empty()
    } else if n == 1 {
        errors[0].message_text()
    } else {
        list_text(errors, n - 1) + ", "@ + errors[n - 1].message_text()
    }
}

impl Error {
    /// The HTTP status that answers this failure.
    pub open spec fn status(self) -> u16 {
        match self {
            Error::Http(_) => 500,
            Error::Reqwest(_) => 500,
            Error::Io(_) => 500,
            Error::Rusqlite(_) => 500,
            Error::DuplicatedPathInfo(_) => 500,
            Error::InvalidSignature(_) => 500,
            Error::EarlyStop => 500,
            Error::Join(_) => 500,
            Error::InvalidNarSize(_) => 500,
            Error::NarSizeNotMatch(_, _) => 500,
            Error::RetryAllFails(_) => 500,
            Error::PushFailed => 500,
            Error::Nar(_) => 500,
            Error::PathRejection(_) => 500,
            Error::ReferenceNotFound(_) => 404,
            Error::IllFormedPath(_) => 404,
            _ => 400,
        }
    }

    /// The HTTP status that answers this failure: 500 for what went wrong on
    /// the server's side, 404 for what is not there, 400 for the rest.
    pub fn code(&self) -> (code: u16)
        ensures
            code == self.status(),
            code == 400 || code == 404 || code == 500,
    {
        match self {
            Error::Http(_) => 500,
            Error::Reqwest(_) => 500,
            Error::Io(_) => 500,
            Error::Rusqlite(_) => 500,
            Error::DuplicatedPathInfo(_) => 500,
            Error::InvalidSignature(_) => 500,
            Error::EarlyStop => 500,
            Error::Join(_) => 500,
            Error::InvalidNarSize(_) => 500,
            Error::NarSizeNotMatch(_, _) => 500,
            Error::RetryAllFails(_) => 500,
            Error::PushFailed => 500,
            Error::Nar(_) => 500,
            Error::PathRejection(_) => 500,
            Error::UpstreamCanNotBeBase(_) => 400,
            Error::Decode(_) => 400,
            Error::TagToKey(_) => 400,
            Error::InvalidTag(_) => 400,
            Error::FromUtf8(_) => 400,
            Error::HeaderToStr(_, _) => 400,
            Error::InvalidAuthorization(_) => 400,
            Error::OciDistribution(_) => 400,
            Error::InvalidLayerCount(_) => 400,
            Error::InvalidLayerMediaType(_) => 400,
            Error::NoLayerAnnotations => 400,
            Error::NoLayerAnnotationKey(_) => 400,
            Error::ReferenceNotFound(_) => 404,
            Error::IllFormedPath(_) => 404,
            Error::InvalidQueryString(_) => 400,
            Error::InvalidOsString(_) => 400,
            Error::NoPathInfo(_) => 400,
            Error::InvalidStorePath(_) => 400,
            Error::InvalidSigningKey(_) => 400,
            Error::InvalidMaxRetry(_) => 400,
            Error::NixDbFolderNotWritable(_) => 400,
            Error::Ed25519(_) => 400,
            Error::InvalidSigningKeyEnv(_) => 400,
            Error::SignatureMismatch { .. } => 400,
        }
    }

    /// Whether this is the sentinel of a worker that stopped early.
    pub fn is_early_stop(&self) -> (b: bool)
        ensures
            b == (self is EarlyStop),
    {
        match self {
            Error::EarlyStop => true,
            _ => false,
        }
    }

    /// How the message of this failure begins.
    pub open spec fn prefix_text(self) -> Seq<char> {
        match self {
            Error::Http(_) => "http error: "@,
            Error::Reqwest(_) => "reqwest error: "@,
            Error::Io(_) => "io error: "@,
            Error::Rusqlite(_) => "rusqlite error: "@,
            Error::DuplicatedPathInfo(_) => "duplicated path info: "@,
            Error::InvalidSignature(_) => "invalid signature: "@,
            Error::EarlyStop => "early stop"@,
            Error::Join(_) => "tokio join error: "@,
            Error::InvalidNarSize(_) => "invalid nar size: "@,
            Error::NarSizeNotMatch(_, _) => "nar size not match: expected = "@,
            Error::RetryAllFails(_) => "retry all fails: "@,
            Error::PushFailed => "push failed"@,
            Error::Nar(_) => "nar error: "@,
            Error::PathRejection(_) => "path rejected in extraction: "@,
            Error::UpstreamCanNotBeBase(_) => "upstream url '"@,
            Error::Decode(_) => "decode error: "@,
            Error::TagToKey(_) => "tag-to-key error: "@,
            Error::InvalidTag(_) => "invalid tag error: "@,
            Error::FromUtf8(_) => "from utf-8 error: "@,
            Error::HeaderToStr(_, _) => "failed to convert header "@,
            Error::InvalidAuthorization(_) => "invalid authorization header: "@,
            Error::OciDistribution(_) => "oci distribution error: "@,
            Error::InvalidLayerCount(_) => "invalid image layer count: "@,
            Error::InvalidLayerMediaType(_) => "invalid image layer media type: "@,
            Error::NoLayerAnnotations => "lack of layer annotations"@,
            Error::NoLayerAnnotationKey(_) => "lack of layer annotation key: "@,
            Error::ReferenceNotFound(_) => "reference not found: "@,
            Error::IllFormedPath(_) => "ill-formed path: "@,
            Error::InvalidQueryString(_) => "invalid query string: "@,
            Error::InvalidOsString(_) => "invalid os string: "@,
            Error::NoPathInfo(_) => "no path info: "@,
            Error::InvalidStorePath(_) => "invalid store path: "@,
            Error::InvalidSigningKey(_) => "invalid signing key: "@,
            Error::InvalidMaxRetry(_) => "invalid max retry number: "@,
            Error::NixDbFolderNotWritable(_) => "nix db folder '"@,
            Error::Ed25519(_) => "ed25519 error: "@,
            Error::InvalidSigningKeyEnv(_) =>
                "unable to read environment variable `ORANC_SIGNING_KEY`: "@,
            Error::SignatureMismatch { .. } => "signature mismatch for key '"@,
        }
    }

    /// How the message of this failure begins.
    pub fn prefix(&self) -> (s: &'static str)
        ensures
            s@ == self.prefix_text(),
    {
        match self {
            Error::Http(_) => "http error: ",
            Error::Reqwest(_) => "reqwest error: ",
            Error::Io(_) => "io error: ",
            Error::Rusqlite(_) => "rusqlite error: ",
            Error::DuplicatedPathInfo(_) => "duplicated path info: ",
            Error::InvalidSignature(_) => "invalid signature: ",
            Error::EarlyStop => "early stop",
            Error::Join(_) => "tokio join error: ",
            Error::InvalidNarSize(_) => "invalid nar size: ",
            Error::NarSizeNotMatch(_, _) => "nar size not match: expected = ",
            Error::RetryAllFails(_) => "retry all fails: ",
            Error::PushFailed => "push failed",
            Error::Nar(_) => "nar error: ",
            Error::PathRejection(_) => "path rejected in extraction: ",
            Error::UpstreamCanNotBeBase(_) => "upstream url '",
            Error::Decode(_) => "decode error: ",
            Error::TagToKey(_) => "tag-to-key error: ",
            Error::InvalidTag(_) => "invalid tag error: ",
            Error::FromUtf8(_) => "from utf-8 error: ",
            Error::HeaderToStr(_, _) => "failed to convert header ",
            Error::InvalidAuthorization(_) => "invalid authorization header: ",
            Error::OciDistribution(_) => "oci distribution error: ",
            Error::InvalidLayerCount(_) => "invalid image layer count: ",
            Error::InvalidLayerMediaType(_) => "invalid image layer media type: ",
            Error::NoLayerAnnotations => "lack of layer annotations",
            Error::NoLayerAnnotationKey(_) => "lack of layer annotation key: ",
            Error::ReferenceNotFound(_) => "reference not found: ",
            Error::IllFormedPath(_) => "ill-formed path: ",
            Error::InvalidQueryString(_) => "invalid query string: ",
            Error::InvalidOsString(_) => "invalid os string: ",
            Error::NoPathInfo(_) => "no path info: ",
            Error::InvalidStorePath(_) => "invalid store path: ",
            Error::InvalidSigningKey(_) => "invalid signing key: ",
            Error::InvalidMaxRetry(_) => "invalid max retry number: ",
            Error::NixDbFolderNotWritable(_) => "nix db folder '",
            Error::Ed25519(_) => "ed25519 error: ",
            Error::InvalidSigningKeyEnv(_) =>
                "unable to read environment variable `ORANC_SIGNING_KEY`: ",
            Error::SignatureMismatch { .. } => "signature mismatch for key '",
        }
    }

    /// What follows the beginning of the message: the particulars.
    pub open spec fn detail_text(self) -> Seq<char>
        decreases self, 0int,
    {
        match self {
            Error::Http(s) => s@,
            Error::Reqwest(s) => s@,
            Error::Io(s) => s@,
            Error::Rusqlite(s) => s@,
            Error::DuplicatedPathInfo(s) => s@,
            Error::InvalidSignature(s) => s@,
            Error::EarlyStop => Seq::empty(),
            Error::Join(s) => s@,
            Error::InvalidNarSize(n) => signed_decimal_text(n as int),
            Error::NarSizeNotMatch(expected, actual) => signed_decimal_text(expected as int)
                + ", actual = "@ + decimal_text(actual as nat),
            Error::RetryAllFails(errors) => "["@ + list_text(errors@, errors@.len() as int) + "]"@,
            Error::PushFailed => Seq::empty(),
            Error::Nar(s) => s@,
            Error::PathRejection(s) => s@,
            Error::UpstreamCanNotBeBase(url) => url@ + "' can not be base"@,
            Error::Decode(e) => e.kind.description_text() + " at "@ + decimal_text(
                e.position as nat,
            ),
            Error::TagToKey(errors) => "["@ + list_text(errors@, errors@.len() as int) + "]"@,
            Error::InvalidTag(s) => s@,
            Error::FromUtf8(_) => "invalid utf-8 sequence"@,
            Error::HeaderToStr(name, e) => name@ + " to string: "@ + e@,
            Error::InvalidAuthorization(s) => s@,
            Error::OciDistribution(s) => s@,
            Error::InvalidLayerCount(n) => decimal_text(n as nat),
            Error::InvalidLayerMediaType(s) => s@,
            Error::NoLayerAnnotations => Seq::empty(),
            Error::NoLayerAnnotationKey(s) => s@,
            Error::ReferenceNotFound(location) => location.display_text(),
            Error::IllFormedPath(s) => s@,
            Error::InvalidQueryString(s) => s@,
            Error::InvalidOsString(s) => s@,
            Error::NoPathInfo(s) => s@,
            Error::InvalidStorePath(s) => s@,
            Error::InvalidSigningKey(s) => s@,
            Error::InvalidMaxRetry(n) => decimal_text(n as nat),
            Error::NixDbFolderNotWritable(s) => s@ + "' is not writable"@,
            Error::Ed25519(e) => e.description_text(),
            Error::InvalidSigningKeyEnv(s) => s@,
            Error::SignatureMismatch { name, new, exists } => name@ + "': new = '"@ + new@
                + "', exists = '"@ + exists@ + "'"@,
        }
    }

    /// The message of this failure.
    pub open spec fn message_text(self) -> Seq<char>
        decreases self, 1int,
    {
        self.prefix_text() + self.detail_text()
    }

    /// The body of the response that answers this failure: the S3 not-found
    /// document for a reference that is not there, the message for another
    /// failure of the client, the reason phrase of the status for the rest.
    pub open spec fn response_body_text(self) -> Seq<char> {
        if self is ReferenceNotFound {
            NO_SUCH_KEY_RESPONSE_BODY@
        } else if 400 <= self.status() < 500 {
            self.message_text()
        } else {
            "Internal Server Error"@
        }
    }

    fn list(errors: &Vec<Error>) -> (s: String)
        ensures
            s@ == "["@ + list_text(errors@, errors@.len() as int) + "]"@,
        decreases errors@, 0int,
    {
        let mut s = String::from_str("[");
        let mut i: usize = 0;
        while i < errors.len()
            invariant
                i <= errors.len(),
                s@ == "["@ + list_text(errors@, i as int),
            decreases errors.len() - i,
        {
            if i > 0 {
                s.append(", ");
            }
            proof {
                assert(decreases_to!(errors@ => errors@[i as int]));
            }
            let m = errors[i].message();
            s.append(m.as_str());
            i += 1;
        }
        s.append("]");
        s
    }

    /// The particulars of this failure, as its message gives them.
    pub fn detail(&self) -> (s: String)
        ensures
            s@ == self.detail_text(),
        decreases self, 0int,
    {
        match self {
            Error::Http(s) => s.clone(),
            Error::Reqwest(s) => s.clone(),
            Error::Io(s) => s.clone(),
            Error::Rusqlite(s) => s.clone(),
            Error::DuplicatedPathInfo(s) => s.clone(),
            Error::InvalidSignature(s) => s.clone(),
            Error::EarlyStop => String::new(),
            Error::Join(s) => s.clone(),
            Error::InvalidNarSize(n) => signed_decimal(*n),
            Error::NarSizeNotMatch(expected, actual) => {
                let e = signed_decimal(*expected);
                let a = decimal(*actual as u64);
                concat3(e.as_str(), ", actual = ", a.as_str())
            },
            Error::RetryAllFails(errors) => {
                proof {
                    assert(decreases_to!(*self => errors@));
                }
                Error::list(errors)
            },
            Error::PushFailed => String::new(),
            Error::Nar(s) => s.clone(),
            Error::PathRejection(s) => s.clone(),
            Error::UpstreamCanNotBeBase(url) => concat2(url.as_str(), "' can not be base"),
            Error::Decode(e) => {
                let p = decimal(e.position as u64);
                concat3(e.kind.description(), " at ", p.as_str())
            },
            Error::TagToKey(errors) => {
                proof {
                    assert(decreases_to!(*self => errors@));
                }
                Error::list(errors)
            },
            Error::InvalidTag(s) => s.clone(),
            Error::FromUtf8(_) => String::from_str("invalid utf-8 sequence"),
            Error::HeaderToStr(name, e) => concat3(name.as_str(), " to string: ", e.as_str()),
            Error::InvalidAuthorization(s) => s.clone(),
            Error::OciDistribution(s) => s.clone(),
            Error::InvalidLayerCount(n) => decimal(*n as u64),
            Error::InvalidLayerMediaType(s) => s.clone(),
            Error::NoLayerAnnotations => String::new(),
            Error::NoLayerAnnotationKey(s) => s.clone(),
            Error::ReferenceNotFound(location) => location.to_text(),
            Error::IllFormedPath(s) => s.clone(),
            Error::InvalidQueryString(s) => s.clone(),
            Error::InvalidOsString(s) => s.clone(),
            Error::NoPathInfo(s) => s.clone(),
            Error::InvalidStorePath(s) => s.clone(),
            Error::InvalidSigningKey(s) => s.clone(),
            Error::InvalidMaxRetry(n) => decimal(*n as u64),
            Error::NixDbFolderNotWritable(s) => concat2(s.as_str(), "' is not writable"),
            Error::Ed25519(e) => String::from_str(e.description()),
            Error::InvalidSigningKeyEnv(s) => s.clone(),
            Error::SignatureMismatch { name, new, exists } => {
                let mut s = concat3(name.as_str(), "': new = '", new.as_str());
                s.append("', exists = '");
                s.append(exists.as_str());
                s.append("'");
                s
            },
        }
    }

    /// The message of this failure, for a person to read.
    pub fn message(&self) -> (s: String)
        ensures
            s@ == self.message_text(),
        decreases self, 1int,
    {
        let d = self.detail();
        concat2(self.prefix(), d.as_str())
    }

    /// The body of the response that answers this failure.
    pub fn response_body(&self) -> (body: String)
        ensures
            body@ == self.response_body_text(),
    {
        let code = self.code();
        match self {
            Error::ReferenceNotFound(_) => String::from_str(NO_SUCH_KEY_RESPONSE_BODY),
            _ => {
                if 400 <= code && code < 500 {
                    self.message()
                } else {
                    match canonical_reason(code) {
                        Some(reason) => reason,
                        None => String::from_str("unknown error"),
                    }
                }
            },
        }
    }
}

} // verus!
