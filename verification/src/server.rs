//! The gateway: what a request is answered with.

pub mod auth;
pub mod upstream;

use crate::error::Error;
use crate::registry::LayerInfo;
use vstd::prelude::*;

verus! {

/// The body of the answer to `GET /`.
pub const ROOT_RESPONSE_BODY: &'static str = "oranc: OCI Registry As Nix Cache";

/// The body of the answer to a successful `PUT`, as S3 clients expect it.
pub const OK_RESPONSE_BODY: &'static str = "<_/>";

/// The body of a reply.
#[derive(Debug, Clone, PartialEq, Eq)]
pub enum ReplyBody {
    /// No body.
    Empty,
    /// These characters.
    Text(String),
    /// The blob of this digest, streamed from the registry as it comes.
    Blob(String),
}

/// What a request is answered with.
#[derive(Debug, Clone, PartialEq, Eq)]
pub struct Reply {
    pub status: u16,
    pub content_type: Option<String>,
    /// Where to go instead, for a redirect.
    pub location: Option<String>,
    pub body: ReplyBody,
}

/// The answer to a failure: its status, and its body.
pub fn error_reply(error: &Error) -> (reply: Reply)
    ensures
        reply.status == error.status(),
        reply.content_type is None,
        reply.location is None,
        reply.body matches ReplyBody::Text(body) && body@ == error.response_body_text(),
{
    Reply {
        status: error.code(),
        content_type: None,
        location: None,
        body: ReplyBody::Text(error.response_body()),
    }
}

/// The answer to `GET` of an object that the registry has: the blob of the
/// layer, streamed, with the content type of the layer. Where the registry
/// has no image for the object, the answer is the failure
/// `ReferenceNotFound`.
pub fn get_key(location: &crate::registry::OciLocation, info: Option<LayerInfo>) -> (r: Result<
    Reply,
    Error,
>)
    ensures
        match info {
            Some(layer) => r == Ok::<Reply, Error>(
                Reply {
                    status: 200,
                    content_type: Some(layer.content_type),
                    location: None,
                    body: ReplyBody::Blob(layer.digest),
                },
            ),
            None => r == Err::<Reply, Error>(Error::ReferenceNotFound(*location)),
        },
{
    match info {
        Some(layer) => Ok(
            Reply {
                status: 200,
                content_type: Some(layer.content_type),
                location: None,
                body: ReplyBody::Blob(layer.digest),
            },
        ),
        None => Err(
            Error::ReferenceNotFound(
                crate::registry::OciLocation {
                    registry: location.registry.clone(),
                    repository: location.repository.clone(),
                    key: location.key.clone(),
                },
            ),
        ),
    }
}

/// The answer to `HEAD` of an object that the registry has: as for `GET`,
/// but without a body.
pub fn head_key(location: &crate::registry::OciLocation, info: Option<LayerInfo>) -> (r: Result<
    Reply,
    Error,
>)
    ensures
        match info {
            Some(layer) => r == Ok::<Reply, Error>(
                Reply {
                    status: 200,
                    content_type: Some(layer.content_type),
                    location: None,
                    body: ReplyBody::Empty,
                },
            ),
            None => r == Err::<Reply, Error>(Error::ReferenceNotFound(*location)),
        },
{
    match info {
        Some(layer) => Ok(
            Reply {
                status: 200,
                content_type: Some(layer.content_type),
                location: None,
                body: ReplyBody::Empty,
            },
        ),
        None => Err(
            Error::ReferenceNotFound(
                crate::registry::OciLocation {
                    registry: location.registry.clone(),
                    repository: location.repository.clone(),
                    key: location.key.clone(),
                },
            ),
        ),
    }
}

/// The answer to a `PUT` that went through.
pub fn put_key() -> (reply: Reply)
    ensures
        reply.status == 200,
        reply.content_type is None,
        reply.location is None,
        reply.body matches ReplyBody::Text(body) && body@ == OK_RESPONSE_BODY@,
{
    Reply {
        status: 200,
        content_type: None,
        location: None,
        body: ReplyBody::Text(OK_RESPONSE_BODY.to_owned()),
    }
}

} // verus!
