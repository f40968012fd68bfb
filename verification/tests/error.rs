use oranc::codec::{DecodeError, DecodeKind};
use oranc::error::{Error, NO_SUCH_KEY_RESPONSE_BODY};
use oranc::nix::sign::Ed25519Error;
use oranc::registry::OciLocation;

fn location() -> OciLocation {
    OciLocation {
        registry: "ghcr.io".to_string(),
        repository: "owner/cache".to_string(),
        key: "abc.narinfo".to_string(),
    }
}

fn one_of_each() -> Vec<(Error, u16)> {
    let s = || "x".to_string();
    vec![
        (Error::Http(s()), 500),
        (Error::Reqwest(s()), 500),
        (Error::Io(s()), 500),
        (Error::Rusqlite(s()), 500),
        (Error::DuplicatedPathInfo(s()), 500),
        (Error::InvalidSignature(s()), 500),
        (Error::EarlyStop, 500),
        (Error::Join(s()), 500),
        (Error::InvalidNarSize(-1), 500),
        (Error::NarSizeNotMatch(1, 2), 500),
        (Error::RetryAllFails(vec![]), 500),
        (Error::PushFailed, 500),
        (Error::Nar(s()), 500),
        (Error::PathRejection(s()), 500),
        (Error::UpstreamCanNotBeBase(s()), 400),
        (Error::Decode(DecodeError { position: 3, kind: DecodeKind::Symbol }), 400),
        (Error::TagToKey(vec![]), 400),
        (Error::InvalidTag(s()), 400),
        (Error::FromUtf8(vec![0xff]), 400),
        (Error::HeaderToStr(s(), s()), 400),
        (Error::InvalidAuthorization(s()), 400),
        (Error::OciDistribution(s()), 400),
        (Error::InvalidLayerCount(2), 400),
        (Error::InvalidLayerMediaType(s()), 400),
        (Error::NoLayerAnnotations, 400),
        (Error::NoLayerAnnotationKey(s()), 400),
        (Error::ReferenceNotFound(location()), 404),
        (Error::IllFormedPath(s()), 404),
        (Error::InvalidQueryString(s()), 400),
        (Error::InvalidOsString(s()), 400),
        (Error::NoPathInfo(s()), 400),
        (Error::InvalidStorePath(s()), 400),
        (Error::InvalidSigningKey(s()), 400),
        (Error::InvalidMaxRetry(0), 400),
        (Error::NixDbFolderNotWritable(s()), 400),
        (Error::Ed25519(Ed25519Error::SignatureMismatch), 400),
        (Error::InvalidSigningKeyEnv(s()), 400),
        (Error::SignatureMismatch { name: s(), new: s(), exists: s() }, 400),
    ]
}

#[test]
fn error_code_of_every_kind() {
    for (error, code) in one_of_each() {
        assert_eq!(error.code(), code, "{:?}", error);
    }
}

#[test]
fn error_response_body_by_status() {
    for (error, code) in one_of_each() {
        let body = error.response_body();
        if let Error::ReferenceNotFound(_) = error {
            assert_eq!(body, "<Error><Code>NoSuchKey</Code></Error>");
        } else if code == 500 {
            assert_eq!(body, "Internal Server Error", "{:?}", error);
        } else {
            assert_eq!(body, error.message(), "{:?}", error);
        }
    }
    assert_eq!(NO_SUCH_KEY_RESPONSE_BODY, "<Error><Code>NoSuchKey</Code></Error>");
}

#[test]
fn error_messages() {
    assert_eq!(Error::EarlyStop.message(), "early stop");
    assert_eq!(Error::PushFailed.message(), "push failed");
    assert_eq!(Error::NoLayerAnnotations.message(), "lack of layer annotations");
    assert_eq!(Error::InvalidTag("_".to_string()).message(), "invalid tag error: _");
    assert_eq!(Error::InvalidNarSize(-5).message(), "invalid nar size: -5");
    assert_eq!(
        Error::NarSizeNotMatch(10, 12).message(),
        "nar size not match: expected = 10, actual = 12"
    );
    assert_eq!(
        Error::Decode(DecodeError { position: 7, kind: DecodeKind::Length }).message(),
        "decode error: invalid length at 7"
    );
    assert_eq!(
        Error::Decode(DecodeError { position: 0, kind: DecodeKind::Trailing }).message(),
        "decode error: non-zero trailing bits at 0"
    );
    assert_eq!(
        Error::Decode(DecodeError { position: 1, kind: DecodeKind::Padding }).message(),
        "decode error: invalid padding length at 1"
    );
    assert_eq!(Error::InvalidLayerCount(3).message(), "invalid image layer count: 3");
    assert_eq!(Error::InvalidMaxRetry(0).message(), "invalid max retry number: 0");
    assert_eq!(
        Error::ReferenceNotFound(location()).message(),
        "reference not found: ghcr.io/owner/cache/abc.narinfo"
    );
    assert_eq!(
        Error::UpstreamCanNotBeBase("mailto:a@b".to_string()).message(),
        "upstream url 'mailto:a@b' can not be base"
    );
    assert_eq!(
        Error::NixDbFolderNotWritable("/nix/var/nix/db".to_string()).message(),
        "nix db folder '/nix/var/nix/db' is not writable"
    );
    assert_eq!(
        Error::HeaderToStr("authorization".to_string(), "bad".to_string()).message(),
        "failed to convert header authorization to string: bad"
    );
    assert_eq!(
        Error::SignatureMismatch {
            name: "k".to_string(),
            new: "n".to_string(),
            exists: "e".to_string()
        }
        .message(),
        "signature mismatch for key 'k': new = 'n', exists = 'e'"
    );
    assert_eq!(
        Error::Ed25519(Ed25519Error::InvalidSecretKey).message(),
        "ed25519 error: Invalid secret key"
    );
    assert_eq!(
        Error::InvalidSigningKeyEnv("not present".to_string()).message(),
        "unable to read environment variable `ORANC_SIGNING_KEY`: not present"
    );
    assert_eq!(Error::FromUtf8(vec![0xff]).message(), "from utf-8 error: invalid utf-8 sequence");
}

#[test]
fn error_messages_of_lists() {
    assert_eq!(Error::RetryAllFails(vec![]).message(), "retry all fails: []");
    assert_eq!(
        Error::TagToKey(vec![Error::InvalidTag("_".to_string())]).message(),
        "tag-to-key error: [invalid tag error: _]"
    );
    assert_eq!(
        Error::RetryAllFails(vec![
            Error::OciDistribution("a".to_string()),
            Error::TagToKey(vec![Error::EarlyStop, Error::PushFailed]),
            Error::Io("b".to_string()),
        ])
        .message(),
        "retry all fails: [oci distribution error: a, tag-to-key error: [early stop, push failed], io error: b]"
    );
}

#[test]
fn error_descriptions_are_those_of_the_crates() {
    assert_eq!(DecodeKind::Length.description(), data_encoding::DecodeKind::Length.to_string());
    assert_eq!(DecodeKind::Symbol.description(), data_encoding::DecodeKind::Symbol.to_string());
    assert_eq!(DecodeKind::Trailing.description(), data_encoding::DecodeKind::Trailing.to_string());
    assert_eq!(DecodeKind::Padding.description(), data_encoding::DecodeKind::Padding.to_string());
    let pairs = [
        (Ed25519Error::SignatureMismatch, ed25519_compact::Error::SignatureMismatch),
        (Ed25519Error::WeakPublicKey, ed25519_compact::Error::WeakPublicKey),
        (Ed25519Error::InvalidPublicKey, ed25519_compact::Error::InvalidPublicKey),
        (Ed25519Error::InvalidSecretKey, ed25519_compact::Error::InvalidSecretKey),
        (Ed25519Error::InvalidSignature, ed25519_compact::Error::InvalidSignature),
        (Ed25519Error::InvalidSeed, ed25519_compact::Error::InvalidSeed),
        (Ed25519Error::InvalidBlind, ed25519_compact::Error::InvalidBlind),
        (Ed25519Error::InvalidNoise, ed25519_compact::Error::InvalidNoise),
        (Ed25519Error::ParseError, ed25519_compact::Error::ParseError),
        (Ed25519Error::NonCanonical, ed25519_compact::Error::NonCanonical),
    ];
    for (ours, theirs) in pairs {
        assert_eq!(ours.description(), theirs.to_string());
    }
}

#[test]
fn error_is_early_stop() {
    assert!(Error::EarlyStop.is_early_stop());
    assert!(!Error::PushFailed.is_early_stop());
}
