//! The credentials of a request, read off its `Authorization` header.

use crate::codec::{base64_decode, decoded, Alphabet};
use crate::error::Error;
use crate::nix::sign::decodable;
use crate::registry::RegistryAuth;
use crate::text::{
    chars_of, find, has_prefix, lemma_utf8_subrange, occurs, position, slice_between, starts_with,
    string_from_utf8, string_of, tail_from,
};
use vstd::prelude::*;
use vstd::utf8::{decode_utf8, encode_utf8, valid_utf8};

verus! {

/// How a header of basic authentication begins.
pub const BASIC_PREFIX: &'static str = "Basic ";

/// How a header of an AWS signature begins.
pub const AWS_PREFIX: &'static str = "AWS4-HMAC-SHA256 Credential=";

/// The token of `Basic TOKEN`: what follows the prefix, which may not hold a
/// line feed.
pub open spec fn basic_token(header: Seq<char>) -> Option<Seq<char>> {
    let rest = header.skip(BASIC_PREFIX@.len() as int);
    if has_prefix(header, BASIC_PREFIX@) && !occurs(rest, '\n') {
        Some(rest)
    } else {
        None
    }
}

/// The token of `AWS4-HMAC-SHA256 Credential=TOKEN/...`: what stands between
/// the prefix and the first slash. It may not be empty, nor hold a space or
/// a comma; and no line feed may follow the slash.
pub open spec fn aws_token(header: Seq<char>) -> Option<Seq<char>> {
    let rest = header.skip(AWS_PREFIX@.len() as int);
    let slash = position(rest, '/', 0);
    if has_prefix(header, AWS_PREFIX@) && 0 < slash && slash < rest.len() && !occurs(
        rest.take(slash),
        ' ',
    ) && !occurs(rest.take(slash), ',') && !occurs(rest.skip(slash + 1), '\n') {
        Some(rest.take(slash))
    } else {
        None
    }
}

/// The token of a header, in either of the two forms.
pub open spec fn auth_token(header: Seq<char>) -> Option<Seq<char>> {
    match basic_token(header) {
        Some(token) => Some(token),
        None => aws_token(header),
    }
}

/// The token of a header is within the limit of the base64 decoder where
/// the header is.
pub proof fn lemma_token_decodable(header: Seq<char>)
    requires
        decodable(header),
    ensures
        auth_token(header) matches Some(token) ==> decodable(token),
{
    let n = header.len() as int;
    if basic_token(header) is Some {
        let k = BASIC_PREFIX@.len() as int;
        assert(header.skip(k) =~= header.subrange(k, n));
        lemma_utf8_subrange(header, k, n);
    } else if aws_token(header) is Some {
        let k = AWS_PREFIX@.len() as int;
        let rest = header.skip(k);
        let slash = position(rest, '/', 0);
        assert(rest.take(slash) =~= header.subrange(k, k + slash));
        lemma_utf8_subrange(header, k, k + slash);
    }
}

/// The name and the password of `name:password`: what stands before the
/// first colon and after it. Neither may be empty, and the password may not
/// hold a line feed.
pub open spec fn credentials(text: Seq<char>) -> Option<(Seq<char>, Seq<char>)> {
    let colon = position(text, ':', 0);
    let rest = text.skip(colon + 1);
    if 0 < colon && colon < text.len() && rest.len() > 0 && !occurs(rest, '\n') {
        Some((text.take(colon), rest))
    } else {
        None
    }
}

/// Whether `r` is what a header gives. A header in neither form is refused
/// with `InvalidAuthorization`. Its token is read as base64, then as UTF-8,
/// then as `name:password`; each may fail, with the decoder's failure, with
/// `FromUtf8`, and with `InvalidAuthorization`.
pub open spec fn authorized(header: Seq<char>, r: Result<RegistryAuth, Error>) -> bool {
    match auth_token(header) {
        None => r matches Err(Error::InvalidAuthorization(h)) && h@ == header,
        Some(token) => match decoded(Alphabet::Base64, encode_utf8(token)) {
            Err(failure) => r matches Err(e) && e == Error::Decode(failure),
            Ok(bytes) => if !valid_utf8(bytes) {
                r matches Err(Error::FromUtf8(b)) && b@ == bytes
            } else {
                match credentials(decode_utf8(bytes)) {
                    None => r matches Err(Error::InvalidAuthorization(h)) && h@ == header,
                    Some(pair) => r matches Ok(RegistryAuth::Basic(name, password)) && name@
                        == pair.0 && password@ == pair.1,
                }
            },
        },
    }
}

fn token_of(chars: &Vec<char>) -> (r: Option<Vec<char>>)
    ensures
        match auth_token(chars@) {
            Some(token) => r matches Some(t) && t@ == token,
            None => r is None,
        },
{
    let basic = chars_of(BASIC_PREFIX);
    if starts_with(chars, &basic) {
        let rest = tail_from(chars, basic.len());
        if find(&rest, '\n', 0) >= rest.len() {
            return Some(rest);
        }
    }
    let aws = chars_of(AWS_PREFIX);
    if !starts_with(chars, &aws) {
        return None;
    }
    let rest = tail_from(chars, aws.len());
    let slash = find(&rest, '/', 0);
    if slash == 0 || slash >= rest.len() {
        return None;
    }
    let token = slice_between(&rest, 0, slash);
    assert(token@ =~= rest@.take(slash as int));
    if find(&token, ' ', 0) < token.len() || find(&token, ',', 0) < token.len() {
        return None;
    }
    let after = tail_from(&rest, slash + 1);
    if find(&after, '\n', 0) < after.len() {
        return None;
    }
    Some(token)
}

/// Reads the credentials of a request off its `Authorization` header. A
/// request without the header is anonymous.
pub fn parse_authorization(header: Option<&str>) -> (r: Result<RegistryAuth, Error>)
    requires
        header matches Some(h) ==> decodable(h@),
    ensures
        match header {
            None => r == Ok::<RegistryAuth, Error>(RegistryAuth::Anonymous),
            Some(h) => authorized(h@, r),
        },
{
    let s = match header {
        None => {
            return Ok(RegistryAuth::Anonymous);
        },
        Some(s) => s,
    };
    proof {
        lemma_token_decodable(s@);
    }
    let chars = chars_of(s);
    let token = match token_of(&chars) {
        Some(token) => string_of(token.as_slice()),
        None => {
            return Err(Error::InvalidAuthorization(s.to_owned()));
        },
    };
    let bytes = match base64_decode(token.as_str().as_bytes()) {
        Ok(bytes) => bytes,
        Err(failure) => {
            return Err(Error::Decode(failure));
        },
    };
    let text = match string_from_utf8(bytes) {
        Ok(text) => text,
        Err(bytes) => {
            return Err(Error::FromUtf8(bytes));
        },
    };
    let pair = chars_of(text.as_str());
    let colon = find(&pair, ':', 0);
    if colon == 0 || colon >= pair.len() {
        return Err(Error::InvalidAuthorization(s.to_owned()));
    }
    let password = tail_from(&pair, colon + 1);
    if password.len() == 0 || find(&password, '\n', 0) < password.len() {
        return Err(Error::InvalidAuthorization(s.to_owned()));
    }
    let name = slice_between(&pair, 0, colon);
    assert(name@ =~= pair@.take(colon as int));
    Ok(RegistryAuth::Basic(string_of(name.as_slice()), string_of(password.as_slice())))
}

} // verus!
