//! Upstream caches: whether to ask them, and what to make of their answers.
//!
//! An object that an upstream cache has need not be fetched from the
//! registry: the client is sent there. The upstreams are asked in their
//! order, each with a `HEAD` request that may be repeated.

use crate::error::Error;
use crate::options::ServerOptions;
use crate::pattern::regex_matches;
use crate::registry::RegistryAuth;
use crate::server::{Reply, ReplyBody};
use vstd::prelude::*;
use vstd::utf8::encode_utf8;

verus! {

/// Why a URL could not be extended by a segment.
#[derive(Debug, Clone, Copy, PartialEq, Eq, Structural)]
pub enum UrlError {
    /// The text is no URL.
    Invalid,
    /// The URL cannot be a base: it has no path to extend.
    CannotBeBase,
}

/// The URL that the `url` crate makes of a base URL and one more segment of
/// its path, or why it makes none.
pub uninterp spec fn extended_url(base: Seq<char>, segment: Seq<char>) -> Result<
    Seq<char>,
    UrlError,
>;

/// The outcome of extending a URL, by the view of the text.
pub open spec fn url_outcome(r: Result<String, UrlError>) -> Result<Seq<char>, UrlError> {
    match r {
        Ok(url) => Ok(url@),
        Err(e) => Err(e),
    }
}

/// The URL that the `url` crate writes for a text, if the text is a URL.
pub uninterp spec fn url_text(text: Seq<char>) -> Option<Seq<char>>;

/// Reads a text as a URL and writes the URL out.
///
/// Calls `reqwest::Url::parse`, which gives a URL or refuses the text, and
/// turns the URL into its text. The result is named `url_text`.
#[verifier::external_body]
pub(crate) fn normalize_url(text: &str) -> (r: Option<String>)
    ensures
        crate::error::optional_text(r) == url_text(text@),
{
    match reqwest::Url::parse(text) {
        Ok(url) => Some(url.into()),
        Err(_) => None,
    }
}

/// The length up to which the `url` crate keeps a URL: it counts the bytes
/// of a URL in 32 bits.
pub open spec fn url_limit() -> int {
    u32::MAX as int
}

/// Whether a base URL can take one more segment within the limit on the
/// length of a URL: the URL as the crate writes it, a slash, and the
/// segment, of which each byte may take three where it is written.
pub open spec fn extendable(base: Seq<char>, segment: Seq<char>) -> bool {
    match url_text(base) {
        Some(url) => encode_utf8(url).len() + 3 * encode_utf8(segment).len() + 1 <= url_limit(),
        None => true,
    }
}

/// Appends a segment to the path of a URL.
///
/// Calls `reqwest::Url::parse`, `path_segments_mut` and `push`, and writes
/// the URL out again. The result is named `extended_url`: the new URL, or
/// which of the first two calls refused. A base and a segment that together
/// go beyond the limit on the length of a URL are left out: the crate
/// panics where the new length does not fit in 32 bits.
#[verifier::external_body]
pub(crate) fn extend_url(base: &str, segment: &str) -> (r: Result<String, UrlError>)
    requires
        extendable(base@, segment@),
    ensures
        url_outcome(r) == extended_url(base@, segment@),
{
    let mut url = match reqwest::Url::parse(base) {
        Ok(url) => url,
        Err(_) => return Err(UrlError::Invalid),
    };
    match url.path_segments_mut() {
        Ok(mut segments) => {
            segments.push(segment);
        },
        Err(()) => return Err(UrlError::CannotBeBase),
    }
    Ok(url.into())
}

/// Tells whether a base URL can take one more segment within the limit on
/// the length of a URL.
pub fn can_extend(base: &str, segment: &str) -> (b: bool)
    ensures
        b == extendable(base@, segment@),
{
    match normalize_url(base) {
        None => true,
        Some(url) => {
            let url_len = url.as_str().as_bytes().len();
            let segment_len = segment.as_bytes().len();
            let limit: usize = 0xffff_ffff;
            url_len < limit && segment_len <= (limit - 1 - url_len) / 3
        },
    }
}

/// The URL of an object at an upstream cache: the base URL of the cache
/// with the key as one more segment of its path. Fails with
/// `UpstreamCanNotBeBase` where the base cannot be extended.
pub fn upstream_url(base: &str, key: &str) -> (r: Result<String, Error>)
    requires
        extendable(base@, key@),
    ensures
        match extended_url(base@, key@) {
            Ok(url) => r matches Ok(u) && u@ == url,
            Err(_) => r matches Err(Error::UpstreamCanNotBeBase(b)) && b@ == base@,
        },
{
    match extend_url(base, key) {
        Ok(url) => Ok(url),
        Err(_) => Err(Error::UpstreamCanNotBeBase(base.to_owned())),
    }
}

/// Whether `r` is the URL of an object at an upstream cache, or the failure
/// `UpstreamCanNotBeBase`: for a base that cannot be extended, and for a
/// base that would go beyond the limit on the length of a URL with the key.
pub open spec fn upstream_found(base: Seq<char>, key: Seq<char>, r: Result<String, Error>) -> bool {
    if !extendable(base, key) {
        r matches Err(Error::UpstreamCanNotBeBase(b)) && b@ == base
    } else {
        match extended_url(base, key) {
            Ok(url) => r matches Ok(u) && u@ == url,
            Err(_) => r matches Err(Error::UpstreamCanNotBeBase(b)) && b@ == base,
        }
    }
}

/// The URL of an object at an upstream cache, for any base and any key: as
/// `upstream_url` gives it where the two are within the limit on the length
/// of a URL, and the failure `UpstreamCanNotBeBase` where they are not.
pub fn checked_upstream_url(base: &str, key: &str) -> (r: Result<String, Error>)
    ensures
        upstream_found(base@, key@, r),
{
    if can_extend(base, key) {
        upstream_url(base, key)
    } else {
        Err(Error::UpstreamCanNotBeBase(base.to_owned()))
    }
}

/// The answer that sends the client to an upstream cache.
pub fn redirect_response(url: String) -> (reply: Reply)
    ensures
        reply == (Reply {
            status: 302,
            content_type: None,
            location: Some(url),
            body: ReplyBody::Empty,
        }),
{
    Reply { status: 302, content_type: None, location: Some(url), body: ReplyBody::Empty }
}

/// A probe under way: the upstreams to ask, and how far the asking has come.
#[derive(Debug)]
pub struct UpstreamProbe {
    /// The base URLs of the upstreams, in the order to ask them.
    pub upstreams: Vec<String>,
    /// The key of the object.
    pub key: String,
    /// How often each upstream is asked at most.
    pub tries: usize,
    /// The index of the upstream that is being asked.
    pub current: usize,
    /// How often it has been asked.
    pub attempts: usize,
    /// The URL of the object at that upstream.
    pub url: String,
}

/// What a probe asks for next, or how it ended.
#[derive(Debug)]
pub enum Probe {
    /// Send a `HEAD` request to the URL of the probe, and report the status
    /// of the answer.
    Head(UpstreamProbe),
    /// The probe is over: the URL to send the client to, or none.
    Done(Option<String>),
}

/// Whether `r` is how a probe goes on with the upstream of index `i`, and
/// with those after it: the first of them that can be asked is asked. An
/// upstream whose URL cannot be extended, or would go beyond the limit on
/// the length of a URL with the key, ends the probe with
/// `UpstreamCanNotBeBase`. Where no tries are allowed, none is asked. After
/// the last upstream the probe ends without a URL.
pub open spec fn enters(
    upstreams: Vec<String>,
    key: String,
    tries: usize,
    i: int,
    r: Result<Probe, Error>,
) -> bool
    decreases upstreams@.len() - i,
{
    if i < 0 || i >= upstreams@.len() {
        r == Ok::<Probe, Error>(Probe::Done(None))
    } else if !extendable(upstreams@[i]@, key@) {
        r matches Err(Error::UpstreamCanNotBeBase(b)) && b@ == upstreams@[i]@
    } else {
        match extended_url(upstreams@[i]@, key@) {
            Err(_) => r matches Err(Error::UpstreamCanNotBeBase(b)) && b@ == upstreams@[i]@,
            Ok(url) => if tries == 0 {
                enters(upstreams, key, tries, i + 1, r)
            } else {
                &&& r matches Ok(Probe::Head(state))
                &&& state.upstreams == upstreams
                &&& state.key == key
                &&& state.tries == tries
                &&& state.current == i
                &&& state.attempts == 0
                &&& state.url@ == url
            },
        }
    }
}

fn enter(upstreams: Vec<String>, key: String, tries: usize, from: usize) -> (r: Result<
    Probe,
    Error,
>)
    requires
        from <= upstreams@.len(),
    ensures
        enters(upstreams, key, tries, from as int, r),
        r matches Ok(Probe::Head(state)) ==> state.wf(),
{
    let mut i: usize = from;
    while i < upstreams.len()
        invariant
            from <= i <= upstreams@.len(),
            forall|r: Result<Probe, Error>|
                enters(upstreams, key, tries, i as int, r) ==> #[trigger] enters(
                    upstreams,
                    key,
                    tries,
                    from as int,
                    r,
                ),
        decreases upstreams@.len() - i,
    {
        let url = match checked_upstream_url(upstreams[i].as_str(), key.as_str()) {
            Ok(url) => url,
            Err(e) => {
                return Err(e);
            },
        };
        if tries > 0 {
            return Ok(
                Probe::Head(UpstreamProbe { upstreams, key, tries, current: i, attempts: 0, url }),
            );
        }
        i += 1;
    }
    Ok(Probe::Done(None))
}

/// Decides whether upstream caches are asked for an object, and begins the
/// asking.
///
/// A cap below 1 on the tries is refused with `InvalidMaxRetry`. No
/// upstream is asked for a client without credentials, unless that is
/// switched on; nor for a key that matches the pattern of keys to ignore.
pub fn check(options: &ServerOptions, key: &str, auth: &RegistryAuth) -> (r: Result<Probe, Error>)
    ensures
        r matches Ok(Probe::Head(state)) ==> state.wf(),
        options.max_retry < 1 ==> r == Err::<Probe, Error>(
            Error::InvalidMaxRetry(options.max_retry),
        ),
        options.max_retry >= 1 && ((auth is Anonymous && !options.upstream_anonymous)
            || regex_matches(options.ignore_upstream.source_text(), key@)) ==> r == Ok::<
            Probe,
            Error,
        >(Probe::Done(None)),
        options.max_retry >= 1 && !(auth is Anonymous && !options.upstream_anonymous)
            && !regex_matches(options.ignore_upstream.source_text(), key@) ==> exists|
            upstreams: Vec<String>,
            owned: String,
        |
            {
                &&& crate::text::views(upstreams@) == crate::text::views(options.upstream@)
                &&& owned@ == key@
                &&& #[trigger] enters(upstreams, owned, (options.max_retry - 1) as usize, 0, r)
            },
{
    let max_retry = options.max_retry;
    if max_retry < 1 {
        return Err(Error::InvalidMaxRetry(max_retry));
    }
    match auth {
        RegistryAuth::Anonymous => {
            if !options.upstream_anonymous {
                return Ok(Probe::Done(None));
            }
        },
        _ => {},
    }
    if options.ignore_upstream.is_match(key) {
        return Ok(Probe::Done(None));
    }
    let mut upstreams: Vec<String> = Vec::new();
    let mut i: usize = 0;
    while i < options.upstream.len()
        invariant
            i <= options.upstream.len(),
            upstreams@ == options.upstream@.take(i as int),
        decreases options.upstream.len() - i,
    {
        upstreams.push(options.upstream[i].clone());
        assert(options.upstream@.take(i + 1) =~= options.upstream@.take(i as int).push(
            options.upstream@[i as int],
        ));
        i += 1;
    }
    assert(options.upstream@.take(options.upstream.len() as int) =~= options.upstream@);
    let owned = key.to_owned();
    let r = enter(upstreams, owned, max_retry - 1, 0);
    assert(enters(upstreams, owned, (options.max_retry - 1) as usize, 0, r));
    r
}

impl UpstreamProbe {
    /// A probe under way has an upstream to ask, and tries left for it.
    pub open spec fn wf(self) -> bool {
        self.current < self.upstreams@.len() && self.attempts < self.tries
    }

    /// Goes on with the status of an upstream's answer. With 200 the probe
    /// ends, and the client is sent to the URL that was asked. With 404 the
    /// next upstream is asked. Any other status has the same upstream asked
    /// again, while it has tries left, and the next one otherwise.
    pub fn answered(self, status: u16) -> (r: Result<Probe, Error>)
        requires
            self.wf(),
        ensures
            r matches Ok(Probe::Head(next)) ==> next.wf(),
            status == 200 ==> r == Ok::<Probe, Error>(Probe::Done(Some(self.url))),
            status == 404 || (status != 200 && self.attempts + 1 >= self.tries) ==> enters(
                self.upstreams,
                self.key,
                self.tries,
                self.current + 1,
                r,
            ),
            status != 200 && status != 404 && self.attempts + 1 < self.tries ==> r == Ok::<
                Probe,
                Error,
            >(
                Probe::Head(
                    UpstreamProbe {
                        upstreams: self.upstreams,
                        key: self.key,
                        tries: self.tries,
                        current: self.current,
                        attempts: (self.attempts + 1) as usize,
                        url: self.url,
                    },
                ),
            ),
    {
        let total = self.upstreams.len();
        if status == 200 {
            Ok(Probe::Done(Some(self.url)))
        } else if status == 404 || self.attempts + 1 >= self.tries {
            let next = if self.current < total {
                self.current + 1
            } else {
                total
            };
            enter(self.upstreams, self.key, self.tries, next)
        } else {
            Ok(
                Probe::Head(
                    UpstreamProbe {
                        upstreams: self.upstreams,
                        key: self.key,
                        tries: self.tries,
                        current: self.current,
                        attempts: self.attempts + 1,
                        url: self.url,
                    },
                ),
            )
        }
    }
}

} // verus!
