//! Cache objects as single-layer images of an OCI registry.
//!
//! An object is stored as an image with one layer, under the tag that its
//! key is written as. What is sent to the registry and received from it is
//! not done here: the functions of this module say what to send, and decide
//! on what came back.

use crate::convert::EncodingOptions;
use crate::error::Error;
use crate::options::{PushOptions, ServerOptions};
use crate::text::{concat3, same_text};
use vstd::prelude::*;
use vstd::string::StringExecFns;
use vstd::utf8::encode_utf8;

verus! {

/// The media type of the one layer of an image.
pub const LAYER_MEDIA_TYPE: &'static str = "application/octet-stream";

/// The annotation of the layer that holds the content type of the object.
pub const CONTENT_TYPE_ANNOTATION: &'static str = "com.linyinfeng.oranc.content.type";

/// The annotation of the image that holds the key of the object.
pub const KEY_ANNOTATION: &'static str = "com.linyinfeng.oranc.key";

/// The annotation of the image that describes it.
pub const DESCRIPTION_ANNOTATION: &'static str = "org.opencontainers.image.description";

/// How the registry is spoken to.
#[derive(Debug, Clone)]
pub struct RegistryOptions {
    pub no_ssl: bool,
    pub dry_run: bool,
    pub max_retry: usize,
    pub encoding_options: EncodingOptions,
}

/// The protocol of the requests to the registry.
#[derive(Debug, Clone, Copy, PartialEq, Eq, Structural)]
pub enum ClientProtocol {
    Http,
    Https,
}

/// The credentials that a request to the registry bears.
#[derive(Debug, Clone, PartialEq, Eq)]
pub enum RegistryAuth {
    Anonymous,
    Basic(String, String),
}

/// Where a cache object lives: a registry host, a repository path and a key.
#[derive(Debug, Clone, PartialEq, Eq)]
pub struct OciLocation {
    pub registry: String,
    pub repository: String,
    pub key: String,
}

/// A cache object as it is written: its content type, if known, and its bytes.
#[derive(Debug, Clone, PartialEq, Eq)]
pub struct OciItem {
    pub content_type: Option<String>,
    pub data: Vec<u8>,
}

/// A reference to an image by its tag.
#[derive(Debug, Clone, PartialEq, Eq)]
pub struct ImageReference {
    pub registry: String,
    pub repository: String,
    pub tag: String,
}

impl View for ImageReference {
    type V = (Seq<char>, Seq<char>, Seq<char>);

    open spec fn view(&self) -> (Seq<char>, Seq<char>, Seq<char>) {
        (self.registry@, self.repository@, self.tag@)
    }
}

/// What a manifest tells of the one layer of an image.
#[derive(Debug, Clone, PartialEq, Eq)]
pub struct LayerInfo {
    pub reference: ImageReference,
    pub digest: String,
    pub content_type: String,
}

/// A layer as a manifest describes it.
#[derive(Debug, Clone, PartialEq, Eq)]
pub struct LayerDescriptor {
    pub media_type: String,
    pub digest: String,
    /// The annotations, each key once.
    pub annotations: Option<Vec<(String, String)>>,
}

impl RegistryOptions {
    /// The settings of the pusher that concern the registry.
    pub fn from_push_options(options: &PushOptions) -> (r: Self)
        ensures
            r.dry_run == options.dry_run,
            r.max_retry == options.max_retry,
            r.no_ssl == options.no_ssl,
            r.encoding_options.tag_encoding == options.encoding_options.tag_encoding,
            r.encoding_options.fallback_encodings@ == options.encoding_options.fallback_encodings@,
    {
        Self {
            dry_run: options.dry_run,
            max_retry: options.max_retry,
            no_ssl: options.no_ssl,
            encoding_options: EncodingOptions {
                tag_encoding: options.encoding_options.tag_encoding,
                fallback_encodings: options.encoding_options.fallback_encodings.clone(),
            },
        }
    }

    /// The settings of the gateway that concern the registry. The gateway
    /// never runs dry.
    pub fn from_server_options(options: &ServerOptions) -> (r: Self)
        ensures
            !r.dry_run,
            r.max_retry == options.max_retry,
            r.no_ssl == options.no_ssl,
            r.encoding_options.tag_encoding == options.encoding_options.tag_encoding,
            r.encoding_options.fallback_encodings@ == options.encoding_options.fallback_encodings@,
    {
        Self {
            dry_run: false,
            max_retry: options.max_retry,
            no_ssl: options.no_ssl,
            encoding_options: EncodingOptions {
                tag_encoding: options.encoding_options.tag_encoding,
                fallback_encodings: options.encoding_options.fallback_encodings.clone(),
            },
        }
    }

    /// The protocol to speak: plain HTTP where SSL is switched off.
    pub fn client_config(&self) -> (protocol: ClientProtocol)
        ensures
            protocol == (if self.no_ssl {
                ClientProtocol::Http
            } else {
                ClientProtocol::Https
            }),
    {
        if self.no_ssl {
            ClientProtocol::Http
        } else {
            ClientProtocol::Https
        }
    }

    /// How often a request is tried: once less than `max_retry` says.
    pub open spec fn tries(self) -> int {
        self.max_retry - 1
    }
}

impl OciLocation {
    /// The location of a request for `/{registry}/{repo1}/{repo2}/{key}`: the
    /// repository is the two parts with a slash between them.
    pub fn from_params(registry: String, repo1: &str, repo2: &str, key: String) -> (location:
        OciLocation)
        ensures
            location.registry == registry,
            location.repository@ == repo1@ + "/"@ + repo2@,
            location.key == key,
    {
        OciLocation { registry, repository: concat3(repo1, "/", repo2), key }
    }

    /// Tells whether two locations are the same: in the registry, in the
    /// repository, and in the key.
    pub fn same(&self, other: &OciLocation) -> (b: bool)
        ensures
            b == (self.registry@ == other.registry@ && self.repository@ == other.repository@
                && self.key@ == other.key@),
    {
        self.registry == other.registry && self.repository == other.repository && self.key
            == other.key
    }

    /// The location written as `registry/repository/key`.
    pub open spec fn display_text(self) -> Seq<char> {
        self.registry@ + "/"@ + self.repository@ + "/"@ + self.key@
    }

    /// Writes the location as `registry/repository/key`.
    pub fn to_text(&self) -> (s: String)
        ensures
            s@ == self.display_text(),
    {
        let mut s = concat3(self.registry.as_str(), "/", self.repository.as_str());
        s.append("/");
        s.append(self.key.as_str());
        s
    }

    /// Whether the key is within the limit of every encoder.
    pub open spec fn encodable(self, encoding_options: EncodingOptions) -> bool {
        encoding_options.takes_key(encode_utf8(self.key@).len() as int)
    }

    /// The reference of the `i`-th encoding: the registry, the repository,
    /// and the key as that encoding writes it.
    pub open spec fn reference_at(self, encoding_options: EncodingOptions, i: int) -> (
        Seq<char>,
        Seq<char>,
        Seq<char>,
    ) {
        (self.registry@, self.repository@, encoding_options.encodings()[i].tag_of(self.key@))
    }

    fn build_ref(&self, tag: String) -> (r: ImageReference)
        ensures
            r@ == (self.registry@, self.repository@, tag@),
    {
        ImageReference {
            registry: self.registry.clone(),
            repository: self.repository.clone(),
            tag,
        }
    }

    /// The reference under the primary tag, and those under the fallback
    /// tags, in the order of the fallback encodings.
    pub fn reference(&self, encoding_options: &EncodingOptions) -> (r: (
        ImageReference,
        Vec<ImageReference>,
    ))
        requires
            self.encodable(*encoding_options),
        ensures
            r.0@ == self.reference_at(*encoding_options, 0),
            r.1@.len() == encoding_options.fallback_encodings@.len(),
            forall|i: int|
                0 <= i < r.1@.len() ==> (#[trigger] r.1@[i])@ == self.reference_at(
                    *encoding_options,
                    i + 1,
                ),
    {
        let (main_tag, mut fallback_tags) = encoding_options.key_to_tag(self.key.as_str());
        let main = self.build_ref(main_tag);
        let ghost tags = fallback_tags@;
        let mut fallback_refs: Vec<ImageReference> = Vec::new();
        let total = fallback_tags.len();
        let mut i: usize = 0;
        while i < total
            invariant
                i <= total,
                total == tags.len(),
                fallback_tags@.len() == total - i,
                forall|k: int| 0 <= k < total - i ==> fallback_tags@[k] == tags[i + k],
                fallback_refs@.len() == i,
                forall|k: int|
                    0 <= k < i ==> (#[trigger] fallback_refs@[k])@ == (
                        self.registry@,
                        self.repository@,
                        tags[k]@,
                    ),
            decreases total - i,
        {
            let tag = fallback_tags.remove(0);
            fallback_refs.push(self.build_ref(tag));
            i += 1;
        }
        assert forall|i: int| 0 <= i < fallback_refs@.len() implies (#[trigger] fallback_refs@[i])@
            == self.reference_at(*encoding_options, i + 1) by {
            assert(encoding_options.encodings()[i + 1] == encoding_options.fallback_encodings@[i]);
        }
        (main, fallback_refs)
    }

    /// The references to look the object up under: the primary one first,
    /// then the fallbacks in their order.
    pub fn references_merged(&self, encoding_options: &EncodingOptions) -> (r: Vec<ImageReference>)
        requires
            self.encodable(*encoding_options),
        ensures
            r@.len() == encoding_options.encodings().len(),
            forall|i: int|
                0 <= i < r@.len() ==> (#[trigger] r@[i])@ == self.reference_at(*encoding_options, i),
    {
        let (main, mut fallbacks) = self.reference(encoding_options);
        let ghost rest = fallbacks@;
        let mut result: Vec<ImageReference> = Vec::new();
        result.push(main);
        result.append(&mut fallbacks);
        assert forall|i: int| 0 <= i < result@.len() implies (#[trigger] result@[i])@
            == self.reference_at(*encoding_options, i) by {
            if i > 0 {
                assert(result@[i] == rest[i - 1]);
            }
        }
        result
    }
}

/// The code of an error that a registry reports.
#[derive(Debug, Clone, PartialEq, Eq)]
pub enum OciErrorCode {
    BlobUnknown,
    BlobUploadInvalid,
    BlobUploadUnknown,
    DigestInvalid,
    ManifestBlobUnknown,
    ManifestInvalid,
    ManifestUnknown,
    ManifestUnverified,
    NameInvalid,
    NameUnknown,
    NotFound,
    SizeInvalid,
    TagInvalid,
    Unauthorized,
    Denied,
    Unsupported,
    Toomanyrequests,
    Other(String),
}

/// Why a manifest could not be pulled, with the client's own description.
#[derive(Debug, Clone, PartialEq, Eq)]
pub enum PullFailure {
    /// The client found no manifest.
    ImageManifestNotFound(String),
    /// The registry answered with errors of these codes.
    Registry { codes: Vec<OciErrorCode>, description: String },
    /// Anything else.
    Other(String),
}

impl PullFailure {
    /// Whether the failure says that there is no image under the reference:
    /// no manifest was found, or every error that the registry reported is
    /// `ManifestUnknown`.
    pub open spec fn not_found(self) -> bool {
        match self {
            PullFailure::ImageManifestNotFound(_) => true,
            PullFailure::Registry { codes, .. } => forall|i: int|
                0 <= i < codes@.len() ==> #[trigger] codes@[i] is ManifestUnknown,
            PullFailure::Other(_) => false,
        }
    }

    /// The client's description of the failure.
    pub open spec fn description(self) -> String {
        match self {
            PullFailure::ImageManifestNotFound(description) => description,
            PullFailure::Registry { description, .. } => description,
            PullFailure::Other(description) => description,
        }
    }

    /// Tells whether the failure says that there is no image under the
    /// reference.
    #[verifier::loop_isolation(false)]
    pub fn is_not_found(&self) -> (b: bool)
        ensures
            b == self.not_found(),
    {
        match self {
            PullFailure::ImageManifestNotFound(_) => true,
            PullFailure::Registry { codes, .. } => {
                let mut i: usize = 0;
                while i < codes.len()
                    invariant
                        i <= codes.len(),
                        forall|k: int| 0 <= k < i ==> #[trigger] codes@[k] is ManifestUnknown,
                    decreases codes.len() - i,
                {
                    match &codes[i] {
                        OciErrorCode::ManifestUnknown => {},
                        _ => {
                            return false;
                        },
                    }
                    i += 1;
                }
                true
            },
            PullFailure::Other(_) => false,
        }
    }

    /// The failure as an error of the cache.
    pub fn into_error(self) -> (e: Error)
        ensures
            e == Error::OciDistribution(self.description()),
    {
        match self {
            PullFailure::ImageManifestNotFound(description) => Error::OciDistribution(description),
            PullFailure::Registry { description, .. } => Error::OciDistribution(description),
            PullFailure::Other(description) => Error::OciDistribution(description),
        }
    }
}

/// The index of the first annotation, from index `from` on, with the given
/// key.
pub open spec fn first_with_key(pairs: Seq<(String, String)>, key: Seq<char>, from: int) -> Option<
    int,
>
    decreases pairs.len() - from,
{
    if from < 0 || from >= pairs.len() {
        None
    } else if pairs[from].0@ == key {
        Some(from)
    } else {
        first_with_key(pairs, key, from + 1)
    }
}

/// Whether `r` is what the layers of a manifest give: the digest and the
/// content type of the one layer, or the reason why the manifest is not that
/// of a cache object. There must be one layer; its media type must be that
/// of cache objects; it must have annotations; the content type must be
/// among them.
pub open spec fn layer_checked(
    reference: ImageReference,
    layers: Seq<LayerDescriptor>,
    r: Result<LayerInfo, Error>,
) -> bool {
    if layers.len() != 1 {
        r == Err::<LayerInfo, Error>(Error::InvalidLayerCount(layers.len() as usize))
    } else if layers[0].media_type@ != LAYER_MEDIA_TYPE@ {
        r matches Err(Error::InvalidLayerMediaType(m)) && m@ == layers[0].media_type@
    } else {
        match layers[0].annotations {
            None => r == Err::<LayerInfo, Error>(Error::NoLayerAnnotations),
            Some(pairs) => match first_with_key(pairs@, CONTENT_TYPE_ANNOTATION@, 0) {
                None => r matches Err(Error::NoLayerAnnotationKey(k)) && k@
                    == CONTENT_TYPE_ANNOTATION@,
                Some(i) => {
                    &&& r matches Ok(info)
                    &&& info.reference == reference
                    &&& info.digest@ == layers[0].digest@
                    &&& info.content_type@ == pairs@[i].1@
                },
            },
        }
    }
}

/// Reads the digest and the content type of a cache object off the layers of
/// its manifest.
#[verifier::loop_isolation(false)]
pub fn layer_info(reference: ImageReference, layers: &Vec<LayerDescriptor>) -> (r: Result<
    LayerInfo,
    Error,
>)
    ensures
        layer_checked(reference, layers@, r),
{
    if layers.len() != 1 {
        return Err(Error::InvalidLayerCount(layers.len()));
    }
    let layer = &layers[0];
    if !same_text(layer.media_type.as_str(), LAYER_MEDIA_TYPE) {
        return Err(Error::InvalidLayerMediaType(layer.media_type.clone()));
    }
    let pairs = match &layer.annotations {
        Some(pairs) => pairs,
        None => {
            return Err(Error::NoLayerAnnotations);
        },
    };
    let mut i: usize = 0;
    while i < pairs.len()
        invariant
            i <= pairs.len(),
            first_with_key(pairs@, CONTENT_TYPE_ANNOTATION@, 0) == first_with_key(
                pairs@,
                CONTENT_TYPE_ANNOTATION@,
                i as int,
            ),
        decreases pairs.len() - i,
    {
        if same_text(pairs[i].0.as_str(), CONTENT_TYPE_ANNOTATION) {
            return Ok(
                LayerInfo {
                    reference,
                    digest: layer.digest.clone(),
                    content_type: pairs[i].1.clone(),
                },
            );
        }
        i += 1;
    }
    Err(Error::NoLayerAnnotationKey(CONTENT_TYPE_ANNOTATION.to_owned()))
}

/// A lookup under way: the references to try, in their order, and what has
/// come of them so far.
#[derive(Debug)]
pub struct LayerLookup {
    /// The primary reference, then the fallbacks.
    pub references: Vec<ImageReference>,
    /// How often each reference is tried at most.
    pub tries: usize,
    /// The index of the reference that is being tried.
    pub current: usize,
    /// How often it has been tried.
    pub attempts: usize,
    /// The failures of those tries.
    pub ref_errors: Vec<Error>,
    /// The failures of the references that ran out of tries.
    pub errors: Vec<Error>,
    /// Whether a reference ran out of tries.
    pub exhausted: bool,
}

/// What a lookup asks for next, or how it ended.
#[derive(Debug)]
pub enum Lookup {
    /// Pull the manifest of the current reference, and report what came.
    Pull(LayerLookup),
    /// The lookup is over: the layer, `None` where no reference has an
    /// image, or the failure.
    Done(Result<Option<LayerInfo>, Error>),
}

impl LayerLookup {
    /// A lookup under way has a reference to try, and tries left for it.
    pub open spec fn wf(self) -> bool {
        self.current < self.references@.len() && self.attempts < self.tries
    }

    /// Whether `r` is how the lookup goes on once the current reference is
    /// done with: with the next reference, if there is one; else it ends,
    /// in `None` where no reference ran out of tries, and in `RetryAllFails`
    /// with the failures otherwise.
    pub open spec fn leaves(self, exhausted: bool, errors: Seq<Error>, r: Lookup) -> bool {
        if self.current + 1 < self.references@.len() {
            &&& r matches Lookup::Pull(next)
            &&& next.references == self.references
            &&& next.tries == self.tries
            &&& next.current == self.current + 1
            &&& next.attempts == 0
            &&& next.ref_errors@.len() == 0
            &&& next.errors@ == errors
            &&& next.exhausted == exhausted
        } else if exhausted {
            r matches Lookup::Done(Err(Error::RetryAllFails(e))) && e@ == errors
        } else {
            r == Lookup::Done(Ok(None))
        }
    }

    /// Whether `r` is how the lookup goes on after a failed try that says
    /// nothing of whether the image is there: the failure is kept; the same
    /// reference is tried again while tries are left; else the reference is
    /// done with, and its failures count.
    pub open spec fn retries(self, e: Error, r: Lookup) -> bool {
        if self.attempts + 1 < self.tries {
            &&& r matches Lookup::Pull(next)
            &&& next.references == self.references
            &&& next.tries == self.tries
            &&& next.current == self.current
            &&& next.attempts == self.attempts + 1
            &&& next.ref_errors@ == self.ref_errors@.push(e)
            &&& next.errors@ == self.errors@
            &&& next.exhausted == self.exhausted
        } else {
            self.leaves(true, self.errors@ + self.ref_errors@.push(e), r)
        }
    }

    /// The reference to pull the manifest of.
    pub fn reference(&self) -> (r: &ImageReference)
        requires
            self.wf(),
        ensures
            *r == self.references@[self.current as int],
    {
        &self.references[self.current]
    }

    fn leave(self, exhausted: bool, errors: Vec<Error>) -> (r: Lookup)
        requires
            self.wf(),
        ensures
            self.leaves(exhausted, errors@, r),
    {
        if self.current < self.references.len() - 1 {
            Lookup::Pull(
                LayerLookup {
                    references: self.references,
                    tries: self.tries,
                    current: self.current + 1,
                    attempts: 0,
                    ref_errors: Vec::new(),
                    errors,
                    exhausted,
                },
            )
        } else if exhausted {
            Lookup::Done(Err(Error::RetryAllFails(errors)))
        } else {
            Lookup::Done(Ok(None))
        }
    }

    /// Whether `r` is how the lookup goes on with what a pull of the current
    /// reference's manifest gave.
    pub open spec fn follows(self, outcome: Result<Vec<LayerDescriptor>, PullFailure>, r: Lookup) -> bool {
        match outcome {
            Ok(layers) => r matches Lookup::Done(done) && match done {
                Ok(Some(info)) => layer_checked(
                    self.references@[self.current as int],
                    layers@,
                    Ok(info),
                ),
                Ok(None) => false,
                Err(e) => layer_checked(self.references@[self.current as int], layers@, Err(e)),
            },
            Err(failure) => if failure.not_found() {
                self.leaves(self.exhausted, self.errors@, r)
            } else {
                self.retries(Error::OciDistribution(failure.description()), r)
            },
        }
    }

    /// Once a manifest has come, no reference is asked for again: where the
    /// primary reference has an image, no fallback is ever tried.
    pub proof fn lemma_success_ends_lookup(self, layers: Vec<LayerDescriptor>, r: Lookup)
        requires
            self.wf(),
            self.follows(Ok(layers), r),
        ensures
            r is Done,
    {
    }

    /// The references are tried in their order: a lookup that goes on does
    /// so with the same reference, after a failure that may pass, or with
    /// the next one, after a failure; never with an earlier one.
    pub proof fn lemma_lookup_moves_forward(
        self,
        outcome: Result<Vec<LayerDescriptor>, PullFailure>,
        r: Lookup,
    )
        requires
            self.wf(),
            self.follows(outcome, r),
        ensures
            r matches Lookup::Pull(next) ==> {
                &&& outcome is Err
                &&& next.wf()
                &&& next.references == self.references
                &&& (next.current == self.current || next.current == self.current + 1)
                &&& (outcome->Err_0.not_found() ==> next.current == self.current + 1)
            },
    {
    }

    /// A lookup ends without a layer and without a failure only where no
    /// reference ran out of tries: each said that it has no image.
    pub proof fn lemma_none_means_not_found(
        self,
        outcome: Result<Vec<LayerDescriptor>, PullFailure>,
        r: Lookup,
    )
        requires
            self.wf(),
            self.follows(outcome, r),
            r == Lookup::Done(Ok(None)),
        ensures
            !self.exhausted,
            outcome matches Err(failure) && failure.not_found(),
            self.current + 1 == self.references@.len(),
    {
    }

    /// Goes on with what a pull of the current reference's manifest gave.
    ///
    /// A manifest ends the lookup: in the layer that it describes, or in the
    /// reason why it does not describe a cache object; no other reference is
    /// tried. A failure that says that there is no image under the reference
    /// is the end of this reference, and its earlier failures are dropped.
    /// Any other failure is kept, and the reference is tried again while it
    /// has tries left.
    pub fn pulled(self, outcome: Result<Vec<LayerDescriptor>, PullFailure>) -> (r: Lookup)
        requires
            self.wf(),
        ensures
            self.follows(outcome, r),
            r matches Lookup::Pull(next) ==> next.wf(),
    {
        match outcome {
            Ok(layers) => {
                let mut state = self;
                let reference = state.references.swap_remove(state.current);
                match layer_info(reference, &layers) {
                    Ok(info) => Lookup::Done(Ok(Some(info))),
                    Err(e) => Lookup::Done(Err(e)),
                }
            },
            Err(failure) => {
                if failure.is_not_found() {
                    let exhausted = self.exhausted;
                    let ghost before = self.errors@;
                    let mut state = self;
                    let mut errors: Vec<Error> = Vec::new();
                    errors.append(&mut state.errors);
                    assert(errors@ =~= before);
                    state.leave(exhausted, errors)
                } else {
                    let e = failure.into_error();
                    let mut state = self;
                    state.ref_errors.push(e);
                    if state.attempts + 1 < state.tries {
                        state.attempts = state.attempts + 1;
                        Lookup::Pull(state)
                    } else {
                        let mut errors: Vec<Error> = Vec::new();
                        errors.append(&mut state.errors);
                        errors.append(&mut state.ref_errors);
                        state.leave(true, errors)
                    }
                }
            },
        }
    }
}

/// Begins the lookup of the object at a location.
///
/// A cap below 1 on the tries is refused with `InvalidMaxRetry`. A cap of 1
/// leaves no try: the lookup ends at once, in `RetryAllFails` without
/// failures. Otherwise the primary reference is tried first, then each
/// fallback in order, each up to one time less than the cap says.
pub fn get_layer_info(options: &RegistryOptions, location: &OciLocation) -> (r: Lookup)
    requires
        location.encodable(options.encoding_options),
    ensures
        options.max_retry < 1 ==> r == Lookup::Done(Err(Error::InvalidMaxRetry(options.max_retry))),
        options.max_retry == 1 ==> (r matches Lookup::Done(Err(Error::RetryAllFails(e))) && e@.len()
            == 0),
        options.max_retry > 1 ==> {
            &&& r matches Lookup::Pull(state)
            &&& state.wf()
            &&& state.tries == options.max_retry - 1
            &&& state.current == 0
            &&& state.attempts == 0
            &&& state.ref_errors@.len() == 0
            &&& state.errors@.len() == 0
            &&& !state.exhausted
            &&& state.references@.len() == options.encoding_options.encodings().len()
            &&& forall|i: int|
                0 <= i < state.references@.len() ==> (#[trigger] state.references@[i])@
                    == location.reference_at(options.encoding_options, i)
        },
{
    let max_retry = options.max_retry;
    if max_retry < 1 {
        return Lookup::Done(Err(Error::InvalidMaxRetry(max_retry)));
    }
    if max_retry == 1 {
        return Lookup::Done(Err(Error::RetryAllFails(Vec::new())));
    }
    let references = location.references_merged(&options.encoding_options);
    Lookup::Pull(
        LayerLookup {
            references,
            tries: max_retry - 1,
            current: 0,
            attempts: 0,
            ref_errors: Vec::new(),
            errors: Vec::new(),
            exhausted: false,
        },
    )
}

/// The digest that `oci_client` gives a layer of these bytes.
pub uninterp spec fn layer_digest_text(data: Seq<u8>) -> Seq<char>;

/// Computes the digest of a layer.
///
/// Calls `oci_client::client::ImageLayer::new` and `sha256_digest`; the
/// result is named `layer_digest_text`. The bytes go into the layer and come
/// back out of it unchanged.
#[verifier::external_body]
pub(crate) fn layer_digest(data: Vec<u8>) -> (r: (String, Vec<u8>))
    ensures
        r.0@ == layer_digest_text(data@),
        r.1@ == data@,
{
    let layer = oci_client::client::ImageLayer::new(data, String::new(), None);
    let digest = layer.sha256_digest();
    (digest, layer.data.into())
}

/// The image that stands for a cache object: what to push, and where.
#[derive(Debug, Clone, PartialEq, Eq)]
pub struct ImagePlan {
    /// The reference under the primary tag.
    pub reference: ImageReference,
    /// The bytes of the one layer: those of the object.
    pub layer_data: Vec<u8>,
    pub layer_media_type: String,
    pub layer_annotations: Vec<(String, String)>,
    /// The architecture in the configuration.
    pub architecture: String,
    /// The operating system in the configuration.
    pub os: String,
    /// The type of the root file system in the configuration.
    pub rootfs_type: String,
    /// The layer content hashes in the configuration.
    pub diff_ids: Vec<String>,
    /// The annotations of the manifest.
    pub image_annotations: Vec<(String, String)>,
}

/// The content type of an object of which none is known.
pub const DEFAULT_CONTENT_TYPE: &'static str = "application/octet-stream";

/// The content type that an object is stored with.
pub open spec fn stored_content_type(content_type: Option<String>) -> Seq<char> {
    match content_type {
        Some(c) => c@,
        None => DEFAULT_CONTENT_TYPE@,
    }
}

/// The views of annotations.
pub open spec fn pairs_view(pairs: Seq<(String, String)>) -> Seq<(Seq<char>, Seq<char>)> {
    pairs.map_values(|p: (String, String)| (p.0@, p.1@))
}

/// Wraps a cache object as an image with one layer.
///
/// The layer holds the bytes of the object, has the media type of cache
/// objects, and bears the content type of the object as its annotation. The
/// configuration names no architecture and no operating system, and lists
/// the digest of the layer as the one content hash. The manifest bears the
/// key twice: as the key, and as the description. The image goes under the
/// primary tag only.
pub fn image_plan(options: &RegistryOptions, location: &OciLocation, oci_item: OciItem) -> (plan:
    ImagePlan)
    requires
        location.encodable(options.encoding_options),
    ensures
        plan.reference@ == location.reference_at(options.encoding_options, 0),
        plan.layer_data@ == oci_item.data@,
        plan.layer_media_type@ == LAYER_MEDIA_TYPE@,
        pairs_view(plan.layer_annotations@) == seq![
            (CONTENT_TYPE_ANNOTATION@, stored_content_type(oci_item.content_type)),
        ],
        plan.architecture@ == "none"@,
        plan.os@ == "none"@,
        plan.rootfs_type@ == "layers"@,
        crate::text::views(plan.diff_ids@) == seq![layer_digest_text(oci_item.data@)],
        pairs_view(plan.image_annotations@) == seq![
            (KEY_ANNOTATION@, location.key@),
            (DESCRIPTION_ANNOTATION@, location.key@),
        ],
{
    let content_type = match oci_item.content_type {
        None => DEFAULT_CONTENT_TYPE.to_owned(),
        Some(c) => c,
    };
    let mut layer_annotations: Vec<(String, String)> = Vec::new();
    layer_annotations.push((CONTENT_TYPE_ANNOTATION.to_owned(), content_type));
    let (digest, layer_data) = layer_digest(oci_item.data);
    let mut diff_ids: Vec<String> = Vec::new();
    diff_ids.push(digest);
    let mut image_annotations: Vec<(String, String)> = Vec::new();
    image_annotations.push((KEY_ANNOTATION.to_owned(), location.key.clone()));
    image_annotations.push((DESCRIPTION_ANNOTATION.to_owned(), location.key.clone()));
    let (reference, _fallbacks) = location.reference(&options.encoding_options);
    assert(pairs_view(layer_annotations@) =~= seq![
        (CONTENT_TYPE_ANNOTATION@, stored_content_type(oci_item.content_type)),
    ]);
    assert(crate::text::views(diff_ids@) =~= seq![layer_digest_text(oci_item.data@)]);
    assert(pairs_view(image_annotations@) =~= seq![
        (KEY_ANNOTATION@, location.key@),
        (DESCRIPTION_ANNOTATION@, location.key@),
    ]);
    ImagePlan {
        reference,
        layer_data,
        layer_media_type: LAYER_MEDIA_TYPE.to_owned(),
        layer_annotations,
        architecture: "none".to_owned(),
        os: "none".to_owned(),
        rootfs_type: "layers".to_owned(),
        diff_ids,
        image_annotations,
    }
}

/// A push under way: how often it may be tried, and what came of the tries
/// so far.
#[derive(Debug)]
pub struct PutAttempts {
    /// How often the push is tried at most.
    pub tries: usize,
    /// How often it has been tried.
    pub attempts: usize,
    /// The failures of those tries.
    pub errors: Vec<Error>,
}

/// What a push asks for next, or how it ended.
#[derive(Debug)]
pub enum Put {
    /// Push the image, and report what came.
    Push(PutAttempts),
    /// The push is over.
    Done(Result<(), Error>),
}

/// Begins the push of an image.
///
/// A cap below 1 on the tries is refused with `InvalidMaxRetry`. A cap of 1
/// leaves no try: the push ends at once, in `RetryAllFails` without
/// failures. A dry run ends at once in success, before anything is sent.
/// Otherwise the push is tried up to one time less than the cap says.
pub fn put(options: &RegistryOptions) -> (r: Put)
    ensures
        options.max_retry < 1 ==> r == Put::Done(Err(Error::InvalidMaxRetry(options.max_retry))),
        options.max_retry == 1 ==> (r matches Put::Done(Err(Error::RetryAllFails(e))) && e@.len()
            == 0),
        options.max_retry > 1 && options.dry_run ==> r == Put::Done(Ok(())),
        options.max_retry > 1 && !options.dry_run ==> {
            &&& r matches Put::Push(state)
            &&& state.wf()
            &&& state.tries == options.max_retry - 1
            &&& state.attempts == 0
            &&& state.errors@.len() == 0
        },
{
    let max_retry = options.max_retry;
    if max_retry < 1 {
        return Put::Done(Err(Error::InvalidMaxRetry(max_retry)));
    }
    if max_retry == 1 {
        return Put::Done(Err(Error::RetryAllFails(Vec::new())));
    }
    if options.dry_run {
        return Put::Done(Ok(()));
    }
    Put::Push(PutAttempts { tries: max_retry - 1, attempts: 0, errors: Vec::new() })
}

impl PutAttempts {
    /// A push under way has tries left.
    pub open spec fn wf(self) -> bool {
        self.attempts < self.tries
    }

    /// Goes on with what a push gave. Success ends the push. A failure is
    /// kept, with the client's description; the push is tried again while it
    /// has tries left, and ends in `RetryAllFails` with all failures, in
    /// their order, when it has none.
    pub fn pushed(self, outcome: Result<(), String>) -> (r: Put)
        requires
            self.wf(),
        ensures
            r matches Put::Push(next) ==> next.wf(),
            match outcome {
                Ok(()) => r == Put::Done(Ok(())),
                Err(description) => if self.attempts + 1 < self.tries {
                    &&& r matches Put::Push(next)
                    &&& next.tries == self.tries
                    &&& next.attempts == self.attempts + 1
                    &&& next.errors@ == self.errors@.push(Error::OciDistribution(description))
                } else {
                    r matches Put::Done(Err(Error::RetryAllFails(e))) && e@ == self.errors@.push(
                        Error::OciDistribution(description),
                    )
                },
            },
    {
        match outcome {
            Ok(()) => Put::Done(Ok(())),
            Err(description) => {
                let mut state = self;
                state.errors.push(Error::OciDistribution(description));
                if state.attempts + 1 < state.tries {
                    state.attempts = state.attempts + 1;
                    Put::Push(state)
                } else {
                    Put::Done(Err(Error::RetryAllFails(state.errors)))
                }
            },
        }
    }
}

} // verus!
