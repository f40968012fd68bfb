use oranc::convert::{EncodingOptions, TagEncoding};
use oranc::error::Error;
use oranc::registry::{
    get_layer_info, image_plan, layer_info, put, ClientProtocol, ImageReference, LayerDescriptor,
    LayerInfo, Lookup, OciErrorCode, OciItem, OciLocation, PullFailure, Put, RegistryOptions,
    CONTENT_TYPE_ANNOTATION, LAYER_MEDIA_TYPE,
};

fn encodings(fallbacks: Vec<TagEncoding>) -> EncodingOptions {
    EncodingOptions { tag_encoding: TagEncoding::Custom, fallback_encodings: fallbacks }
}

fn options(max_retry: usize, fallbacks: Vec<TagEncoding>) -> RegistryOptions {
    RegistryOptions { no_ssl: false, dry_run: false, max_retry, encoding_options: encodings(fallbacks) }
}

fn location(key: &str) -> OciLocation {
    OciLocation {
        registry: "ghcr.io".to_string(),
        repository: "owner/cache".to_string(),
        key: key.to_string(),
    }
}

fn reference(tag: &str) -> ImageReference {
    ImageReference {
        registry: "ghcr.io".to_string(),
        repository: "owner/cache".to_string(),
        tag: tag.to_string(),
    }
}

fn layer(content_type: &str) -> LayerDescriptor {
    LayerDescriptor {
        media_type: LAYER_MEDIA_TYPE.to_string(),
        digest: "sha256:abcd".to_string(),
        annotations: Some(vec![
            ("other".to_string(), "x".to_string()),
            (CONTENT_TYPE_ANNOTATION.to_string(), content_type.to_string()),
        ]),
    }
}

fn other(description: &str) -> PullFailure {
    PullFailure::Other(description.to_string())
}

fn not_found() -> PullFailure {
    PullFailure::ImageManifestNotFound("manifest not found".to_string())
}

fn pull(step: Lookup) -> oranc::registry::LayerLookup {
    match step {
        Lookup::Pull(state) => state,
        Lookup::Done(r) => panic!("done: {:?}", r),
    }
}

fn done(step: Lookup) -> Result<Option<LayerInfo>, Error> {
    match step {
        Lookup::Done(r) => r,
        Lookup::Pull(state) => panic!("pull: {:?}", state),
    }
}

#[test]
fn constants() {
    assert_eq!(LAYER_MEDIA_TYPE, "application/octet-stream");
    assert_eq!(CONTENT_TYPE_ANNOTATION, "com.linyinfeng.oranc.content.type");
}

#[test]
fn location_to_text_and_from_params() {
    assert_eq!(location("abc.narinfo").to_text(), "ghcr.io/owner/cache/abc.narinfo");
    assert_eq!(
        OciLocation::from_params("ghcr.io".to_string(), "owner", "cache", "nar/x.nar.zst".to_string()),
        location("nar/x.nar.zst")
    );
}

#[test]
fn registry_options_from_other_options() {
    let o = options(3, vec![]);
    assert_eq!(o.client_config(), ClientProtocol::Https);
    let plain = RegistryOptions { no_ssl: true, ..options(3, vec![]) };
    assert_eq!(plain.client_config(), ClientProtocol::Http);
}

#[test]
fn location_references() {
    let l = location("nar/x.nar.zst");
    let (main, fallbacks) = l.reference(&encodings(vec![TagEncoding::Base32DNSSEC, TagEncoding::Custom]));
    assert_eq!(main, reference("nar_L_x.nar.zst"));
    assert_eq!(fallbacks, vec![reference("dpgn4bro5pn62shef9pn8"), reference("nar_L_x.nar.zst")]);
    let merged = l.references_merged(&encodings(vec![TagEncoding::Base32DNSSEC]));
    assert_eq!(merged, vec![reference("nar_L_x.nar.zst"), reference("dpgn4bro5pn62shef9pn8")]);
    assert_eq!(l.references_merged(&encodings(vec![])), vec![reference("nar_L_x.nar.zst")]);
}

#[test]
fn layer_info_reads_digest_and_content_type() {
    assert_eq!(
        layer_info(reference("t"), &vec![layer("text/x-nix-narinfo")]),
        Ok(LayerInfo {
            reference: reference("t"),
            digest: "sha256:abcd".to_string(),
            content_type: "text/x-nix-narinfo".to_string(),
        })
    );
}

#[test]
fn layer_info_failures() {
    assert_eq!(layer_info(reference("t"), &vec![]), Err(Error::InvalidLayerCount(0)));
    assert_eq!(
        layer_info(reference("t"), &vec![layer("a"), layer("b")]),
        Err(Error::InvalidLayerCount(2))
    );
    let tar = LayerDescriptor { media_type: "application/vnd.oci.image.layer.v1.tar".to_string(), ..layer("a") };
    assert_eq!(
        layer_info(reference("t"), &vec![tar]),
        Err(Error::InvalidLayerMediaType("application/vnd.oci.image.layer.v1.tar".to_string()))
    );
    let bare = LayerDescriptor { annotations: None, ..layer("a") };
    assert_eq!(layer_info(reference("t"), &vec![bare]), Err(Error::NoLayerAnnotations));
    let without = LayerDescriptor { annotations: Some(vec![("other".to_string(), "x".to_string())]), ..layer("a") };
    assert_eq!(
        layer_info(reference("t"), &vec![without]),
        Err(Error::NoLayerAnnotationKey("com.linyinfeng.oranc.content.type".to_string()))
    );
    let empty = LayerDescriptor { annotations: Some(vec![]), ..layer("a") };
    assert_eq!(
        layer_info(reference("t"), &vec![empty]),
        Err(Error::NoLayerAnnotationKey("com.linyinfeng.oranc.content.type".to_string()))
    );
    // The count is looked at first, the media type second.
    let odd = LayerDescriptor { media_type: "x".to_string(), annotations: None, ..layer("a") };
    assert_eq!(layer_info(reference("t"), &vec![odd.clone(), odd.clone()]), Err(Error::InvalidLayerCount(2)));
    assert_eq!(layer_info(reference("t"), &vec![odd]), Err(Error::InvalidLayerMediaType("x".to_string())));
}

#[test]
fn pull_failure_not_found() {
    assert!(not_found().is_not_found());
    assert!(!other("timeout").is_not_found());
    let unknown = PullFailure::Registry {
        codes: vec![OciErrorCode::ManifestUnknown, OciErrorCode::ManifestUnknown],
        description: "d".to_string(),
    };
    assert!(unknown.is_not_found());
    let mixed = PullFailure::Registry {
        codes: vec![OciErrorCode::ManifestUnknown, OciErrorCode::Denied],
        description: "d".to_string(),
    };
    assert!(!mixed.is_not_found());
    let none = PullFailure::Registry { codes: vec![], description: "d".to_string() };
    assert!(none.is_not_found());
    let named = PullFailure::Registry {
        codes: vec![OciErrorCode::Other("MANIFEST_UNKNOWN".to_string())],
        description: "d".to_string(),
    };
    assert!(!named.is_not_found());
    assert_eq!(mixed.into_error(), Error::OciDistribution("d".to_string()));
    assert_eq!(other("timeout").into_error(), Error::OciDistribution("timeout".to_string()));
}

#[test]
fn lookup_refuses_a_cap_below_one() {
    assert_eq!(done(get_layer_info(&options(0, vec![]), &location("k"))), Err(Error::InvalidMaxRetry(0)));
}

#[test]
fn lookup_with_a_cap_of_one_tries_nothing() {
    assert_eq!(
        done(get_layer_info(&options(1, vec![TagEncoding::Base32DNSSEC]), &location("k"))),
        Err(Error::RetryAllFails(vec![]))
    );
}

#[test]
fn lookup_primary_success_asks_no_fallback() {
    let state = pull(get_layer_info(&options(3, vec![TagEncoding::Base32DNSSEC]), &location("a/b")));
    assert_eq!(state.reference(), &reference("a_L_b"));
    assert_eq!(state.tries, 2);
    let result = done(state.pulled(Ok(vec![layer("text/plain")])));
    assert_eq!(
        result,
        Ok(Some(LayerInfo {
            reference: reference("a_L_b"),
            digest: "sha256:abcd".to_string(),
            content_type: "text/plain".to_string(),
        }))
    );
}

#[test]
fn lookup_falls_back_in_order() {
    let state = pull(get_layer_info(
        &options(3, vec![TagEncoding::Base32DNSSEC, TagEncoding::Custom]),
        &location("a/b"),
    ));
    assert_eq!(state.reference(), &reference("a_L_b"));
    let state = pull(state.pulled(Err(not_found())));
    assert_eq!(state.reference(), &reference("c4nm4"));
    assert_eq!(state.attempts, 0);
    let result = done(state.pulled(Ok(vec![layer("text/plain")])));
    assert_eq!(result.unwrap().unwrap().reference, reference("c4nm4"));
}

#[test]
fn lookup_none_when_every_reference_is_not_found() {
    let state = pull(get_layer_info(&options(3, vec![TagEncoding::Base32DNSSEC]), &location("a/b")));
    let state = pull(state.pulled(Err(not_found())));
    assert_eq!(done(state.pulled(Err(not_found()))), Ok(None));
    // A failure that passes does not count once the reference says "not found".
    let state = pull(get_layer_info(&options(3, vec![]), &location("a/b")));
    let state = pull(state.pulled(Err(other("timeout"))));
    assert_eq!(state.attempts, 1);
    assert_eq!(done(state.pulled(Err(not_found()))), Ok(None));
}

#[test]
fn lookup_retries_and_gives_up() {
    let state = pull(get_layer_info(&options(3, vec![]), &location("a/b")));
    let state = pull(state.pulled(Err(other("first"))));
    assert_eq!(state.reference(), &reference("a_L_b"));
    assert_eq!(
        done(state.pulled(Err(other("second")))),
        Err(Error::RetryAllFails(vec![
            Error::OciDistribution("first".to_string()),
            Error::OciDistribution("second".to_string()),
        ]))
    );
    // With a cap of 2 each reference is tried once.
    let state = pull(get_layer_info(&options(2, vec![TagEncoding::Base32DNSSEC]), &location("a/b")));
    let state = pull(state.pulled(Err(other("first"))));
    assert_eq!(state.reference(), &reference("c4nm4"));
    assert_eq!(
        done(state.pulled(Err(other("second")))),
        Err(Error::RetryAllFails(vec![
            Error::OciDistribution("first".to_string()),
            Error::OciDistribution("second".to_string()),
        ]))
    );
}

#[test]
fn lookup_failure_of_one_reference_is_no_not_found() {
    // The primary reference runs out of tries, the fallback has no image.
    let state = pull(get_layer_info(&options(2, vec![TagEncoding::Base32DNSSEC]), &location("a/b")));
    let state = pull(state.pulled(Err(other("first"))));
    assert_eq!(
        done(state.pulled(Err(not_found()))),
        Err(Error::RetryAllFails(vec![Error::OciDistribution("first".to_string())]))
    );
    // The other way round.
    let state = pull(get_layer_info(&options(2, vec![TagEncoding::Base32DNSSEC]), &location("a/b")));
    let state = pull(state.pulled(Err(not_found())));
    assert_eq!(
        done(state.pulled(Err(other("second")))),
        Err(Error::RetryAllFails(vec![Error::OciDistribution("second".to_string())]))
    );
}

#[test]
fn lookup_success_after_failures() {
    let state = pull(get_layer_info(&options(4, vec![]), &location("a/b")));
    let state = pull(state.pulled(Err(other("first"))));
    let state = pull(state.pulled(Err(other("second"))));
    assert_eq!(state.attempts, 2);
    assert!(done(state.pulled(Ok(vec![layer("x")]))).unwrap().is_some());
}

#[test]
fn lookup_ends_in_the_failure_of_a_bad_manifest() {
    let state = pull(get_layer_info(&options(3, vec![TagEncoding::Base32DNSSEC]), &location("a/b")));
    assert_eq!(done(state.pulled(Ok(vec![]))), Err(Error::InvalidLayerCount(0)));
}

#[test]
fn image_plan_wraps_the_object() {
    let o = options(3, vec![TagEncoding::Base32DNSSEC]);
    let item = OciItem { content_type: Some("text/x-nix-narinfo".to_string()), data: b"hello".to_vec() };
    let plan = image_plan(&o, &location("abc.narinfo"), item);
    assert_eq!(plan.reference, reference("abc.narinfo"));
    assert_eq!(plan.layer_data, b"hello".to_vec());
    assert_eq!(plan.layer_media_type, "application/octet-stream");
    assert_eq!(
        plan.layer_annotations,
        vec![("com.linyinfeng.oranc.content.type".to_string(), "text/x-nix-narinfo".to_string())]
    );
    assert_eq!(plan.architecture, "none");
    assert_eq!(plan.os, "none");
    assert_eq!(plan.rootfs_type, "layers");
    assert_eq!(
        plan.diff_ids,
        vec!["sha256:2cf24dba5fb0a30e26e83b2ac5b9e29e1b161e5c1fa7425e73043362938b9824".to_string()]
    );
    assert_eq!(
        plan.image_annotations,
        vec![
            ("com.linyinfeng.oranc.key".to_string(), "abc.narinfo".to_string()),
            ("org.opencontainers.image.description".to_string(), "abc.narinfo".to_string()),
        ]
    );
}

#[test]
fn image_plan_defaults_the_content_type() {
    let o = options(3, vec![]);
    let plan = image_plan(&o, &location("a/b"), OciItem { content_type: None, data: vec![] });
    assert_eq!(plan.reference, reference("a_L_b"));
    assert_eq!(
        plan.layer_annotations,
        vec![("com.linyinfeng.oranc.content.type".to_string(), "application/octet-stream".to_string())]
    );
    assert_eq!(
        plan.diff_ids,
        vec!["sha256:e3b0c44298fc1c149afbf4c8996fb92427ae41e4649b934ca495991b7852b855".to_string()]
    );
    assert_eq!(plan.layer_data, Vec::<u8>::new());
}

fn push_state(step: Put) -> oranc::registry::PutAttempts {
    match step {
        Put::Push(state) => state,
        Put::Done(r) => panic!("done: {:?}", r),
    }
}

fn put_done(step: Put) -> Result<(), Error> {
    match step {
        Put::Done(r) => r,
        Put::Push(state) => panic!("push: {:?}", state),
    }
}

#[test]
fn put_refuses_a_cap_below_one() {
    assert_eq!(put_done(put(&options(0, vec![]))), Err(Error::InvalidMaxRetry(0)));
    let dry = RegistryOptions { dry_run: true, ..options(0, vec![]) };
    assert_eq!(put_done(put(&dry)), Err(Error::InvalidMaxRetry(0)));
}

#[test]
fn put_with_a_cap_of_one_tries_nothing() {
    assert_eq!(put_done(put(&options(1, vec![]))), Err(Error::RetryAllFails(vec![])));
    let dry = RegistryOptions { dry_run: true, ..options(1, vec![]) };
    assert_eq!(put_done(put(&dry)), Err(Error::RetryAllFails(vec![])));
}

#[test]
fn put_dry_run_sends_nothing() {
    let dry = RegistryOptions { dry_run: true, ..options(3, vec![]) };
    assert_eq!(put_done(put(&dry)), Ok(()));
}

#[test]
fn put_retries_and_gives_up() {
    let state = push_state(put(&options(3, vec![])));
    assert_eq!(state.tries, 2);
    let state = push_state(state.pushed(Err("first".to_string())));
    assert_eq!(state.attempts, 1);
    assert_eq!(
        put_done(state.pushed(Err("second".to_string()))),
        Err(Error::RetryAllFails(vec![
            Error::OciDistribution("first".to_string()),
            Error::OciDistribution("second".to_string()),
        ]))
    );
}

#[test]
fn put_success_ends_the_push() {
    let state = push_state(put(&options(3, vec![])));
    assert_eq!(put_done(state.pushed(Ok(()))), Ok(()));
    let state = push_state(put(&options(3, vec![])));
    let state = push_state(state.pushed(Err("first".to_string())));
    assert_eq!(put_done(state.pushed(Ok(()))), Ok(()));
}

#[test]
fn location_equality_takes_all_three_parts() {
    let l = location("abc.narinfo");
    assert!(l.same(&location("abc.narinfo")));
    assert_eq!(l, location("abc.narinfo"));
    assert!(!l.same(&location("abd.narinfo")));
    assert!(!l.same(&OciLocation { registry: "docker.io".to_string(), ..location("abc.narinfo") }));
    assert!(!l.same(&OciLocation { repository: "owner/other".to_string(), ..location("abc.narinfo") }));
}
