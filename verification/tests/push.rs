use oranc::convert::{EncodingOptions, TagEncoding};
use oranc::error::Error;
use oranc::nix::sign::{NixKeyPair, NixSignature, NixSignatureList};
use oranc::nix::{nar_info_fingerprint, query_path_info, NixHash, PathInfo};
use oranc::options::{InitializeOptions, PushOptions};
use oranc::pattern::Pattern;
use oranc::push::{
    build_nix_cache_info, filter_ids, get_auth, get_nix_key_pair, handle_push_result,
    id_closures, input_paths, nix_db_connection, not_failed, plan_uploads, prepare_uploads, push,
    push_initialize_main, push_one, query_db_ids, strip_all, PushStep,
};
use oranc::registry::{OciItem, OciLocation, RegistryAuth};
use sha2::Digest;

const SECRET_1: &str =
    "nWGxne/9WmC6hEr0kuwsxERJxWl7MmkZcDusAxyuf2DXWpgBgrEKt9VL/tPJZAc6DuFy89qmIyWvAhpo9wdRGg==";

fn options() -> PushOptions {
    PushOptions {
        registry: "ghcr.io".to_string(),
        repository: "owner/cache".to_string(),
        no_closure: false,
        store_dir: "/nix/store".to_string(),
        excluded_signing_key_pattern: Pattern::new("^cache\\.nixos\\.org-.*$").unwrap(),
        already_signed: false,
        parallel: 4,
        zstd_level: 3,
        max_retry: 3,
        dry_run: false,
        allow_immutable_db: false,
        no_ssl: false,
        encoding_options: EncodingOptions {
            tag_encoding: TagEncoding::Custom,
            fallback_encodings: vec![],
        },
        subcommand: None,
    }
}

fn key() -> NixKeyPair {
    NixKeyPair::from_secret_key_str(&format!("mine-1:{}", SECRET_1)).unwrap()
}

fn row(nar_size: i64, sigs: Option<&str>) -> PathInfo {
    query_path_info(
        9,
        "/nix/store/0q43idch209zsdngl8yl79x0y79aajib-hello".to_string(),
        Some("/nix/store/1abc-hello.drv".to_string()),
        nar_size,
        sigs.map(|s| s.to_string()),
        vec![
            "/nix/store/zzzz-libc".to_string(),
            "/nix/store/0q43idch209zsdngl8yl79x0y79aajib-hello".to_string(),
        ],
        Some("fixed:r:sha256:0abc".to_string()),
    )
}

fn location(key: &str) -> OciLocation {
    OciLocation {
        registry: "ghcr.io".to_string(),
        repository: "owner/cache".to_string(),
        key: key.to_string(),
    }
}

#[test]
fn db_connection_choice() {
    let o = options();
    assert_eq!(
        nix_db_connection(&o, true),
        Ok("file:/nix/var/nix/db/db.sqlite?mode=ro".to_string())
    );
    assert_eq!(
        nix_db_connection(&o, false),
        Err(Error::NixDbFolderNotWritable("/nix/var/nix/db".to_string()))
    );
    let allowed = PushOptions { allow_immutable_db: true, ..options() };
    assert_eq!(
        nix_db_connection(&allowed, false),
        Ok("file:/nix/var/nix/db/db.sqlite?immutable=1".to_string())
    );
    assert_eq!(
        nix_db_connection(&allowed, true),
        Ok("file:/nix/var/nix/db/db.sqlite?mode=ro".to_string())
    );
}

#[test]
fn auth_from_the_environment() {
    assert_eq!(get_auth(None, None), RegistryAuth::Anonymous);
    assert_eq!(get_auth(Some("u".to_string()), None), RegistryAuth::Anonymous);
    assert_eq!(get_auth(None, Some("p".to_string())), RegistryAuth::Anonymous);
    assert_eq!(
        get_auth(Some("u".to_string()), Some("p".to_string())),
        RegistryAuth::Basic("u".to_string(), "p".to_string())
    );
}

#[test]
fn key_pair_from_the_environment() {
    let pair = get_nix_key_pair(Ok(format!("mine-1:{}", SECRET_1))).unwrap();
    assert_eq!(pair.name(), "mine-1");
    assert!(matches!(
        get_nix_key_pair(Err("environment variable not found".to_string())),
        Err(Error::InvalidSigningKeyEnv(s)) if s == "environment variable not found"
    ));
    assert!(matches!(
        get_nix_key_pair(Ok("nocolon".to_string())),
        Err(Error::InvalidSigningKey(s)) if s == "nocolon"
    ));
}

#[test]
fn nix_cache_info_text() {
    let o = options();
    assert_eq!(
        build_nix_cache_info(&o, &InitializeOptions { priority: 41, no_mass_query: false }),
        "StoreDir: /nix/store\nWantMassQuery: 1\nPriority: 41\n"
    );
    assert_eq!(
        build_nix_cache_info(&o, &InitializeOptions { priority: 0, no_mass_query: true }),
        "StoreDir: /nix/store\nWantMassQuery: 0\nPriority: 0\n"
    );
}

#[test]
fn initialize_uploads_the_cache_info() {
    let (l, item) =
        push_initialize_main(&options(), &InitializeOptions { priority: 30, no_mass_query: false });
    assert_eq!(l, location("nix-cache-info"));
    assert_eq!(
        item,
        OciItem {
            content_type: Some("text/x-nix-cache-info".to_string()),
            data: b"StoreDir: /nix/store\nWantMassQuery: 1\nPriority: 30\n".to_vec(),
        }
    );
}

#[test]
fn input_paths_trims_and_drops_empty_lines() {
    let lines: Vec<String> =
        ["/nix/store/a-b", "", "  ./result  ", "\t", "/nix/store/a-b\r", " x y "].iter().map(|s| s.to_string()).collect();
    assert_eq!(input_paths(&lines), vec!["/nix/store/a-b", "./result", "/nix/store/a-b", "x y"]);
    assert_eq!(input_paths(&vec![]), Vec::<String>::new());
}

#[test]
fn early_stop_checkpoint() {
    assert_eq!(not_failed(false), Ok(()));
    assert_eq!(not_failed(true), Err(Error::EarlyStop));
}

#[test]
fn handle_push_result_sets_the_flag() {
    assert!(!handle_push_result(&Ok(()), false));
    assert!(handle_push_result(&Ok(()), true));
    assert!(!handle_push_result(&Err(Error::EarlyStop), false));
    assert!(handle_push_result(&Err(Error::EarlyStop), true));
    assert!(handle_push_result(&Err(Error::NarSizeNotMatch(1, 2)), false));
    assert!(handle_push_result(&Err(Error::PushFailed), true));
}

#[test]
fn push_status() {
    assert_eq!(push(false), Ok(()));
    assert_eq!(push(true), Err(Error::PushFailed));
}

fn item(data: &[u8]) -> OciItem {
    OciItem { content_type: None, data: data.to_vec() }
}

#[test]
fn push_one_runs_to_the_end() {
    let state = match push_one(9, false) {
        PushStep::Spawn(state) => state,
        other => panic!("{:?}", other),
    };
    assert_eq!(state.id, 9);
    let state = match state.spawned(false) {
        PushStep::Read(state) => state,
        other => panic!("{:?}", other),
    };
    let uploads = vec![(location("nar/x.nar.zst"), item(b"nar")), (location("x.narinfo"), item(b"info"))];
    let state = match state.prepared(false, Ok(uploads)) {
        PushStep::Put(state, l, i) => {
            // The archive goes first.
            assert_eq!(l, location("nar/x.nar.zst"));
            assert_eq!(i, item(b"nar"));
            state
        }
        other => panic!("{:?}", other),
    };
    let state = match state.uploaded(false, Ok(())) {
        PushStep::Put(state, l, i) => {
            assert_eq!(l, location("x.narinfo"));
            assert_eq!(i, item(b"info"));
            state
        }
        other => panic!("{:?}", other),
    };
    assert!(matches!(state.uploaded(false, Ok(())), PushStep::Done(Ok(()))));
}

#[test]
fn push_one_stops_early_at_every_checkpoint() {
    assert!(matches!(push_one(9, true), PushStep::Done(Err(Error::EarlyStop))));
    let spawn = || match push_one(9, false) {
        PushStep::Spawn(state) => state,
        other => panic!("{:?}", other),
    };
    // Nothing is read once the flag is set.
    assert!(matches!(spawn().spawned(true), PushStep::Done(Err(Error::EarlyStop))));
    let uploads = || vec![(location("nar/x.nar.zst"), item(b"nar")), (location("x.narinfo"), item(b"info"))];
    assert!(matches!(spawn().prepared(true, Ok(uploads())), PushStep::Done(Err(Error::EarlyStop))));
    let state = match spawn().prepared(false, Ok(uploads())) {
        PushStep::Put(state, _, _) => state,
        other => panic!("{:?}", other),
    };
    assert!(matches!(state.uploaded(true, Ok(())), PushStep::Done(Err(Error::EarlyStop))));
}

#[test]
fn push_one_ends_with_the_first_failure() {
    let spawn = || match push_one(9, false) {
        PushStep::Spawn(state) => state,
        other => panic!("{:?}", other),
    };
    assert!(matches!(
        spawn().prepared(false, Err(Error::NarSizeNotMatch(1, 2))),
        PushStep::Done(Err(Error::NarSizeNotMatch(1, 2)))
    ));
    // A failure of the preparation is no early stop, flag or no flag.
    assert!(matches!(
        spawn().prepared(true, Err(Error::NarSizeNotMatch(1, 2))),
        PushStep::Done(Err(Error::NarSizeNotMatch(1, 2)))
    ));
    let uploads = vec![(location("nar/x.nar.zst"), item(b"nar")), (location("x.narinfo"), item(b"info"))];
    let state = match spawn().prepared(false, Ok(uploads)) {
        PushStep::Put(state, _, _) => state,
        other => panic!("{:?}", other),
    };
    assert!(matches!(
        state.uploaded(false, Err(Error::RetryAllFails(vec![]))),
        PushStep::Done(Err(Error::RetryAllFails(_)))
    ));
    assert!(matches!(spawn().prepared(false, Ok(vec![])), PushStep::Done(Ok(()))));
}

#[test]
fn strip_all_strips_each_or_fails_at_the_first() {
    let o = options();
    let paths = vec!["/nix/store/a-b".to_string(), "/nix/store/c-d".to_string()];
    assert_eq!(strip_all(&o, &paths), Ok(vec!["a-b".to_string(), "c-d".to_string()]));
    assert_eq!(strip_all(&o, &vec![]), Ok(vec![]));
    let bad = vec!["/nix/store/a-b".to_string(), "/x/c-d".to_string(), "/y/e-f".to_string()];
    assert_eq!(strip_all(&o, &bad), Err(Error::InvalidStorePath("/x/c-d".to_string())));
}

fn nar() -> Vec<u8> {
    let mut data = Vec::new();
    for i in 0..5000u32 {
        data.extend_from_slice(&(i % 251).to_le_bytes());
    }
    data
}

#[test]
fn prepare_uploads_gives_archive_then_descriptor() {
    let o = options();
    let pair = key();
    let data = nar();
    let uploads =
        prepare_uploads(&o, &pair, row(data.len() as i64, Some("cache.example.org-1:AAAA")), data.clone())
            .unwrap();
    assert_eq!(uploads.len(), 2);

    let nar_hash = NixHash::hash_data(&data);
    let (nar_location, nar_item) = &uploads[0];
    assert_eq!(nar_location, &location(&format!("nar/{}.nar.zst", nar_hash.base32)));
    assert_eq!(nar_item.content_type, Some("application/x-nix-nar".to_string()));
    // The uploaded archive decodes to the archive, and has its size and hash.
    let decoded = zstd::stream::decode_all(&nar_item.data[..]).unwrap();
    assert_eq!(decoded, data);
    assert_ne!(nar_item.data, data);
    assert_eq!(sha2::Sha256::digest(&decoded).to_vec(), sha2::Sha256::digest(&data).to_vec());

    let (info_location, info_item) = &uploads[1];
    assert_eq!(info_location, &location("0q43idch209zsdngl8yl79x0y79aajib.narinfo"));
    assert_eq!(info_item.content_type, Some("text/x-nix-narinfo".to_string()));
    let file_hash = NixHash::hash_data(&nar_item.data);
    let references = vec!["0q43idch209zsdngl8yl79x0y79aajib-hello".to_string(), "zzzz-libc".to_string()];
    let fingerprint = nar_info_fingerprint(
        "/nix/store",
        "/nix/store/0q43idch209zsdngl8yl79x0y79aajib-hello",
        &nar_hash,
        data.len(),
        &references,
    );
    let signature = pair.sign(fingerprint.as_bytes()).unwrap();
    let expected = format!(
        "StorePath: /nix/store/0q43idch209zsdngl8yl79x0y79aajib-hello\n\
         URL: nar/{}.nar.zst\n\
         Compression: zstd\n\
         FileHash: sha256:{}\n\
         FileSize: {}\n\
         NarHash: sha256:{}\n\
         NarSize: {}\n\
         References: 0q43idch209zsdngl8yl79x0y79aajib-hello zzzz-libc\n\
         Deriver: 1abc-hello.drv\n\
         Sig: cache.example.org-1:AAAA\n\
         Sig: mine-1:{}\n\
         CA: fixed:r:sha256:0abc\n",
        nar_hash.base32,
        file_hash.base32,
        nar_item.data.len(),
        nar_hash.base32,
        data.len(),
        signature.signature
    );
    assert_eq!(String::from_utf8(info_item.data.clone()).unwrap(), expected);

    // The signature in the descriptor verifies against the fingerprint.
    let line = expected.lines().find(|l| l.starts_with("Sig: mine-1:")).unwrap();
    let read = NixSignature::from_str(&line["Sig: ".len()..]).unwrap();
    assert_eq!(pair.verify(fingerprint.as_bytes(), &read), Ok(()));
}

#[test]
fn prepare_uploads_keeps_an_own_signature_that_is_there() {
    let o = options();
    let pair = key();
    let data = nar();
    let nar_hash = NixHash::hash_data(&data);
    let references = vec!["0q43idch209zsdngl8yl79x0y79aajib-hello".to_string(), "zzzz-libc".to_string()];
    let fingerprint = nar_info_fingerprint(
        "/nix/store",
        "/nix/store/0q43idch209zsdngl8yl79x0y79aajib-hello",
        &nar_hash,
        data.len(),
        &references,
    );
    let own = pair.sign(fingerprint.as_bytes()).unwrap();
    let sigs = NixSignatureList(vec![own.clone()]).to_text();
    let uploads = prepare_uploads(&o, &pair, row(data.len() as i64, Some(&sigs)), data.clone()).unwrap();
    let text = String::from_utf8(uploads[1].1.data.clone()).unwrap();
    assert_eq!(text.lines().filter(|l| l.starts_with("Sig: ")).count(), 1);
    assert!(text.contains(&format!("Sig: {}\n", own.to_text())));
}

#[test]
fn prepare_uploads_failures() {
    let o = options();
    let pair = key();
    let data = nar();
    let size = data.len() as i64;
    assert_eq!(
        prepare_uploads(&o, &pair, row(size + 1, None), data.clone()),
        Err(Error::NarSizeNotMatch(size + 1, data.len()))
    );
    assert_eq!(prepare_uploads(&o, &pair, row(-1, None), data.clone()), Err(Error::InvalidNarSize(-1)));
    assert_eq!(
        prepare_uploads(&o, &pair, row(size, Some("garbage")), data.clone()),
        Err(Error::InvalidSignature("garbage".to_string()))
    );
    assert!(matches!(
        prepare_uploads(&o, &pair, row(size, Some("mine-1:AAAA")), data.clone()),
        Err(Error::Ed25519(_))
    ));
    let mut outside = row(size, None);
    outside.path = "/elsewhere/abc-x".to_string();
    assert_eq!(
        prepare_uploads(&o, &pair, outside, data.clone()),
        Err(Error::InvalidStorePath("/elsewhere/abc-x".to_string()))
    );
    let mut reference = row(size, None);
    reference.reference_store_paths = vec!["/nix/store/a-b".to_string(), "/tmp/c-d".to_string()];
    assert_eq!(
        prepare_uploads(&o, &pair, reference, data.clone()),
        Err(Error::InvalidStorePath("/tmp/c-d".to_string()))
    );
    let mut deriver = row(size, None);
    deriver.deriver_store_paths = Some("/tmp/x.drv".to_string());
    assert_eq!(
        prepare_uploads(&o, &pair, deriver, data.clone()),
        Err(Error::InvalidStorePath("/tmp/x.drv".to_string()))
    );
    // The size is looked at before the references.
    let mut both = row(size + 1, Some("garbage"));
    both.reference_store_paths = vec!["/tmp/c-d".to_string()];
    assert_eq!(
        prepare_uploads(&o, &pair, both, data.clone()),
        Err(Error::NarSizeNotMatch(size + 1, data.len()))
    );
}

#[test]
fn plan_uploads_takes_the_frame_as_it_is() {
    let o = options();
    let pair = key();
    let info = query_path_info(1, "/nix/store/abc-x".to_string(), None, 3, None, vec![], None);
    let hash = NixHash { algorithm: "sha256".to_string(), base32: "0nar".to_string() };
    let uploads = plan_uploads(&o, &pair, info, 3, hash, b"frame".to_vec()).unwrap();
    assert_eq!(uploads[0].0, location("nar/0nar.nar.zst"));
    assert_eq!(uploads[0].1.data, b"frame".to_vec());
    assert_eq!(uploads[1].0, location("abc.narinfo"));
    let text = String::from_utf8(uploads[1].1.data.clone()).unwrap();
    assert!(text.starts_with(
        "StorePath: /nix/store/abc-x\nURL: nar/0nar.nar.zst\nCompression: zstd\nFileHash: sha256:"
    ));
    assert!(text.contains("\nFileSize: 5\nNarHash: sha256:0nar\nNarSize: 3\nReferences: \nSig: mine-1:"));
    assert!(!text.contains("Deriver"));
    assert!(!text.contains("CA"));
}

fn rows(path: &String) -> Result<Vec<i64>, Error> {
    match path.as_str() {
        "/nix/store/a-one" => Ok(vec![1]),
        "/nix/store/b-two" => Ok(vec![2]),
        "/nix/store/c-twice" => Ok(vec![3, 4]),
        "/nix/store/d-broken" => Err(Error::Rusqlite("disk I/O error".to_string())),
        _ => Ok(vec![]),
    }
}

#[test]
fn query_db_ids_gives_the_set_of_ids() {
    let paths = |list: &[&str]| list.iter().map(|s| s.to_string()).collect::<Vec<String>>();
    let set = |ids: &[i64]| ids.iter().copied().collect::<std::collections::HashSet<i64>>();
    assert_eq!(query_db_ids(&paths(&[]), rows), Ok(set(&[])));
    assert_eq!(
        query_db_ids(&paths(&["/nix/store/b-two", "/nix/store/a-one", "/nix/store/b-two"]), rows),
        Ok(set(&[1, 2]))
    );
    let asked = std::cell::RefCell::new(Vec::new());
    let found = query_db_ids(&paths(&["/nix/store/b-two", "/nix/store/a-one"]), |path: &String| {
        asked.borrow_mut().push(path.clone());
        rows(path)
    });
    assert_eq!(found, Ok(set(&[1, 2])));
    assert_eq!(*asked.borrow(), paths(&["/nix/store/b-two", "/nix/store/a-one"]));
    assert_eq!(
        query_db_ids(&paths(&["/nix/store/a-one", "/nix/store/z-none", "/nix/store/c-twice"]), rows),
        Err(Error::NoPathInfo("/nix/store/z-none".to_string()))
    );
    assert_eq!(
        query_db_ids(&paths(&["/nix/store/c-twice", "/nix/store/z-none"]), rows),
        Err(Error::DuplicatedPathInfo("/nix/store/c-twice".to_string()))
    );
    assert_eq!(
        query_db_ids(&paths(&["/nix/store/a-one", "/nix/store/d-broken"]), rows),
        Err(Error::Rusqlite("disk I/O error".to_string()))
    );
}

fn references(id: i64) -> Result<Vec<i64>, Error> {
    match id {
        1 => Ok(vec![2]),
        2 => Ok(vec![3, 1]),
        9 => Err(Error::Rusqlite("no such row".to_string())),
        _ => Ok(vec![]),
    }
}

#[test]
fn id_closures_with_and_without_closure() {
    let set = |ids: &[i64]| ids.iter().copied().collect::<std::collections::HashSet<i64>>();
    let o = options();
    assert_eq!(id_closures(&o, &vec![1], references), Ok(set(&[1, 2, 3])));
    assert_eq!(id_closures(&o, &vec![3, 3], references), Ok(set(&[3])));
    assert_eq!(id_closures(&o, &vec![1, 9], references), Err(Error::Rusqlite("no such row".to_string())));
    let alone = PushOptions { no_closure: true, ..options() };
    assert_eq!(id_closures(&alone, &vec![1, 1, 9], references), Ok(set(&[1, 9])));
    assert_eq!(id_closures(&alone, &vec![], references), Ok(set(&[])));
}

fn sigs(id: i64) -> Result<Option<String>, Error> {
    match id {
        1 => Ok(None),
        2 => Ok(Some("cache.nixos.org-1:AAAA".to_string())),
        3 => Ok(Some("someone-1:AAAA".to_string())),
        4 => Ok(Some("mine-1:AAAA someone-1:BBBB".to_string())),
        5 => Ok(Some("garbage".to_string())),
        6 => Err(Error::Rusqlite("no such row".to_string())),
        _ => Ok(Some("".to_string())),
    }
}

#[test]
fn filter_ids_keeps_what_the_policy_admits() {
    let o = options();
    let pair = key();
    assert_eq!(filter_ids(&o, &pair, &vec![4, 3, 2, 1, 7], sigs), Ok(vec![3, 1, 7]));
    assert_eq!(filter_ids(&o, &pair, &vec![], sigs), Ok(vec![]));
    let again = PushOptions { already_signed: true, ..options() };
    assert_eq!(filter_ids(&again, &pair, &vec![4, 3, 2, 1], sigs), Ok(vec![4, 3, 1]));
    assert_eq!(
        filter_ids(&o, &pair, &vec![1, 5, 6], sigs),
        Err(Error::InvalidSignature("garbage".to_string()))
    );
    assert_eq!(filter_ids(&o, &pair, &vec![6, 5], sigs), Err(Error::Rusqlite("no such row".to_string())));
}
