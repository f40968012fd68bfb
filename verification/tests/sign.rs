use oranc::codec::DecodeKind;
use oranc::error::Error;
use oranc::nix::sign::{Ed25519Error, NixKeyPair, NixSignature, NixSignatureList};

// The first two test vectors of RFC 8032: the secret key is the seed
// followed by the public key.
const SECRET_1: &str =
    "nWGxne/9WmC6hEr0kuwsxERJxWl7MmkZcDusAxyuf2DXWpgBgrEKt9VL/tPJZAc6DuFy89qmIyWvAhpo9wdRGg==";
const SIGNATURE_1_OF_EMPTY: &str =
    "5VZDAMNgrHKQhuLMgG6CioSHfx645dl02HPgZSJJAVVfuIIVkKM7rMYeOXAc+bRr0lv18FlbviRlUUFDjnoQCw==";
const SECRET_2: &str =
    "TM0Imyj/ltqdtsNG7BFOD1uKMZ81q6Yk2oz27U+4pvs9QBfD6EOJWpK3CqdNG368nJgszy7ElozAzVXxKvRmDA==";
const SIGNATURE_2_OF_72: &str =
    "kqAJqfDUyrhyDoILX2QlQKKye1QWUD+Ps3YiI+vbadoIWsHkPhWZbkWPNhPQ8R2MOHsurrQwKu6wDSkWErsMAA==";

fn key(name: &str, secret: &str) -> NixKeyPair {
    NixKeyPair::from_secret_key_str(&format!("{}:{}", name, secret)).unwrap()
}

fn sig(name: &str, signature: &str) -> NixSignature {
    NixSignature { name: name.to_string(), signature: signature.to_string() }
}

#[test]
fn signature_from_str() {
    assert_eq!(NixSignature::from_str("name:c2ln").unwrap(), sig("name", "c2ln"));
    assert_eq!(NixSignature::from_str("a:b:c").unwrap(), sig("a", "b:c"));
    assert_eq!(NixSignature::from_str("a:").unwrap(), sig("a", ""));
    assert_eq!(NixSignature::from_str("a\nb:c").unwrap(), sig("a\nb", "c"));
    assert_eq!(NixSignature::from_str("cache.nixos.org-1:x y").unwrap(), sig("cache.nixos.org-1", "x y"));
    for bad in ["", ":", ":x", "abc", "a:b\n", "a:b\nc", "a:\n"] {
        assert_eq!(
            NixSignature::from_str(bad),
            Err(Error::InvalidSignature(bad.to_string())),
            "{:?}",
            bad
        );
    }
}

#[test]
fn signature_to_text() {
    assert_eq!(sig("k", "s").to_text(), "k:s");
    assert_eq!(NixSignature::from_str("k:s:t").unwrap().to_text(), "k:s:t");
}

#[test]
fn signature_list_from_str() {
    assert_eq!(NixSignatureList::from_str("").unwrap(), NixSignatureList(vec![]));
    assert_eq!(NixSignatureList::from_str("a:b").unwrap(), NixSignatureList(vec![sig("a", "b")]));
    assert_eq!(
        NixSignatureList::from_str("a:b c:d e:f").unwrap(),
        NixSignatureList(vec![sig("a", "b"), sig("c", "d"), sig("e", "f")])
    );
    assert_eq!(
        NixSignatureList::from_str("a:b  c:d"),
        Err(Error::InvalidSignature("".to_string()))
    );
    assert_eq!(NixSignatureList::from_str(" "), Err(Error::InvalidSignature("".to_string())));
    assert_eq!(NixSignatureList::from_str("a:b c"), Err(Error::InvalidSignature("c".to_string())));
    assert_eq!(
        NixSignatureList::from_str("x a:b"),
        Err(Error::InvalidSignature("x".to_string()))
    );
    assert_eq!(NixSignatureList::from_str("a:b "), Err(Error::InvalidSignature("".to_string())));
}

#[test]
fn signature_list_from_optional_str() {
    assert_eq!(NixSignatureList::from_optional_str(&None).unwrap(), NixSignatureList(vec![]));
    assert_eq!(
        NixSignatureList::from_optional_str(&Some("a:b c:d".to_string())).unwrap(),
        NixSignatureList(vec![sig("a", "b"), sig("c", "d")])
    );
    assert_eq!(
        NixSignatureList::from_optional_str(&Some("zz".to_string())),
        Err(Error::InvalidSignature("zz".to_string()))
    );
    assert_eq!(NixSignatureList::new(), NixSignatureList(vec![]));
}

#[test]
fn signature_list_to_text() {
    assert_eq!(NixSignatureList(vec![]).to_text(), "");
    assert_eq!(NixSignatureList(vec![sig("a", "b")]).to_text(), "a:b");
    assert_eq!(NixSignatureList(vec![sig("a", "b"), sig("c", "d")]).to_text(), "a:b c:d");
    let text = "k1:AAAA k2:BBBB k1:CCCC";
    assert_eq!(NixSignatureList::from_str(text).unwrap().to_text(), text);
}

#[test]
fn key_pair_from_secret_key_str() {
    let pair = key("test-1", SECRET_1);
    assert_eq!(pair.name(), "test-1");
    assert_eq!(
        data_encoding::BASE64.encode(&pair.public_key()),
        "11qYAYKxCrfVS/7TyWQHOg7hcvPapiMlrwIaaPcHURo="
    );
    let copy = pair.clone();
    assert_eq!(copy.name(), "test-1");
    assert_eq!(copy.public_key(), pair.public_key());
}

#[test]
fn key_pair_from_secret_key_str_failures() {
    for bad in ["", "nocolon", ":AAAA", "k:a\nb"] {
        assert!(
            matches!(NixKeyPair::from_secret_key_str(bad), Err(Error::InvalidSigningKey(s)) if s == bad),
            "{:?}",
            bad
        );
    }
    match NixKeyPair::from_secret_key_str("k:!!!!") {
        Err(Error::Decode(e)) => {
            assert_eq!(e.kind, DecodeKind::Symbol);
            assert_eq!(e.position, 0);
        }
        other => panic!("{:?}", other.map(|_| ())),
    }
    match NixKeyPair::from_secret_key_str("k:AAA") {
        Err(Error::Decode(e)) => assert_eq!(e.kind, DecodeKind::Length),
        other => panic!("{:?}", other.map(|_| ())),
    }
    for short in ["k:", "k:AAAA", "k:11qYAYKxCrfVS/7TyWQHOg7hcvPapiMlrwIaaPcHURo="] {
        assert!(matches!(
            NixKeyPair::from_secret_key_str(short),
            Err(Error::Ed25519(Ed25519Error::InvalidSecretKey))
        ));
    }
}

#[test]
fn key_pair_sign_gives_the_signature_of_the_standard() {
    let one = key("k", SECRET_1).sign(b"").unwrap();
    assert_eq!(one, sig("k", SIGNATURE_1_OF_EMPTY));
    let two = key("other", SECRET_2).sign(&[0x72]).unwrap();
    assert_eq!(two, sig("other", SIGNATURE_2_OF_72));
    // Without noise the same message gives the same signature.
    assert_eq!(key("k", SECRET_1).sign(b"abc").unwrap(), key("k", SECRET_1).sign(b"abc").unwrap());
}

#[test]
fn key_pair_verify() {
    let pair = key("k", SECRET_1);
    assert_eq!(pair.verify(b"", &sig("k", SIGNATURE_1_OF_EMPTY)), Ok(()));
    // The name plays no part in the verification.
    assert_eq!(pair.verify(b"", &sig("someone", SIGNATURE_1_OF_EMPTY)), Ok(()));
    assert_eq!(
        pair.verify(b"x", &sig("k", SIGNATURE_1_OF_EMPTY)),
        Err(Error::Ed25519(Ed25519Error::SignatureMismatch))
    );
    assert_eq!(
        pair.verify(&[0x72], &sig("k", SIGNATURE_2_OF_72)),
        Err(Error::Ed25519(Ed25519Error::SignatureMismatch))
    );
    assert_eq!(
        pair.verify(b"", &sig("k", "AAAA")),
        Err(Error::Ed25519(Ed25519Error::InvalidSignature))
    );
    assert_eq!(pair.verify(b"", &sig("k", "")), Err(Error::Ed25519(Ed25519Error::InvalidSignature)));
    assert!(matches!(pair.verify(b"", &sig("k", "not base64")), Err(Error::Decode(_))));
    let message = b"1;/nix/store/abc-x;sha256:0000;12;";
    let made = pair.sign(message).unwrap();
    assert_eq!(pair.verify(message, &made), Ok(()));
}

#[test]
fn merge_keeps_an_equal_signature() {
    let pair = key("K1", SECRET_1);
    let s1 = pair.sign(b"payload").unwrap();
    let mut list = NixSignatureList(vec![s1.clone()]);
    assert_eq!(list.merge(&pair, b"payload", s1.clone()), Ok(()));
    assert_eq!(list, NixSignatureList(vec![s1]));
}

#[test]
fn merge_refuses_a_different_signature() {
    let pair = key("K1", SECRET_1);
    let s1 = pair.sign(b"payload").unwrap();
    let mut list = NixSignatureList(vec![sig("other", "zzzz"), s1.clone()]);
    let different = sig("K1", SIGNATURE_1_OF_EMPTY);
    assert_eq!(
        list.merge(&pair, b"payload", different),
        Err(Error::SignatureMismatch {
            name: "K1".to_string(),
            new: SIGNATURE_1_OF_EMPTY.to_string(),
            exists: s1.signature.clone(),
        })
    );
    assert_eq!(list, NixSignatureList(vec![sig("other", "zzzz"), s1]));
}

#[test]
fn merge_appends_a_new_signature_at_the_end() {
    let pair = key("K1", SECRET_1);
    let new = pair.sign(b"payload").unwrap();
    let mut list = NixSignatureList(vec![sig("b", "not even base64"), sig("a", "x")]);
    assert_eq!(list.merge(&pair, b"payload", new.clone()), Ok(()));
    assert_eq!(
        list,
        NixSignatureList(vec![sig("b", "not even base64"), sig("a", "x"), new.clone()])
    );
    let mut empty = NixSignatureList(vec![]);
    assert_eq!(empty.merge(&pair, b"payload", new.clone()), Ok(()));
    assert_eq!(empty, NixSignatureList(vec![new]));
}

#[test]
fn merge_verifies_what_bears_the_name() {
    let pair = key("K1", SECRET_1);
    let new = pair.sign(b"payload").unwrap();
    // A signature by the same key over something else does not verify.
    let stale = pair.sign(b"old payload").unwrap();
    let mut list = NixSignatureList(vec![stale.clone()]);
    assert_eq!(
        list.merge(&pair, b"payload", new.clone()),
        Err(Error::Ed25519(Ed25519Error::SignatureMismatch))
    );
    assert_eq!(list, NixSignatureList(vec![stale]));
    let mut broken = NixSignatureList(vec![sig("K1", "????")]);
    assert!(matches!(broken.merge(&pair, b"payload", new.clone()), Err(Error::Decode(_))));
    let mut short = NixSignatureList(vec![sig("K1", "AAAA")]);
    assert_eq!(
        short.merge(&pair, b"payload", new.clone()),
        Err(Error::Ed25519(Ed25519Error::InvalidSignature))
    );
    // The first entry in conflict decides.
    let mut two = NixSignatureList(vec![new.clone(), sig("K1", "AAAA"), sig("K1", "????")]);
    assert_eq!(
        two.merge(&pair, b"payload", new),
        Err(Error::Ed25519(Ed25519Error::InvalidSignature))
    );
}

#[test]
fn merged_signature_verifies() {
    let pair = key("K1", SECRET_2);
    let payload = b"1;/nix/store/abc-x;sha256:0000;12;/nix/store/def-y";
    let new = pair.sign(payload).unwrap();
    let mut list = NixSignatureList::from_str("cache.example.org-1:AAAA").unwrap();
    list.merge(&pair, payload, new).unwrap();
    for entry in list.0.iter().filter(|s| s.name == "K1") {
        assert_eq!(pair.verify(payload, entry), Ok(()));
    }
    assert_eq!(list.0.len(), 2);
}

#[test]
fn signature_text_has_88_characters() {
    let pair = key("k", SECRET_2);
    for message in [&b""[..], &b"a"[..], &[0u8; 1000][..]] {
        let made = pair.sign(message).unwrap();
        assert_eq!(made.signature.len(), 88);
        assert_eq!(made.signature.chars().count(), 88);
    }
}
