//! Signatures over archive descriptors.
//!
//! A signature is written as `name:base64`, where the name is that of the
//! key and the rest is an Ed25519 signature in base64. A list of them is
//! written with single spaces between them.

use crate::codec::{base64_decode, base64_encode, decode_limit, decoded, encoded, Alphabet};
use crate::error::Error;
use crate::text::{
    chars_of, concat3, find, join, lemma_position, lemma_utf8_len, lemma_utf8_subrange, occurs,
    position,
    slice_between, string_of, tail_from,
};
use ed25519_compact::Error as Refusal;
use ed25519_compact::{PublicKey, SecretKey, Signature};
use vstd::prelude::*;
use vstd::utf8::encode_utf8;

verus! {

/// Why the Ed25519 primitive refused a key or a signature.
#[derive(Debug, Clone, Copy, PartialEq, Eq, Structural)]
pub enum Ed25519Error {
    /// The signature does not verify.
    SignatureMismatch,
    /// A weak public key was used.
    WeakPublicKey,
    /// The public key is invalid.
    InvalidPublicKey,
    /// The secret key is invalid.
    InvalidSecretKey,
    /// The signature is invalid.
    InvalidSignature,
    /// The seed is invalid.
    InvalidSeed,
    /// The blind is invalid.
    InvalidBlind,
    /// The noise is invalid.
    InvalidNoise,
    /// A key could not be parsed.
    ParseError,
    /// An encoding is not canonical.
    NonCanonical,
}

/// The signature that `ed25519_compact::SecretKey::sign` gives, without
/// noise, for a message under a secret key of 64 bytes.
pub uninterp spec fn ed25519_signature(secret_key: Seq<u8>, message: Seq<u8>) -> Seq<u8>;

/// What `ed25519_compact::PublicKey::verify` says of a signature of 64 bytes
/// for a message under a public key of 32 bytes.
pub uninterp spec fn ed25519_verification(
    public_key: Seq<u8>,
    message: Seq<u8>,
    signature: Seq<u8>,
) -> Result<(), Ed25519Error>;

/// Signs a message.
///
/// Calls `ed25519_compact::SecretKey::from_slice` and `sign` with no noise,
/// which makes the signature a function of key and message. The result is
/// named `ed25519_signature`; a signature has 64 bytes. Keys of another
/// length than 64 bytes are left out: the crate refuses them.
#[verifier::external_body]
pub(crate) fn ed25519_sign(secret_key: &[u8], message: &[u8]) -> (signature: Vec<u8>)
    requires
        secret_key@.len() == 64,
    ensures
        signature@ == ed25519_signature(secret_key@, message@),
        signature@.len() == 64,
{
    let key = SecretKey::from_slice(secret_key).unwrap();
    key.sign(message, None).to_vec()
}

/// Verifies a signature.
///
/// Calls `ed25519_compact::PublicKey::from_slice`, `Signature::from_slice`
/// and `PublicKey::verify`. The result is named `ed25519_verification`. Keys
/// of another length than 32 bytes and signatures of another length than 64
/// bytes are left out: the crate refuses them before it verifies.
#[verifier::external_body]
pub(crate) fn ed25519_verify(public_key: &[u8], message: &[u8], signature: &[u8]) -> (r: Result<
    (),
    Ed25519Error,
>)
    requires
        public_key@.len() == 32,
        signature@.len() == 64,
    ensures
        r == ed25519_verification(public_key@, message@, signature@),
{
    let key = PublicKey::from_slice(public_key).unwrap();
    let signature = Signature::from_slice(signature).unwrap();
    key.verify(message, &signature).map_err(|e| match e {
        Refusal::SignatureMismatch => Ed25519Error::SignatureMismatch,
        Refusal::WeakPublicKey => Ed25519Error::WeakPublicKey,
        Refusal::InvalidPublicKey => Ed25519Error::InvalidPublicKey,
        Refusal::InvalidSecretKey => Ed25519Error::InvalidSecretKey,
        Refusal::InvalidSignature => Ed25519Error::InvalidSignature,
        Refusal::InvalidSeed => Ed25519Error::InvalidSeed,
        Refusal::InvalidBlind => Ed25519Error::InvalidBlind,
        Refusal::InvalidNoise => Ed25519Error::InvalidNoise,
        Refusal::ParseError => Ed25519Error::ParseError,
        Refusal::NonCanonical => Ed25519Error::NonCanonical,
    })
}

/// Whether text is within the limit of the base64 decoder.
pub open spec fn decodable(text: Seq<char>) -> bool {
    encode_utf8(text).len() <= decode_limit()
}

/// The two parts of `name:rest`: what stands before the first colon, which
/// may not be empty, and what stands after it, which may not hold a line
/// feed. There are none where the text has another form.
pub open spec fn sig_parts(s: Seq<char>) -> Option<(Seq<char>, Seq<char>)> {
    let i = position(s, ':', 0);
    if 0 < i && i < s.len() && !occurs(s.skip(i + 1), '\n') {
        Some((s.take(i), s.skip(i + 1)))
    } else {
        None
    }
}

/// The second part of `name:rest` is within the limit of the base64 decoder
/// where the whole is.
pub proof fn lemma_sig_parts_decodable(s: Seq<char>)
    requires
        decodable(s),
    ensures
        sig_parts(s) matches Some(parts) ==> decodable(parts.1),
{
    lemma_position(s, ':', 0);
    let i = position(s, ':', 0);
    if i < s.len() {
        assert(s.skip(i + 1) =~= s.subrange(i + 1, s.len() as int));
        lemma_utf8_subrange(s, i + 1, s.len() as int);
    }
}

/// Splits `name:rest` into its two parts.
pub fn split_sig(s: &Vec<char>) -> (r: Option<(Vec<char>, Vec<char>)>)
    ensures
        match sig_parts(s@) {
            Some(parts) => r matches Some(found) && found.0@ == parts.0 && found.1@ == parts.1,
            None => r is None,
        },
{
    let i = find(s, ':', 0);
    if i == 0 || i >= s.len() {
        return None;
    }
    let rest = tail_from(s, i + 1);
    if find(&rest, '\n', 0) < rest.len() {
        return None;
    }
    let name = slice_between(s, 0, i);
    assert(name@ =~= s@.take(i as int));
    Some((name, rest))
}

/// The signatures that the text from index `from` on lists, or the first
/// part of it that is no signature.
pub open spec fn list_from(s: Seq<char>, from: int) -> Result<
    Seq<(Seq<char>, Seq<char>)>,
    Seq<char>,
>
    decreases s.len() - from,
{
    let end = position(s, ' ', from);
    let token = s.subrange(from, end);
    match sig_parts(token) {
        None => Err(token),
        Some(parts) => if end >= s.len() || end < from {
            Ok(seq![parts])
        } else {
            match list_from(s, end + 1) {
                Ok(rest) => Ok(seq![parts] + rest),
                Err(token) => Err(token),
            }
        },
    }
}

/// The signatures that a text lists, or the first part of it that is no
/// signature. The parts stand between single spaces; the empty text lists
/// nothing.
pub open spec fn parsed_list(s: Seq<char>) -> Result<Seq<(Seq<char>, Seq<char>)>, Seq<char>> {
    if s.len() == 0 {
        Ok(Seq::empty())
    } else {
        list_from(s, 0)
    }
}

/// The signatures that a text lists are within the limit of the base64
/// decoder where the text is.
pub proof fn lemma_list_decodable(s: Seq<char>, from: int)
    requires
        0 <= from <= s.len(),
        decodable(s),
        list_from(s, from) is Ok,
    ensures
        forall|i: int|
            0 <= i < list_from(s, from)->Ok_0.len() ==> decodable(
                (#[trigger] list_from(s, from)->Ok_0[i]).1,
            ),
    decreases s.len() - from,
{
    lemma_position(s, ' ', from);
    let end = position(s, ' ', from);
    let token = s.subrange(from, end);
    lemma_utf8_subrange(s, from, end);
    lemma_sig_parts_decodable(token);
    let parts = sig_parts(token)->0;
    if end < s.len() {
        lemma_list_decodable(s, end + 1);
        let rest = list_from(s, end + 1)->Ok_0;
        let list = list_from(s, from)->Ok_0;
        assert(list == seq![parts] + rest);
        assert forall|i: int| 0 <= i < list.len() implies decodable((#[trigger] list[i]).1) by {
            if i > 0 {
                assert(list[i] == rest[i - 1]);
            }
        }
    }
}

/// The signatures of a database row are within the limit of the base64
/// decoder where the text of the row is.
pub proof fn lemma_row_sigs_decodable(sigs: Option<String>)
    requires
        sigs matches Some(text) ==> decodable(text@),
        row_sigs(sigs) is Ok,
    ensures
        forall|i: int|
            0 <= i < row_sigs(sigs)->Ok_0.len() ==> decodable((#[trigger] row_sigs(sigs)->Ok_0[i]).1),
{
    match sigs {
        Some(text) => {
            if text@.len() > 0 {
                lemma_list_decodable(text@, 0);
            }
        },
        None => {},
    }
}

/// The signatures of a database row: none where the row holds none.
pub open spec fn row_sigs(sigs: Option<String>) -> Result<Seq<(Seq<char>, Seq<char>)>, Seq<char>> {
    match sigs {
        Some(text) => parsed_list(text@),
        None => Ok(Seq::empty()),
    }
}

/// `rest` after `head`, where there is a rest.
pub open spec fn after_list(
    head: Seq<(Seq<char>, Seq<char>)>,
    rest: Result<Seq<(Seq<char>, Seq<char>)>, Seq<char>>,
) -> Result<Seq<(Seq<char>, Seq<char>)>, Seq<char>> {
    match rest {
        Ok(rest) => Ok(head + rest),
        Err(token) => Err(token),
    }
}

/// What verifying a signature in base64 against a message says: the
/// decoder's failure where the text is no base64, `InvalidSignature` where it
/// does not stand for 64 bytes, and what the primitive says otherwise.
pub open spec fn verification(public_key: Seq<u8>, message: Seq<u8>, signature: Seq<char>) -> Result<
    (),
    Error,
> {
    match decoded(Alphabet::Base64, encode_utf8(signature)) {
        Err(failure) => Err(Error::Decode(failure)),
        Ok(bytes) => if bytes.len() != 64 {
            Err(Error::Ed25519(Ed25519Error::InvalidSignature))
        } else {
            match ed25519_verification(public_key, message, bytes) {
                Ok(()) => Ok(()),
                Err(refusal) => Err(Error::Ed25519(refusal)),
            }
        },
    }
}

/// A signature: the name of the key, and the signature in base64.
#[derive(Debug, Clone, PartialEq, Eq)]
pub struct NixSignature {
    pub name: String,
    pub signature: String,
}

impl View for NixSignature {
    type V = (Seq<char>, Seq<char>);

    open spec fn view(&self) -> (Seq<char>, Seq<char>) {
        (self.name@, self.signature@)
    }
}

impl NixSignature {
    /// Reads `name:signature`. Fails with `InvalidSignature` where the text
    /// has another form.
    pub fn from_str(s: &str) -> (r: Result<NixSignature, Error>)
        ensures
            match sig_parts(s@) {
                Some(parts) => r matches Ok(sig) && sig@ == parts,
                None => r matches Err(Error::InvalidSignature(t)) && t@ == s@,
            },
    {
        let chars = chars_of(s);
        match split_sig(&chars) {
            Some((name, signature)) => Ok(
                NixSignature {
                    name: string_of(name.as_slice()),
                    signature: string_of(signature.as_slice()),
                },
            ),
            None => Err(Error::InvalidSignature(s.to_owned())),
        }
    }

    /// The signature written as `name:signature`.
    pub open spec fn display_text(self) -> Seq<char> {
        self.name@ + ":"@ + self.signature@
    }

    /// Writes the signature as `name:signature`.
    pub fn to_text(&self) -> (s: String)
        ensures
            s@ == self.display_text(),
    {
        concat3(self.name.as_str(), ":", self.signature.as_str())
    }
}

/// The signatures of one archive descriptor, in their order.
#[derive(Debug, Clone, PartialEq, Eq)]
pub struct NixSignatureList(pub Vec<NixSignature>);

impl View for NixSignatureList {
    type V = Seq<(Seq<char>, Seq<char>)>;

    open spec fn view(&self) -> Seq<(Seq<char>, Seq<char>)> {
        self.0@.map_values(|sig: NixSignature| sig@)
    }
}

/// The first entry of the list, from index `from` on, that bears the name of
/// the new signature and either fails to verify or differs from it.
pub open spec fn first_conflict(
    list: Seq<(Seq<char>, Seq<char>)>,
    public_key: Seq<u8>,
    message: Seq<u8>,
    new: (Seq<char>, Seq<char>),
    from: int,
) -> Option<int>
    decreases list.len() - from,
{
    if from < 0 || from >= list.len() {
        None
    } else if list[from].0 == new.0 && (verification(public_key, message, list[from].1) is Err
        || list[from].1 != new.1) {
        Some(from)
    } else {
        first_conflict(list, public_key, message, new, from + 1)
    }
}

/// Whether `e` is the failure that an entry of the list which conflicts with
/// the new signature ends the merge with: the failure of its verification,
/// or `SignatureMismatch` with the name of the key and the two signatures.
pub open spec fn conflict_error(
    public_key: Seq<u8>,
    message: Seq<u8>,
    entry: (Seq<char>, Seq<char>),
    new: (Seq<char>, Seq<char>),
    e: Error,
) -> bool {
    match verification(public_key, message, entry.1) {
        Err(failure) => e == failure,
        Ok(()) => {
            &&& e matches Error::SignatureMismatch { name, new: added, exists }
            &&& name@ == new.0
            &&& added@ == new.1
            &&& exists@ == entry.1
        },
    }
}

/// The list after a merge without conflict: as it was where an entry bears
/// the name of the new signature, and with the new signature at its end
/// otherwise.
pub open spec fn merged(list: Seq<(Seq<char>, Seq<char>)>, new: (Seq<char>, Seq<char>)) -> Seq<
    (Seq<char>, Seq<char>),
> {
    if has_name(list, new.0) {
        list
    } else {
        list.push(new)
    }
}

/// Whether an entry of the list bears the given name.
pub open spec fn has_name(list: Seq<(Seq<char>, Seq<char>)>, name: Seq<char>) -> bool {
    exists|i: int| 0 <= i < list.len() && (#[trigger] list[i]).0 == name
}

/// A conflict lies within the list, at an entry that conflicts, and no entry
/// before it does.
pub proof fn lemma_first_conflict(
    list: Seq<(Seq<char>, Seq<char>)>,
    public_key: Seq<u8>,
    message: Seq<u8>,
    new: (Seq<char>, Seq<char>),
    from: int,
)
    requires
        0 <= from,
    ensures
        match first_conflict(list, public_key, message, new, from) {
            Some(i) => from <= i < list.len() && list[i].0 == new.0 && (verification(
                public_key,
                message,
                list[i].1,
            ) is Err || list[i].1 != new.1),
            None => forall|k: int|
                from <= k < list.len() && (#[trigger] list[k]).0 == new.0 ==> verification(
                    public_key,
                    message,
                    list[k].1,
                ) is Ok && list[k].1 == new.1,
        },
    decreases list.len() - from,
{
    if from < list.len() && !(list[from].0 == new.0 && (verification(
        public_key,
        message,
        list[from].1,
    ) is Err || list[from].1 != new.1)) {
        lemma_first_conflict(list, public_key, message, new, from + 1);
    }
}

/// After a merge without conflict, every signature of the list that bears
/// the name of the new one verifies against the message, provided that the
/// new one does: those that were there have been verified, and equal it.
pub proof fn lemma_merged_signatures_verify(
    list: Seq<(Seq<char>, Seq<char>)>,
    public_key: Seq<u8>,
    message: Seq<u8>,
    new: (Seq<char>, Seq<char>),
    i: int,
)
    requires
        first_conflict(list, public_key, message, new, 0) is None,
        verification(public_key, message, new.1) is Ok,
        0 <= i < merged(list, new).len(),
        merged(list, new)[i].0 == new.0,
    ensures
        merged(list, new)[i].1 == new.1,
        verification(public_key, message, merged(list, new)[i].1) is Ok,
{
    lemma_first_conflict(list, public_key, message, new, 0);
    if i < list.len() {
        assert(list[i].0 == new.0);
    }
}

impl NixSignatureList {
    /// The list without entries.
    pub fn new() -> (list: NixSignatureList)
        ensures
            list@ == Seq::<(Seq<char>, Seq<char>)>::empty(),
    {
        let list = NixSignatureList(Vec::new());
        assert(list@ =~= Seq::<(Seq<char>, Seq<char>)>::empty());
        list
    }

    /// Reads signatures separated by single spaces; the empty text gives the
    /// empty list. Fails with `InvalidSignature`, and the part in question,
    /// at the first part that is no signature.
    pub fn from_str(s: &str) -> (r: Result<NixSignatureList, Error>)
        ensures
            match parsed_list(s@) {
                Ok(entries) => r matches Ok(list) && list@ == entries,
                Err(token) => r matches Err(Error::InvalidSignature(t)) && t@ == token,
            },
    {
        let chars = chars_of(s);
        let n = chars.len();
        let mut entries: Vec<NixSignature> = Vec::new();
        if n == 0 {
            return Ok(NixSignatureList::new());
        }
        let mut from: usize = 0;
        let ghost done = Seq::<(Seq<char>, Seq<char>)>::empty();
        assert(entries@.map_values(|sig: NixSignature| sig@) =~= done);
        assert(done + list_from(chars@, 0)->Ok_0 =~= list_from(chars@, 0)->Ok_0);
        loop
            invariant
                from <= n,
                n == chars.len(),
                chars@ == s@,
                parsed_list(s@) == after_list(
                    entries@.map_values(|sig: NixSignature| sig@),
                    list_from(chars@, from as int),
                ),
            decreases n - from,
        {
            let end = find(&chars, ' ', from);
            let token = slice_between(&chars, from, end);
            let ghost before = entries@.map_values(|sig: NixSignature| sig@);
            match split_sig(&token) {
                None => {
                    return Err(Error::InvalidSignature(string_of(token.as_slice())));
                },
                Some((name, signature)) => {
                    let entry = NixSignature {
                        name: string_of(name.as_slice()),
                        signature: string_of(signature.as_slice()),
                    };
                    entries.push(entry);
                    proof {
                        let now = entries@.map_values(|sig: NixSignature| sig@);
                        assert(now =~= before.push(entry@));
                        if end < n {
                            let rest = list_from(chars@, end + 1);
                            if rest is Ok {
                                assert(now + rest->Ok_0 =~= before + (seq![entry@] + rest->Ok_0));
                            }
                        } else {
                            assert(now =~= before + seq![entry@]);
                        }
                    }
                },
            }
            if end >= n {
                return Ok(NixSignatureList(entries));
            }
            from = end + 1;
        }
    }

    /// Reads the signatures of a database row: none where the row has none.
    pub fn from_optional_str(s: &Option<String>) -> (r: Result<NixSignatureList, Error>)
        ensures
            match row_sigs(*s) {
                Ok(entries) => r matches Ok(list) && list@ == entries,
                Err(token) => r matches Err(Error::InvalidSignature(t)) && t@ == token,
            },
    {
        match s {
            None => Ok(NixSignatureList::new()),
            Some(text) => NixSignatureList::from_str(text.as_str()),
        }
    }

    /// The signatures written one after the other, with a space between
    /// neighbours.
    pub open spec fn display_text(self) -> Seq<char> {
        crate::text::joined(self.0@.map_values(|sig: NixSignature| sig.display_text()), " "@)
    }

    /// Writes the signatures one after the other, with a space between
    /// neighbours.
    pub fn to_text(&self) -> (s: String)
        ensures
            s@ == self.display_text(),
    {
        let mut items: Vec<String> = Vec::new();
        let mut i: usize = 0;
        while i < self.0.len()
            invariant
                i <= self.0.len(),
                crate::text::views(items@) == self.0@.take(i as int).map_values(
                    |sig: NixSignature| sig.display_text(),
                ),
            decreases self.0.len() - i,
        {
            let ghost before = crate::text::views(items@);
            let item = self.0[i].to_text();
            items.push(item);
            assert(crate::text::views(items@) =~= before.push(item@));
            assert(self.0@.take(i + 1).map_values(|sig: NixSignature| sig.display_text())
                =~= before.push(item@));
            i += 1;
        }
        assert(self.0@.take(self.0.len() as int) =~= self.0@);
        join(&items, " ")
    }
}

/// Whether `r` is what reading a key from `name:base64` gives: the failure
/// `InvalidSigningKey` where the text has another form, the decoder's
/// failure where the second part is no base64, `InvalidSecretKey` where it
/// does not stand for 64 bytes, and else the key of that name and those
/// bytes.
pub open spec fn key_read(s: Seq<char>, r: Result<NixKeyPair, Error>) -> bool {
    match sig_parts(s) {
        None => r matches Err(Error::InvalidSigningKey(t)) && t@ == s,
        Some(parts) => match decoded(Alphabet::Base64, encode_utf8(parts.1)) {
            Err(failure) => r matches Err(e) && e == Error::Decode(failure),
            Ok(bytes) => if bytes.len() == 64 {
                r matches Ok(pair) && pair.name_text() == parts.0 && pair.secret() == bytes
            } else {
                r matches Err(e) && e == Error::Ed25519(Ed25519Error::InvalidSecretKey)
            },
        },
    }
}

/// A named signing key: the name, and the 64 bytes of an Ed25519 secret key,
/// whose last 32 bytes are the public key.
#[derive(Debug)]
pub struct NixKeyPair {
    name: String,
    secret_key: Vec<u8>,
}

impl Clone for NixKeyPair {
    fn clone(&self) -> (r: Self)
        ensures
            r.name_text() == self.name_text(),
            r.secret() == self.secret(),
    {
        proof {
            use_type_invariant(self);
        }
        NixKeyPair { name: self.name.clone(), secret_key: self.secret_key.clone() }
    }
}

impl NixKeyPair {
    #[verifier::type_invariant]
    spec fn well_formed(self) -> bool {
        self.secret_key@.len() == 64
    }

    /// The name of the key.
    pub closed spec fn name_text(self) -> Seq<char> {
        self.name@
    }

    /// The bytes of the secret key.
    pub closed spec fn secret(self) -> Seq<u8> {
        self.secret_key@
    }

    /// The bytes of the public key: the second half of the secret key.
    pub open spec fn public(self) -> Seq<u8> {
        self.secret().subrange(32, 64)
    }

    /// Reads a key from `name:base64`. Fails with `InvalidSigningKey` where
    /// the text has another form, with the decoder's failure where the second
    /// part is no base64, and with `InvalidSecretKey` where it does not stand
    /// for 64 bytes.
    pub fn from_secret_key_str(s: &str) -> (r: Result<NixKeyPair, Error>)
        requires
            decodable(s@),
        ensures
            key_read(s@, r),
    {
        proof {
            lemma_sig_parts_decodable(s@);
        }
        let chars = chars_of(s);
        let (name, text) = match split_sig(&chars) {
            Some(parts) => parts,
            None => {
                return Err(Error::InvalidSigningKey(s.to_owned()));
            },
        };
        let text = string_of(text.as_slice());
        let secret_key = match base64_decode(text.as_str().as_bytes()) {
            Ok(bytes) => bytes,
            Err(failure) => {
                return Err(Error::Decode(failure));
            },
        };
        if secret_key.len() != 64 {
            return Err(Error::Ed25519(Ed25519Error::InvalidSecretKey));
        }
        Ok(NixKeyPair { name: string_of(name.as_slice()), secret_key })
    }

    /// The name of the key.
    pub fn name(&self) -> (name: &String)
        ensures
            name@ == self.name_text(),
    {
        &self.name
    }

    /// The bytes of the public key.
    pub fn public_key(&self) -> (key: Vec<u8>)
        ensures
            key@ == self.public(),
            key@.len() == 32,
    {
        proof {
            use_type_invariant(self);
        }
        let mut key: Vec<u8> = Vec::new();
        let mut i: usize = 32;
        while i < 64
            invariant
                32 <= i <= 64,
                self.secret_key@.len() == 64,
                key@ == self.secret_key@.subrange(32, i as int),
            decreases 64 - i,
        {
            key.push(self.secret_key[i]);
            i += 1;
        }
        key
    }

    /// Signs `data`: the key's name with the Ed25519 signature in base64,
    /// which has 88 characters and is within the limit of the decoder.
    pub fn sign(&self, data: &[u8]) -> (r: Result<NixSignature, Error>)
        ensures
            r matches Ok(sig) && sig.name@ == self.name_text() && sig.signature@ == encoded(
                Alphabet::Base64,
                ed25519_signature(self.secret(), data@),
            ) && sig.signature@.len() == 88 && decodable(sig.signature@),
    {
        proof {
            use_type_invariant(self);
        }
        let signature = ed25519_sign(self.secret_key.as_slice(), data);
        let encoded_sign = base64_encode(signature.as_slice());
        proof {
            lemma_utf8_len(encoded_sign@);
        }
        Ok(NixSignature { name: self.name.clone(), signature: encoded_sign })
    }

    /// Verifies a signature over `data` with the public key.
    pub fn verify(&self, data: &[u8], signature: &NixSignature) -> (r: Result<(), Error>)
        requires
            decodable(signature.signature@),
        ensures
            r == verification(self.public(), data@, signature.signature@),
    {
        let bytes = match base64_decode(signature.signature.as_str().as_bytes()) {
            Ok(bytes) => bytes,
            Err(failure) => {
                return Err(Error::Decode(failure));
            },
        };
        if bytes.len() != 64 {
            return Err(Error::Ed25519(Ed25519Error::InvalidSignature));
        }
        let key = self.public_key();
        match ed25519_verify(key.as_slice(), data, bytes.as_slice()) {
            Ok(()) => Ok(()),
            Err(refusal) => Err(Error::Ed25519(refusal)),
        }
    }
}

impl NixSignatureList {
    /// Whether every entry that bears `name` is within the limit of the
    /// base64 decoder.
    pub open spec fn checkable(self, name: Seq<char>) -> bool {
        forall|i: int| 0 <= i < self@.len() && (#[trigger] self@[i]).0 == name ==> decodable(self@[i].1)
    }

    /// Merges a new signature, made by `key_pair` over `data`, into the list.
    ///
    /// Each entry that bears the name of the new signature is verified
    /// against `data`, and must equal the new signature. At the first that
    /// fails to verify, the failure comes back; at the first that differs,
    /// `SignatureMismatch`; the list is then as it was. Otherwise the new
    /// signature is added at the end, unless an entry bears its name.
    pub fn merge(&mut self, key_pair: &NixKeyPair, data: &[u8], new: NixSignature) -> (r: Result<
        (),
        Error,
    >)
        requires
            key_pair.name_text() == new.name@,
            old(self).checkable(new.name@),
        ensures
            match first_conflict(old(self)@, key_pair.public(), data@, new@, 0) {
                Some(i) => {
                    &&& final(self)@ == old(self)@
                    &&& r matches Err(e)
                    &&& conflict_error(key_pair.public(), data@, old(self)@[i], new@, e)
                },
                None => r is Ok && final(self)@ == merged(old(self)@, new@),
            },
            r is Ok ==> forall|k: int|
                0 <= k < final(self)@.len() && (#[trigger] final(self)@[k]).0 == new.name@
                    ==> final(self)@[k].1 == new.signature@,
    {
        let ghost list = self@;
        let ghost public_key = key_pair.public();
        let mut already_exists = false;
        let mut i: usize = 0;
        while i < self.0.len()
            invariant
                i <= self.0.len(),
                self@ == list,
                list.len() == self.0.len(),
                public_key == key_pair.public(),
                self.checkable(new.name@),
                key_pair.name_text() == new.name@,
                first_conflict(list, public_key, data@, new@, 0) == first_conflict(
                    list,
                    public_key,
                    data@,
                    new@,
                    i as int,
                ),
                already_exists == (exists|k: int| 0 <= k < i && (#[trigger] list[k]).0 == new.name@),
                forall|k: int| 0 <= k < i && (#[trigger] list[k]).0 == new.name@ ==> list[k].1 == new.signature@,
            decreases self.0.len() - i,
        {
            assert(list[i as int] == self.0@[i as int]@);
            if self.0[i].name == new.name {
                match key_pair.verify(data, &self.0[i]) {
                    Ok(()) => {},
                    Err(e) => {
                        return Err(e);
                    },
                }
                already_exists = true;
                if self.0[i].signature != new.signature {
                    return Err(
                        Error::SignatureMismatch {
                            name: key_pair.name().clone(),
                            new: new.signature,
                            exists: self.0[i].signature.clone(),
                        },
                    );
                }
            }
            i += 1;
        }
        if !already_exists {
            let ghost added = new@;
            self.0.push(new);
            assert(self@ =~= list.push(added));
        }
        Ok(())
    }
}

} // verus!
