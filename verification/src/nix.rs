//! Store paths, archive descriptors and rows of the store's database.

pub mod closure;
pub mod sign;

use crate::error::Error;
use crate::nix::sign::{row_sigs, NixKeyPair, NixSignatureList};
use crate::options::PushOptions;
use crate::pattern::regex_matches;
use crate::text::{
    chars_of, concat3, decimal, decimal_text, find, has_prefix, join, joined, occurs,
    slice_between, sort_strings, sorted_texts, starts_with, string_of, tail_from, views,
};
use sha2::Digest;
use vstd::prelude::*;
use vstd::string::StringExecFns;

verus! {

/// The SHA-256 digest of a byte string, as the `sha2` crate computes it.
pub uninterp spec fn sha256(data: Seq<u8>) -> Seq<u8>;

/// The text that `nix_base32::to_nix_base32` gives for a byte string.
pub uninterp spec fn nix_base32_text(bytes: Seq<u8>) -> Seq<char>;

/// Computes a SHA-256 digest.
///
/// Calls `sha2::Sha256::digest`; the result is named `sha256`. A digest has
/// 32 bytes.
#[verifier::external_body]
pub(crate) fn sha256_digest(data: &[u8]) -> (digest: Vec<u8>)
    ensures
        digest@ == sha256(data@),
        digest@.len() == 32,
{
    sha2::Sha256::digest(data).to_vec()
}

/// Writes bytes in the base32 of the package manager.
///
/// Calls `nix_base32::to_nix_base32`; the result is named `nix_base32_text`.
/// The empty byte string is left out, and so are byte strings whose length
/// in bits does not fit: the crate computes the length of the text from it.
#[verifier::external_body]
pub(crate) fn to_nix_base32(bytes: &[u8]) -> (text: String)
    requires
        0 < bytes@.len() <= usize::MAX / 8,
    ensures
        text@ == nix_base32_text(bytes@),
{
    nix_base32::to_nix_base32(bytes)
}

/// A hash: the name of the algorithm, and the digest in base32.
#[derive(Debug, Clone, PartialEq, Eq)]
pub struct NixHash {
    pub algorithm: String,
    pub base32: String,
}

impl NixHash {
    /// The SHA-256 hash of `data`.
    pub fn hash_data(data: &[u8]) -> (hash: NixHash)
        ensures
            hash.algorithm@ == "sha256"@,
            hash.base32@ == nix_base32_text(sha256(data@)),
    {
        let digest = sha256_digest(data);
        NixHash { algorithm: String::from_str("sha256"), base32: to_nix_base32(digest.as_slice()) }
    }

    /// The hash written as `algorithm:base32`.
    pub open spec fn display_text(self) -> Seq<char> {
        self.algorithm@ + ":"@ + self.base32@
    }

    /// Writes the hash as `algorithm:base32`.
    pub fn to_text(&self) -> (s: String)
        ensures
            s@ == self.display_text(),
    {
        concat3(self.algorithm.as_str(), ":", self.base32.as_str())
    }
}

/// An archive descriptor.
#[derive(Debug, Clone)]
pub struct NarInfo {
    pub store_path: String,
    pub url: String,
    pub compression: String,
    pub file_hash: NixHash,
    pub file_size: usize,
    pub nar_hash: NixHash,
    pub nar_size: usize,
    /// The paths referred to, without the store directory.
    pub references: Vec<String>,
    /// The deriver, without the store directory.
    pub deriver: Option<String>,
    pub sigs: NixSignatureList,
    pub ca: Option<String>,
}

/// One line of a descriptor: the field's name, its value, and a line feed.
pub open spec fn line(field: Seq<char>, value: Seq<char>) -> Seq<char> {
    field + value + "\n"@
}

/// The line of an optional field: none where the field is absent.
pub open spec fn optional_line(field: Seq<char>, value: Option<Seq<char>>) -> Seq<char> {
    match value {
        Some(value) => line(field, value),
        None => Seq::empty(),
    }
}

/// The `Sig` lines of the first `n` signatures.
pub open spec fn sig_lines(sigs: Seq<(Seq<char>, Seq<char>)>, n: int) -> Seq<char>
    decreases n,
{
    if n <= 0 || n > sigs.len() {
        Seq::empty()
    } else {
        sig_lines(sigs, n - 1) + line("Sig: "@, sigs[n - 1].0 + ":"@ + sigs[n - 1].1)
    }
}

/// The fields of a descriptor, as texts and numbers.
pub struct NarInfoView {
    pub store_path: Seq<char>,
    pub url: Seq<char>,
    pub compression: Seq<char>,
    pub file_hash: Seq<char>,
    pub file_size: nat,
    pub nar_hash: Seq<char>,
    pub nar_size: nat,
    pub references: Seq<Seq<char>>,
    pub deriver: Option<Seq<char>>,
    pub sigs: Seq<(Seq<char>, Seq<char>)>,
    pub ca: Option<Seq<char>>,
}

/// A descriptor in its textual form: one line for each field, in a fixed
/// order; the deriver and the content address only where present; one `Sig`
/// line for each signature, in the order of the list.
pub open spec fn narinfo_text(info: NarInfoView) -> Seq<char> {
    line("StorePath: "@, info.store_path) + line("URL: "@, info.url) + line(
        "Compression: "@,
        info.compression,
    ) + line("FileHash: "@, info.file_hash) + line("FileSize: "@, decimal_text(info.file_size))
        + line("NarHash: "@, info.nar_hash) + line("NarSize: "@, decimal_text(info.nar_size)) + line(
        "References: "@,
        joined(info.references, " "@),
    ) + optional_line("Deriver: "@, info.deriver) + sig_lines(info.sigs, info.sigs.len() as int)
        + optional_line("CA: "@, info.ca)
}

fn push_line(out: &mut String, field: &str, value: &str)
    ensures
        final(out)@ == old(out)@ + line(field@, value@),
{
    let ghost start = out@;
    out.append(field);
    out.append(value);
    out.append("\n");
    assert(out@ =~= start + line(field@, value@));
}

impl View for NarInfo {
    type V = NarInfoView;

    open spec fn view(&self) -> NarInfoView {
        NarInfoView {
            store_path: self.store_path@,
            url: self.url@,
            compression: self.compression@,
            file_hash: self.file_hash.display_text(),
            file_size: self.file_size as nat,
            nar_hash: self.nar_hash.display_text(),
            nar_size: self.nar_size as nat,
            references: views(self.references@),
            deriver: crate::error::optional_text(self.deriver),
            sigs: self.sigs@,
            ca: crate::error::optional_text(self.ca),
        }
    }
}

impl NarInfo {
    /// The descriptor in its textual form.
    pub open spec fn display_text(self) -> Seq<char> {
        narinfo_text(self@)
    }

    /// Writes the descriptor in its textual form.
    pub fn to_text(&self) -> (s: String)
        ensures
            s@ == self.display_text(),
    {
        let mut s = String::new();
        push_line(&mut s, "StorePath: ", self.store_path.as_str());
        push_line(&mut s, "URL: ", self.url.as_str());
        push_line(&mut s, "Compression: ", self.compression.as_str());
        let file_hash = self.file_hash.to_text();
        push_line(&mut s, "FileHash: ", file_hash.as_str());
        let file_size = decimal(self.file_size as u64);
        push_line(&mut s, "FileSize: ", file_size.as_str());
        let nar_hash = self.nar_hash.to_text();
        push_line(&mut s, "NarHash: ", nar_hash.as_str());
        let nar_size = decimal(self.nar_size as u64);
        push_line(&mut s, "NarSize: ", nar_size.as_str());
        let references = join(&self.references, " ");
        push_line(&mut s, "References: ", references.as_str());
        match &self.deriver {
            Some(deriver) => {
                push_line(&mut s, "Deriver: ", deriver.as_str());
            },
            None => {},
        }
        let ghost head = s@;
        let ghost info = self@;
        assert(head =~= line("StorePath: "@, info.store_path) + line("URL: "@, info.url) + line(
            "Compression: "@,
            info.compression,
        ) + line("FileHash: "@, info.file_hash) + line(
            "FileSize: "@,
            decimal_text(info.file_size),
        ) + line("NarHash: "@, info.nar_hash) + line("NarSize: "@, decimal_text(info.nar_size))
            + line("References: "@, joined(info.references, " "@)) + optional_line(
            "Deriver: "@,
            info.deriver,
        ));
        let mut i: usize = 0;
        while i < self.sigs.0.len()
            invariant
                i <= self.sigs.0.len(),
                info.sigs == self.sigs@,
                s@ == head + sig_lines(info.sigs, i as int),
            decreases self.sigs.0.len() - i,
        {
            let sig = self.sigs.0[i].to_text();
            assert(info.sigs[i as int] == self.sigs.0@[i as int]@);
            push_line(&mut s, "Sig: ", sig.as_str());
            assert(s@ =~= head + sig_lines(info.sigs, i + 1));
            i += 1;
        }
        let ghost body = s@;
        match &self.ca {
            Some(ca) => {
                push_line(&mut s, "CA: ", ca.as_str());
            },
            None => {},
        }
        assert(s@ =~= body + optional_line("CA: "@, info.ca));
        s
    }
}

/// A row of the store's database: a valid path with what it refers to.
#[derive(Debug, Clone)]
pub struct PathInfo {
    pub id: i64,
    pub path: String,
    pub deriver_store_paths: Option<String>,
    pub nar_size: i64,
    pub sigs: Option<String>,
    /// The paths referred to, in ascending order.
    pub reference_store_paths: Vec<String>,
    pub ca: Option<String>,
}

/// Makes the record of a path from its row and from the paths that it refers
/// to, which may come in any order: the record holds them in ascending
/// order, each as often as it came.
pub fn query_path_info(
    id: i64,
    path: String,
    deriver: Option<String>,
    nar_size: i64,
    sigs: Option<String>,
    references: Vec<String>,
    ca: Option<String>,
) -> (info: PathInfo)
    ensures
        info.id == id,
        info.path@ == path@,
        info.deriver_store_paths == deriver,
        info.nar_size == nar_size,
        info.sigs == sigs,
        info.ca == ca,
        sorted_texts(views(info.reference_store_paths@)),
        views(info.reference_store_paths@).to_multiset() == views(references@).to_multiset(),
        info.reference_store_paths@.len() == references@.len(),
{
    let reference_store_paths = sort_strings(references);
    PathInfo { id, path, deriver_store_paths: deriver, nar_size, sigs, reference_store_paths, ca }
}

/// Picks the id of a path out of the rows that bear the path. Fails with
/// `NoPathInfo` where there is no row, and with `DuplicatedPathInfo` where
/// there is more than one.
pub fn query_path_id(path: &str, rows: &[i64]) -> (r: Result<i64, Error>)
    ensures
        rows@.len() == 0 ==> (r matches Err(Error::NoPathInfo(p)) && p@ == path@),
        rows@.len() == 1 ==> r == Ok::<i64, Error>(rows@[0]),
        rows@.len() > 1 ==> (r matches Err(Error::DuplicatedPathInfo(p)) && p@ == path@),
        r is Ok <==> rows@.len() == 1,
{
    if rows.len() == 0 {
        Err(Error::NoPathInfo(path.to_owned()))
    } else if rows.len() > 1 {
        Err(Error::DuplicatedPathInfo(path.to_owned()))
    } else {
        Ok(rows[0])
    }
}

/// The prefix of every path of a store: the store directory and a slash.
pub open spec fn store_prefix(store_dir: Seq<char>) -> Seq<char> {
    store_dir.push('/')
}

/// A store path without the store directory, if it lies in the store.
pub open spec fn stripped(store_dir: Seq<char>, store_path: Seq<char>) -> Option<Seq<char>> {
    if has_prefix(store_path, store_prefix(store_dir)) {
        Some(store_path.skip(store_dir.len() as int + 1))
    } else {
        None
    }
}

/// Tells whether an input of the pusher names a path of the store as it
/// stands: if it begins with the store directory and a slash, it is the path.
pub fn canonicalize_store_path_input(store_dir: &str, path: &str) -> (r: Option<String>)
    ensures
        has_prefix(path@, store_prefix(store_dir@)) ==> (r matches Some(p) && p@ == path@),
        !has_prefix(path@, store_prefix(store_dir@)) ==> r is None,
{
    let mut prefix = chars_of(store_dir);
    prefix.push('/');
    let chars = chars_of(path);
    if starts_with(&chars, &prefix) {
        Some(path.to_owned())
    } else {
        None
    }
}

/// Goes on from an input that is no path of the store: to the target of the
/// link, where the path looked at is a symbolic link; else the input is
/// refused with `InvalidStorePath`.
pub fn follow_store_path_link(input: &str, target: Option<String>) -> (r: Result<String, Error>)
    ensures
        match target {
            Some(t) => r matches Ok(next) && next@ == t@,
            None => r matches Err(Error::InvalidStorePath(p)) && p@ == input@,
        },
{
    match target {
        Some(t) => Ok(t),
        None => Err(Error::InvalidStorePath(input.to_owned())),
    }
}

/// Drops the store directory from a store path. Fails with
/// `InvalidStorePath` where the path does not begin with the store directory
/// and a slash.
pub fn strip_store_dir(options: &PushOptions, store_path: &str) -> (r: Result<String, Error>)
    ensures
        match stripped(options.store_dir@, store_path@) {
            Some(rest) => r matches Ok(s) && s@ == rest,
            None => r matches Err(Error::InvalidStorePath(p)) && p@ == store_path@,
        },
{
    let mut prefix = chars_of(options.store_dir.as_str());
    prefix.push('/');
    let chars = chars_of(store_path);
    if starts_with(&chars, &prefix) {
        let rest = tail_from(&chars, prefix.len());
        Ok(string_of(rest.as_slice()))
    } else {
        Err(Error::InvalidStorePath(store_path.to_owned()))
    }
}

/// Whether `c` may occur in the hash of a store path.
pub open spec fn is_hash_char(c: char) -> bool {
    ('a' <= c && c <= 'z') || ('0' <= c && c <= '9')
}

/// The end of the run of hash characters that begins at `from`.
pub open spec fn hash_run(s: Seq<char>, from: int) -> int
    decreases s.len() - from,
{
    if from < 0 || from >= s.len() || !is_hash_char(s[from]) {
        from
    } else {
        hash_run(s, from + 1)
    }
}

/// The hash of `HASH-NAME`: the small letters and digits before the first
/// other character, which must be a `-`; there must be at least one, and no
/// line feed after the `-`.
pub open spec fn store_hash(name: Seq<char>) -> Option<Seq<char>> {
    let n = hash_run(name, 0);
    if 0 < n && n < name.len() && name[n] == '-' && !occurs(name.skip(n + 1), '\n') {
        Some(name.take(n))
    } else {
        None
    }
}

/// The hash of a store path, if the path lies in the store and has the form
/// `HASH-NAME` there.
pub open spec fn store_path_hash(store_dir: Seq<char>, store_path: Seq<char>) -> Option<Seq<char>> {
    match stripped(store_dir, store_path) {
        Some(name) => store_hash(name),
        None => None,
    }
}

/// Takes the hash out of a store path. Fails with `InvalidStorePath` where
/// the path does not lie in the store or has not the form `HASH-NAME` there.
pub fn store_path_to_hash(options: &PushOptions, store_path: &str) -> (r: Result<String, Error>)
    ensures
        match store_path_hash(options.store_dir@, store_path@) {
            Some(hash) => r matches Ok(s) && s@ == hash,
            None => r matches Err(Error::InvalidStorePath(p)) && p@ == store_path@,
        },
{
    let name = match strip_store_dir(options, store_path) {
        Ok(name) => name,
        Err(e) => {
            return Err(e);
        },
    };
    let chars = chars_of(name.as_str());
    let mut n: usize = 0;
    while n < chars.len() && (('a' <= chars[n] && chars[n] <= 'z') || ('0' <= chars[n] && chars[n]
        <= '9'))
        invariant
            n <= chars.len(),
            hash_run(chars@, 0) == hash_run(chars@, n as int),
        decreases chars.len() - n,
    {
        n += 1;
    }
    if n == 0 || n >= chars.len() || chars[n] != '-' {
        return Err(Error::InvalidStorePath(store_path.to_owned()));
    }
    let rest = tail_from(&chars, n + 1);
    if find(&rest, '\n', 0) < rest.len() {
        return Err(Error::InvalidStorePath(store_path.to_owned()));
    }
    let hash = slice_between(&chars, 0, n);
    assert(hash@ =~= chars@.take(n as int));
    Ok(string_of(hash.as_slice()))
}

/// Whether a path with a signature by the key of this name is left out: the
/// name matches the pattern of excluded keys, or it is the name of the
/// signing key while paths that it has signed are not to be pushed again.
pub open spec fn excludes(
    name: Seq<char>,
    pattern: Seq<char>,
    key_name: Seq<char>,
    already_signed: bool,
) -> bool {
    regex_matches(pattern, name) || (name == key_name && !already_signed)
}

/// Whether a path with these signatures is pushed: none of them excludes it.
pub open spec fn admits(
    sigs: Seq<(Seq<char>, Seq<char>)>,
    pattern: Seq<char>,
    key_name: Seq<char>,
    already_signed: bool,
) -> bool {
    forall|i: int|
        0 <= i < sigs.len() ==> !excludes((#[trigger] sigs[i]).0, pattern, key_name, already_signed)
}

/// Decides whether a path is pushed, by the signatures that its row holds.
/// A path without signatures is pushed. Fails with `InvalidSignature` where
/// the row's signatures cannot be read.
pub fn filter_id_single(options: &PushOptions, key_pair: &NixKeyPair, sigs: &Option<String>) -> (r:
    Result<bool, Error>)
    ensures
        match row_sigs(*sigs) {
            Ok(list) => r matches Ok(pushed) && pushed == admits(
                list,
                options.excluded_signing_key_pattern.source_text(),
                key_pair.name_text(),
                options.already_signed,
            ),
            Err(token) => r matches Err(Error::InvalidSignature(t)) && t@ == token,
        },
{
    let sig_list = match NixSignatureList::from_optional_str(sigs) {
        Ok(list) => list,
        Err(e) => {
            return Err(e);
        },
    };
    let ghost list = sig_list@;
    let mut i: usize = 0;
    while i < sig_list.0.len()
        invariant
            i <= sig_list.0.len(),
            list == sig_list@,
            list.len() == sig_list.0.len(),
            row_sigs(*sigs) matches Ok(read) && read == list,
            forall|k: int|
                0 <= k < i ==> !excludes(
                    (#[trigger] list[k]).0,
                    options.excluded_signing_key_pattern.source_text(),
                    key_pair.name_text(),
                    options.already_signed,
                ),
        decreases sig_list.0.len() - i,
    {
        let sig = &sig_list.0[i];
        assert(list[i as int] == sig@);
        if options.excluded_signing_key_pattern.is_match(sig.name.as_str()) {
            return Ok(false);
        }
        if sig.name == *key_pair.name() && !options.already_signed {
            return Ok(false);
        }
        i += 1;
    }
    Ok(true)
}

/// The text that a signing key signs for a descriptor: `1`, the store path,
/// the hash of the archive, its size, and the paths referred to, each with
/// the store directory before it and with commas between them; the five
/// parts with semicolons between them.
pub open spec fn fingerprint_text(
    store_dir: Seq<char>,
    store_path: Seq<char>,
    nar_hash: Seq<char>,
    nar_size: nat,
    references: Seq<Seq<char>>,
) -> Seq<char> {
    "1;"@ + store_path + ";"@ + nar_hash + ";"@ + decimal_text(nar_size) + ";"@ + joined(
        references.map_values(|r: Seq<char>| store_dir + "/"@ + r),
        ","@,
    )
}

/// Writes the text that a signing key signs for a descriptor.
pub fn nar_info_fingerprint(
    store_dir: &str,
    store_path: &str,
    nar_hash: &NixHash,
    nar_size: usize,
    references: &[String],
) -> (fingerprint: String)
    ensures
        fingerprint@ == fingerprint_text(
            store_dir@,
            store_path@,
            nar_hash.display_text(),
            nar_size as nat,
            views(references@),
        ),
{
    let mut full: Vec<String> = Vec::new();
    let mut i: usize = 0;
    while i < references.len()
        invariant
            i <= references.len(),
            views(full@) == views(references@).take(i as int).map_values(
                |r: Seq<char>| store_dir@ + "/"@ + r,
            ),
        decreases references.len() - i,
    {
        let ghost before = views(full@);
        let item = concat3(store_dir, "/", references[i].as_str());
        full.push(item);
        assert(views(full@) =~= before.push(item@));
        assert(views(references@).take(i + 1).map_values(|r: Seq<char>| store_dir@ + "/"@ + r)
            =~= before.push(item@));
        i += 1;
    }
    assert(views(references@).take(references.len() as int) =~= views(references@));
    let mut s = concat3("1;", store_path, ";");
    let hash = nar_hash.to_text();
    s.append(hash.as_str());
    s.append(";");
    let size = decimal(nar_size as u64);
    s.append(size.as_str());
    s.append(";");
    let list = join(&full, ",");
    s.append(list.as_str());
    s
}

} // verus!
