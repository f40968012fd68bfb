//! The pusher: which paths to push, what to upload for each, and when to stop.
//!
//! Reading the input, the database and the store, and sending to the
//! registry, are left to the caller. The functions here take what was read
//! and say what to do next.

use crate::error::Error;
use crate::nix::closure::{closed_under, compute_closure};
use crate::nix::sign::{
    decodable, key_read, lemma_row_sigs_decodable, NixKeyPair, NixSignatureList,
};
use crate::nix::{
    nar_info_fingerprint, store_path_to_hash, strip_store_dir, NarInfo, NixHash, PathInfo,
};
use crate::options::{InitializeOptions, PushOptions};
use crate::registry::{OciItem, OciLocation, RegistryAuth};
use crate::text::{chars_of, concat2, concat3, decimal, decimal_text, string_of, trim, trimmed};
use std::collections::HashSet;
use vstd::prelude::*;
use vstd::std_specs::hash::*;
use vstd::string::{StrSliceExecFns, StringExecFns};
use vstd::utf8::encode_utf8;

verus! {

broadcast use vstd::std_specs::hash::group_hash_axioms;

/// The directory of the store's database.
pub const NIX_DB_DIR: &'static str = "/nix/var/nix/db";

/// The content type of an archive.
pub const NAR_CONTENT_TYPE: &'static str = "application/x-nix-nar";

/// The content type of an archive descriptor.
pub const NARINFO_CONTENT_TYPE: &'static str = "text/x-nix-narinfo";

/// The content type of the description of a cache.
pub const NIX_CACHE_INFO_CONTENT_TYPE: &'static str = "text/x-nix-cache-info";

/// The key of the description of a cache.
pub const NIX_CACHE_INFO_KEY: &'static str = "nix-cache-info";

/// Chooses how to open the store's database: read-only where its directory
/// can be written to; else in immutable mode, if that is allowed; else not
/// at all, which is the failure `NixDbFolderNotWritable`.
pub fn nix_db_connection(options: &PushOptions, writable: bool) -> (uri: Result<String, Error>)
    ensures
        writable ==> (uri matches Ok(u) && u@ == "file:"@ + NIX_DB_DIR@ + "/db.sqlite?mode=ro"@),
        !writable && options.allow_immutable_db ==> (uri matches Ok(u) && u@ == "file:"@
            + NIX_DB_DIR@ + "/db.sqlite?immutable=1"@),
        !writable && !options.allow_immutable_db ==> (uri matches Err(
            Error::NixDbFolderNotWritable(dir),
        ) && dir@ == NIX_DB_DIR@),
{
    if writable {
        Ok(concat3("file:", NIX_DB_DIR, "/db.sqlite?mode=ro"))
    } else if options.allow_immutable_db {
        Ok(concat3("file:", NIX_DB_DIR, "/db.sqlite?immutable=1"))
    } else {
        Err(Error::NixDbFolderNotWritable(NIX_DB_DIR.to_owned()))
    }
}

/// The credentials for the registry: those of the user, where both the name
/// and the password are set; none otherwise.
pub fn get_auth(username: Option<String>, password: Option<String>) -> (auth: RegistryAuth)
    ensures
        auth == (match (username, password) {
            (Some(u), Some(p)) => RegistryAuth::Basic(u, p),
            _ => RegistryAuth::Anonymous,
        }),
{
    let username = match username {
        Some(u) => u,
        None => {
            return RegistryAuth::Anonymous;
        },
    };
    let password = match password {
        Some(p) => p,
        None => {
            return RegistryAuth::Anonymous;
        },
    };
    RegistryAuth::Basic(username, password)
}

/// Reads the signing key from what the environment holds for it: the key,
/// or the reason why it could not be read, which is the failure
/// `InvalidSigningKeyEnv`.
pub fn get_nix_key_pair(value: Result<String, String>) -> (r: Result<NixKeyPair, Error>)
    requires
        value matches Ok(text) ==> decodable(text@),
    ensures
        value matches Err(reason) ==> r == Err::<NixKeyPair, Error>(
            Error::InvalidSigningKeyEnv(reason),
        ),
        value matches Ok(text) ==> key_read(text@, r),
{
    match value {
        Ok(text) => NixKeyPair::from_secret_key_str(text.as_str()),
        Err(reason) => Err(Error::InvalidSigningKeyEnv(reason)),
    }
}

/// The description of a cache: its store directory, whether it answers mass
/// queries, and its priority.
pub open spec fn cache_info_text(store_dir: Seq<char>, no_mass_query: bool, priority: u32) -> Seq<
    char,
> {
    "StoreDir: "@ + store_dir + "\nWantMassQuery: "@ + (if no_mass_query {
        "0"@
    } else {
        "1"@
    }) + "\nPriority: "@ + decimal_text(priority as nat) + "\n"@
}

/// Writes the description of a cache.
pub fn build_nix_cache_info(options: &PushOptions, initialize_options: &InitializeOptions) -> (s:
    String)
    ensures
        s@ == cache_info_text(
            options.store_dir@,
            initialize_options.no_mass_query,
            initialize_options.priority,
        ),
{
    let mut s = concat3("StoreDir: ", options.store_dir.as_str(), "\nWantMassQuery: ");
    s.append(
        if initialize_options.no_mass_query {
            "0"
        } else {
            "1"
        },
    );
    s.append("\nPriority: ");
    let priority = decimal(initialize_options.priority as u64);
    s.append(priority.as_str());
    s.append("\n");
    s
}

/// What to upload to initialize a cache: its description, under the key
/// `nix-cache-info`.
pub fn push_initialize_main(options: &PushOptions, initialize_options: &InitializeOptions) -> (r: (
    OciLocation,
    OciItem,
))
    ensures
        r.0.registry@ == options.registry@,
        r.0.repository@ == options.repository@,
        r.0.key@ == NIX_CACHE_INFO_KEY@,
        r.1.content_type matches Some(c) && c@ == NIX_CACHE_INFO_CONTENT_TYPE@,
        r.1.data@ == encode_utf8(
            cache_info_text(
                options.store_dir@,
                initialize_options.no_mass_query,
                initialize_options.priority,
            ),
        ),
{
    let nix_cache_info = build_nix_cache_info(options, initialize_options);
    let location = OciLocation {
        registry: options.registry.clone(),
        repository: options.repository.clone(),
        key: NIX_CACHE_INFO_KEY.to_owned(),
    };
    let item = OciItem {
        content_type: Some(NIX_CACHE_INFO_CONTENT_TYPE.to_owned()),
        data: nix_cache_info.as_str().as_bytes_vec(),
    };
    (location, item)
}

/// The inputs among the first `n` lines: each line without the white space
/// around it, unless nothing is left of it.
pub open spec fn inputs_of(lines: Seq<Seq<char>>, n: int) -> Seq<Seq<char>>
    decreases n,
{
    if n <= 0 || n > lines.len() {
        Seq::empty()
    } else if trimmed(lines[n - 1]).len() == 0 {
        inputs_of(lines, n - 1)
    } else {
        inputs_of(lines, n - 1).push(trimmed(lines[n - 1]))
    }
}

/// Reads the inputs off the lines of the standard input: each line without
/// the white space around it; empty lines are passed over.
pub fn input_paths(lines: &Vec<String>) -> (inputs: Vec<String>)
    ensures
        crate::text::views(inputs@) == inputs_of(crate::text::views(lines@), lines@.len() as int),
{
    let mut inputs: Vec<String> = Vec::new();
    let mut i: usize = 0;
    assert(crate::text::views(inputs@) =~= Seq::<Seq<char>>::empty());
    while i < lines.len()
        invariant
            i <= lines.len(),
            crate::text::views(inputs@) == inputs_of(crate::text::views(lines@), i as int),
        decreases lines.len() - i,
    {
        let chars = chars_of(lines[i].as_str());
        let kept = trim(&chars);
        assert(crate::text::views(lines@)[i as int] == lines@[i as int]@);
        if kept.len() > 0 {
            let ghost before = crate::text::views(inputs@);
            let input = string_of(kept.as_slice());
            inputs.push(input);
            assert(crate::text::views(inputs@) =~= before.push(input@));
        }
        i += 1;
    }
    inputs
}

/// Whether `r` is what the rows that bear a path give: its id, where there
/// is one row; `NoPathInfo` where there is none; `DuplicatedPathInfo` where
/// there are more.
pub open spec fn id_found(path: Seq<char>, rows: Seq<i64>, r: Result<i64, Error>) -> bool {
    if rows.len() == 0 {
        r matches Err(Error::NoPathInfo(p)) && p@ == path
    } else if rows.len() == 1 {
        r == Ok::<i64, Error>(rows[0])
    } else {
        r matches Err(Error::DuplicatedPathInfo(p)) && p@ == path
    }
}

/// Whether `id` is the id of the one row that the query may answer for the
/// path.
pub open spec fn id_answered<F: Fn(&String) -> Result<Vec<i64>, Error>>(
    query: F,
    path: String,
    id: i64,
) -> bool {
    exists|rows: Vec<i64>| #[trigger]
        query.ensures((&path,), Ok::<Vec<i64>, Error>(rows)) && rows@ == seq![id]
}

/// Whether `ids` holds, for each of the first `n` paths, the id of the one
/// row that the query may answer for the path.
pub open spec fn ids_answered<F: Fn(&String) -> Result<Vec<i64>, Error>>(
    query: F,
    paths: Seq<String>,
    ids: Seq<i64>,
    n: int,
) -> bool {
    &&& ids.len() == n
    &&& n <= paths.len()
    &&& forall|i: int| 0 <= i < n ==> #[trigger] id_answered(query, paths[i], ids[i])
}

/// Whether `e` is a failure of the lookup of a path: the failure of the
/// query, or that of picking the id out of the rows that the query answered.
pub open spec fn lookup_fails<F: Fn(&String) -> Result<Vec<i64>, Error>>(
    query: F,
    path: String,
    rows: Vec<i64>,
    e: Error,
) -> bool {
    ||| query.ensures((&path,), Err::<Vec<i64>, Error>(e))
    ||| {
        &&& query.ensures((&path,), Ok::<Vec<i64>, Error>(rows))
        &&& rows@.len() != 1
        &&& id_found(path@, rows@, Err(e))
    }
}

/// Looks up the id of each path: the rows that bear the path are asked for,
/// in the order of the paths, and there must be one. The ids come as a set:
/// an id that several paths have is there once. The first failure, of the
/// query or of a path without its one row, ends the lookup and is the
/// result.
pub fn query_db_ids<F: Fn(&String) -> Result<Vec<i64>, Error>>(paths: &Vec<String>, query_rows: F) -> (r:
    Result<HashSet<i64>, Error>)
    requires
        forall|path: &String| query_rows.requires((path,)),
    ensures
        match r {
            Ok(found) => exists|ids: Seq<i64>|
                #[trigger] ids_answered(query_rows, paths@, ids, paths@.len() as int) && found@
                    == ids.to_set(),
            Err(e) => exists|i: int, rows: Vec<i64>|
                0 <= i < paths@.len() && #[trigger] lookup_fails(query_rows, paths@[i], rows, e),
        },
{
    let mut found: HashSet<i64> = HashSet::new();
    let ghost mut ids: Seq<i64> = Seq::empty();
    let mut i: usize = 0;
    assert(found@ =~= ids.to_set());
    while i < paths.len()
        invariant
            i <= paths.len(),
            forall|path: &String| query_rows.requires((path,)),
            ids_answered(query_rows, paths@, ids, i as int),
            found@ == ids.to_set(),
        decreases paths.len() - i,
    {
        let rows = match query_rows(&paths[i]) {
            Ok(rows) => rows,
            Err(e) => {
                assert(lookup_fails(query_rows, paths@[i as int], arbitrary(), e));
                return Err(e);
            },
        };
        let id = match crate::nix::query_path_id(paths[i].as_str(), rows.as_slice()) {
            Ok(id) => id,
            Err(e) => {
                assert(lookup_fails(query_rows, paths@[i as int], rows, e));
                return Err(e);
            },
        };
        let ghost before = ids;
        found.insert(id);
        proof {
            ids = before.push(id);
            assert(rows@ =~= seq![id]);
            assert(id_answered(query_rows, paths@[i as int], id));
            assert forall|k: int| 0 <= k < i + 1 implies #[trigger] id_answered(
                query_rows,
                paths@[k],
                ids[k],
            ) by {
                if k < i {
                    assert(ids[k] == before[k]);
                }
            }
            assert forall|x: i64| ids.to_set().contains(x) <==> before.to_set().insert(
                id,
            ).contains(x) by {
                if ids.contains(x) {
                    let k = choose|k: int| 0 <= k < ids.len() && ids[k] == x;
                    if k < before.len() {
                        assert(before[k] == x);
                    }
                }
                if before.contains(x) {
                    let k = choose|k: int| 0 <= k < before.len() && before[k] == x;
                    assert(ids[k] == x);
                }
                assert(ids[before.len() as int] == id);
            }
            assert(found@ =~= ids.to_set());
        }
        i += 1;
    }
    Ok(found)
}

/// Chooses the ids to push: the given ones alone, where the closure is
/// switched off; else their closure under references, which are asked for
/// as the closure is walked.
pub fn id_closures<F: Fn(i64) -> Result<Vec<i64>, Error>>(
    options: &PushOptions,
    ids: &Vec<i64>,
    query_references: F,
) -> (r: Result<HashSet<i64>, Error>)
    requires
        forall|id: i64| query_references.requires((id,)),
    ensures
        options.no_closure ==> (r matches Ok(chosen) && chosen@ == ids@.to_set()),
        !options.no_closure ==> match r {
            Ok(chosen) => exists|edges: Map<i64, Vec<i64>>| #[trigger]
                closed_under(query_references, ids@.to_set(), chosen@, edges),
            Err(e) => exists|id: i64| #[trigger]
                query_references.ensures((id,), Err::<Vec<i64>, Error>(e)),
        },
{
    if options.no_closure {
        let mut chosen: HashSet<i64> = HashSet::new();
        let mut i: usize = 0;
        while i < ids.len()
            invariant
                i <= ids.len(),
                forall|id: i64|
                    chosen@.contains(id) <==> exists|k: int| 0 <= k < i && ids@[k] == id,
            decreases ids.len() - i,
        {
            chosen.insert(ids[i]);
            i += 1;
        }
        assert(chosen@ =~= ids@.to_set());
        Ok(chosen)
    } else {
        compute_closure(ids, query_references)
    }
}

/// Whether the path of a row with these signatures is pushed.
pub open spec fn pushes(options: PushOptions, key_pair: NixKeyPair, sigs: Option<String>) -> bool {
    crate::nix::sign::row_sigs(sigs) matches Ok(list) && crate::nix::admits(
        list,
        options.excluded_signing_key_pattern.source_text(),
        key_pair.name_text(),
        options.already_signed,
    )
}

/// Those of the first `n` ids whose rows, with the signatures that the
/// answers hold for them, are pushed; in the order of the ids.
pub open spec fn kept_ids(
    options: PushOptions,
    key_pair: NixKeyPair,
    ids: Seq<i64>,
    answers: Seq<Option<String>>,
    n: int,
) -> Seq<i64>
    decreases n,
{
    if n <= 0 || n > ids.len() || n > answers.len() {
        Seq::empty()
    } else if pushes(options, key_pair, answers[n - 1]) {
        kept_ids(options, key_pair, ids, answers, n - 1).push(ids[n - 1])
    } else {
        kept_ids(options, key_pair, ids, answers, n - 1)
    }
}

/// Whether `answers` holds, for each of the first `n` ids, signatures that
/// the query may answer for the id, and that can be read.
pub open spec fn signatures_answered<F: Fn(i64) -> Result<Option<String>, Error>>(
    query: F,
    ids: Seq<i64>,
    answers: Seq<Option<String>>,
    n: int,
) -> bool {
    &&& answers.len() == n
    &&& n <= ids.len()
    &&& forall|i: int|
        0 <= i < n ==> #[trigger] query.ensures((ids[i],), Ok::<Option<String>, Error>(answers[i]))
            && crate::nix::sign::row_sigs(answers[i]) is Ok
}

/// Whether `e` is a failure of the filtering at an id: the failure of the
/// query, or `InvalidSignature` for the signatures that the query answered.
pub open spec fn filtering_fails<F: Fn(i64) -> Result<Option<String>, Error>>(
    query: F,
    id: i64,
    sigs: Option<String>,
    e: Error,
) -> bool {
    ||| query.ensures((id,), Err::<Option<String>, Error>(e))
    ||| {
        &&& query.ensures((id,), Ok::<Option<String>, Error>(sigs))
        &&& crate::nix::sign::row_sigs(sigs) matches Err(token)
        &&& e matches Error::InvalidSignature(t)
        &&& t@ == token
    }
}

/// Leaves out the ids that the signature policy excludes: the signatures of
/// each id are asked for, and the id is kept unless one of them excludes it.
/// The first failure, of the query or of reading the signatures, ends the
/// filtering and is the result.
pub fn filter_ids<F: Fn(i64) -> Result<Option<String>, Error>>(
    options: &PushOptions,
    key_pair: &NixKeyPair,
    ids: &Vec<i64>,
    query_sigs: F,
) -> (r: Result<Vec<i64>, Error>)
    requires
        forall|id: i64| query_sigs.requires((id,)),
    ensures
        match r {
            Ok(kept) => exists|answers: Seq<Option<String>>|
                #[trigger] signatures_answered(query_sigs, ids@, answers, ids@.len() as int)
                    && kept@ == kept_ids(*options, *key_pair, ids@, answers, ids@.len() as int),
            Err(e) => exists|i: int, sigs: Option<String>|
                0 <= i < ids@.len() && #[trigger] filtering_fails(query_sigs, ids@[i], sigs, e),
        },
{
    let mut kept: Vec<i64> = Vec::new();
    let ghost mut answers: Seq<Option<String>> = Seq::empty();
    let mut i: usize = 0;
    while i < ids.len()
        invariant
            i <= ids.len(),
            forall|id: i64| query_sigs.requires((id,)),
            signatures_answered(query_sigs, ids@, answers, i as int),
            kept@ == kept_ids(*options, *key_pair, ids@, answers, i as int),
        decreases ids.len() - i,
    {
        let sigs = match query_sigs(ids[i]) {
            Ok(sigs) => sigs,
            Err(e) => {
                assert(filtering_fails(query_sigs, ids@[i as int], None, e));
                return Err(e);
            },
        };
        let ghost before = answers;
        let pushed = match crate::nix::filter_id_single(options, key_pair, &sigs) {
            Ok(pushed) => pushed,
            Err(e) => {
                assert(filtering_fails(query_sigs, ids@[i as int], sigs, e));
                return Err(e);
            },
        };
        proof {
            answers = before.push(sigs);
            assert forall|k: int| 0 <= k < i + 1 implies #[trigger] query_sigs.ensures(
                (ids@[k],),
                Ok::<Option<String>, Error>(answers[k]),
            ) && crate::nix::sign::row_sigs(answers[k]) is Ok by {
                if k < i {
                    assert(answers[k] == before[k]);
                }
            }
            lemma_kept_ids_prefix(*options, *key_pair, ids@, before, answers, i as int);
        }
        if pushed {
            kept.push(ids[i]);
        }
        i += 1;
    }
    Ok(kept)
}

/// What is kept of the first ids depends on the answers for them alone.
pub proof fn lemma_kept_ids_prefix(
    options: PushOptions,
    key_pair: NixKeyPair,
    ids: Seq<i64>,
    a: Seq<Option<String>>,
    b: Seq<Option<String>>,
    n: int,
)
    requires
        0 <= n <= a.len() <= b.len(),
        n <= ids.len(),
        forall|i: int| 0 <= i < n ==> a[i] == b[i],
    ensures
        kept_ids(options, key_pair, ids, a, n) == kept_ids(options, key_pair, ids, b, n),
    decreases n,
{
    if n > 0 {
        lemma_kept_ids_prefix(options, key_pair, ids, a, b, n - 1);
    }
}

/// The checkpoint of a worker: where another worker has failed, it stops
/// with `EarlyStop`.
pub fn not_failed(failed: bool) -> (r: Result<(), Error>)
    ensures
        r == (if failed {
            Err::<(), Error>(Error::EarlyStop)
        } else {
            Ok::<(), Error>(())
        }),
{
    if failed {
        Err(Error::EarlyStop)
    } else {
        Ok(())
    }
}

/// Takes note of how a worker ended: whether the push has failed by now. It
/// has if it had before, or if the worker ended in a failure other than
/// `EarlyStop`.
pub fn handle_push_result(r: &Result<(), Error>, failed: bool) -> (now: bool)
    ensures
        now == (failed || (r matches Err(e) && !(e is EarlyStop))),
{
    match r {
        Ok(()) => failed,
        Err(e) => failed || !e.is_early_stop(),
    }
}

/// How the push ended: in `PushFailed` where a worker has failed.
pub fn push(failed: bool) -> (r: Result<(), Error>)
    ensures
        r == (if failed {
            Err::<(), Error>(Error::PushFailed)
        } else {
            Ok::<(), Error>(())
        }),
{
    if failed {
        Err(Error::PushFailed)
    } else {
        Ok(())
    }
}

/// The work on one path, between its steps.
#[derive(Debug)]
pub struct PushOne {
    /// The id of the path in the database.
    pub id: i64,
    /// What is still to be uploaded, in this order.
    pub uploads: Vec<(OciLocation, OciItem)>,
}

/// What the work on one path asks for next, or how it ended.
#[derive(Debug)]
pub enum PushStep {
    /// Hand the work to a thread for blocking work, and call `spawned`.
    Spawn(PushOne),
    /// Read the path's row, serialize the path, and call `prepared` with
    /// what `prepare_uploads` made of them.
    Read(PushOne),
    /// Upload the object, and call `uploaded` with what came of it.
    Put(PushOne, OciLocation, OciItem),
    /// The work is over.
    Done(Result<(), Error>),
}

/// Whether `step` is how the work on a path begins: with the hand-over to a
/// thread for blocking work, unless a worker has failed.
pub open spec fn begins(id: i64, failed: bool, step: PushStep) -> bool {
    if failed {
        step == PushStep::Done(Err(Error::EarlyStop))
    } else {
        step matches PushStep::Spawn(state) && state.id == id && state.uploads@.len() == 0
    }
}

/// Begins the work on a path. Where a worker has failed, it is over at once,
/// with `EarlyStop`.
pub fn push_one(id: i64, failed: bool) -> (step: PushStep)
    ensures
        begins(id, failed, step),
{
    if failed {
        PushStep::Done(Err(Error::EarlyStop))
    } else {
        PushStep::Spawn(PushOne { id, uploads: Vec::new() })
    }
}

impl PushOne {
    /// Whether `step` is what comes next where uploads are left or not: the
    /// first of them, or the end in success.
    pub open spec fn next_upload(self, step: PushStep) -> bool {
        if self.uploads@.len() == 0 {
            step == PushStep::Done(Ok(()))
        } else {
            &&& step matches PushStep::Put(state, location, item)
            &&& state.id == self.id
            &&& state.uploads@ == self.uploads@.skip(1)
            &&& (location, item) == self.uploads@[0]
        }
    }

    fn upload_next(self) -> (step: PushStep)
        ensures
            self.next_upload(step),
    {
        let mut state = self;
        if state.uploads.len() == 0 {
            PushStep::Done(Ok(()))
        } else {
            let ghost before = state.uploads@;
            let (location, item) = state.uploads.remove(0);
            assert(state.uploads@ =~= before.skip(1));
            PushStep::Put(state, location, item)
        }
    }

    /// Whether `step` is how the work goes on in the thread for blocking
    /// work: to reading the database, unless a worker has failed.
    pub open spec fn spawns(self, failed: bool, step: PushStep) -> bool {
        if failed {
            step == PushStep::Done(Err(Error::EarlyStop))
        } else {
            step == PushStep::Read(self)
        }
    }

    /// Whether `step` is how the work goes on with what was prepared for
    /// upload.
    pub open spec fn prepares(
        self,
        failed: bool,
        uploads: Result<Vec<(OciLocation, OciItem)>, Error>,
        step: PushStep,
    ) -> bool {
        match uploads {
            Err(e) => step == PushStep::Done(Err(e)),
            Ok(list) => if failed {
                step == PushStep::Done(Err(Error::EarlyStop))
            } else {
                (PushOne { id: self.id, uploads: list }).next_upload(step)
            },
        }
    }

    /// Whether `step` is how the work goes on after an upload.
    pub open spec fn uploads_on(self, failed: bool, outcome: Result<(), Error>, step: PushStep) -> bool {
        match outcome {
            Err(e) => step == PushStep::Done(Err(e)),
            Ok(()) => if self.uploads@.len() == 0 {
                step == PushStep::Done(Ok(()))
            } else if failed {
                step == PushStep::Done(Err(Error::EarlyStop))
            } else {
                self.next_upload(step)
            },
        }
    }

    /// Once a worker has failed, no work on a path starts to read the
    /// database: it neither begins, nor goes on to reading.
    pub proof fn lemma_no_read_after_failure(self, id: i64, step: PushStep)
        requires
            begins(id, true, step) || self.spawns(true, step),
        ensures
            step == PushStep::Done(Err(Error::EarlyStop)),
            !(step is Spawn),
            !(step is Read),
    {
    }

    /// Once a worker has failed, nothing more is uploaded for a path: the
    /// work ends; in `EarlyStop`, unless it has failed itself or is done.
    pub proof fn lemma_no_upload_after_failure(
        self,
        uploads: Result<Vec<(OciLocation, OciItem)>, Error>,
        outcome: Result<(), Error>,
        step: PushStep,
    )
        requires
            self.prepares(true, uploads, step) || self.uploads_on(true, outcome, step),
        ensures
            step is Done,
    {
    }

    /// The objects of a path are uploaded in their order, the archive before
    /// the descriptor: what is uploaded next is the first of what is left.
    pub proof fn lemma_uploads_in_order(self, outcome: Result<(), Error>, step: PushStep)
        requires
            self.uploads_on(false, outcome, step),
        ensures
            step matches PushStep::Put(state, location, item) ==> (location, item)
                == self.uploads@[0] && state.uploads@ == self.uploads@.skip(1),
    {
    }

    /// Goes on in the thread for blocking work: to reading the database,
    /// unless a worker has failed; then nothing is read.
    pub fn spawned(self, failed: bool) -> (step: PushStep)
        ensures
            self.spawns(failed, step),
    {
        if failed {
            PushStep::Done(Err(Error::EarlyStop))
        } else {
            PushStep::Read(self)
        }
    }

    /// Goes on with what was prepared for upload. A failure of the
    /// preparation ends the work. Where a worker has failed, nothing is
    /// uploaded. Otherwise the first object is uploaded.
    pub fn prepared(self, failed: bool, uploads: Result<Vec<(OciLocation, OciItem)>, Error>) -> (step:
        PushStep)
        ensures
            self.prepares(failed, uploads, step),
    {
        match uploads {
            Err(e) => PushStep::Done(Err(e)),
            Ok(list) => {
                if failed {
                    PushStep::Done(Err(Error::EarlyStop))
                } else {
                    (PushOne { id: self.id, uploads: list }).upload_next()
                }
            },
        }
    }

    /// Goes on after an upload. A failure of the upload ends the work.
    /// Where a worker has failed, nothing more is uploaded. Otherwise the
    /// next object is uploaded, or the work ends in success.
    pub fn uploaded(self, failed: bool, outcome: Result<(), Error>) -> (step: PushStep)
        ensures
            self.uploads_on(failed, outcome, step),
    {
        match outcome {
            Err(e) => PushStep::Done(Err(e)),
            Ok(()) => {
                if self.uploads.len() == 0 {
                    PushStep::Done(Ok(()))
                } else if failed {
                    PushStep::Done(Err(Error::EarlyStop))
                } else {
                    self.upload_next()
                }
            },
        }
    }
}

/// What `zstd::stream::copy_encode` makes of bytes at a level: the frame,
/// or the text of its failure.
pub uninterp spec fn zstd_frame(data: Seq<u8>, level: i32) -> Result<Seq<u8>, Seq<char>>;

/// The bytes that a zstd frame decodes to, if it is one. This stands for the
/// decoder of zstd, which is not called here: all that is said of it is the
/// law of the compressor, that what it made decodes to what it was given.
pub uninterp spec fn zstd_content(frame: Seq<u8>) -> Option<Seq<u8>>;

/// The outcome of a compression, by the views.
pub open spec fn frame_outcome(r: Result<Vec<u8>, String>) -> Result<Seq<u8>, Seq<char>> {
    match r {
        Ok(frame) => Ok(frame@),
        Err(description) => Err(description@),
    }
}

/// Compresses bytes with zstd.
///
/// Calls `zstd::stream::copy_encode`, whose outcome depends on the bytes and
/// the level alone; it is named `zstd_frame`, and a failure is its text. Of
/// a success the contract claims what the format promises besides: the
/// frame decodes to the bytes that went in.
#[verifier::external_body]
pub(crate) fn zstd_compress(data: &[u8], level: i32) -> (r: Result<Vec<u8>, String>)
    ensures
        frame_outcome(r) == zstd_frame(data@, level),
        r matches Ok(frame) ==> zstd_content(frame@) == Some(data@),
{
    let mut frame = Vec::new();
    match zstd::stream::copy_encode(data, &mut frame, level) {
        Ok(()) => Ok(frame),
        Err(e) => Err(e.to_string()),
    }
}

/// The first `n` paths without the store directory, or the first of them
/// that does not lie in the store.
pub open spec fn stripped_all(store_dir: Seq<char>, paths: Seq<Seq<char>>, n: int) -> Result<
    Seq<Seq<char>>,
    Seq<char>,
>
    decreases n,
{
    if n <= 0 || n > paths.len() {
        Ok(Seq::empty())
    } else {
        match stripped_all(store_dir, paths, n - 1) {
            Err(path) => Err(path),
            Ok(done) => match crate::nix::stripped(store_dir, paths[n - 1]) {
                Some(rest) => Ok(done.push(rest)),
                None => Err(paths[n - 1]),
            },
        }
    }
}

/// A path that does not lie in the store is the outcome for every longer
/// list of paths too.
pub proof fn lemma_stripped_all_fails(
    store_dir: Seq<char>,
    paths: Seq<Seq<char>>,
    n: int,
    m: int,
)
    requires
        0 <= n <= m <= paths.len(),
        stripped_all(store_dir, paths, n) is Err,
    ensures
        stripped_all(store_dir, paths, m) == stripped_all(store_dir, paths, n),
    decreases m - n,
{
    if n < m {
        lemma_stripped_all_fails(store_dir, paths, n, m - 1);
    }
}

/// Drops the store directory from each path. Fails with `InvalidStorePath`
/// at the first path that does not lie in the store.
pub fn strip_all(options: &PushOptions, paths: &Vec<String>) -> (r: Result<Vec<String>, Error>)
    ensures
        match stripped_all(options.store_dir@, crate::text::views(paths@), paths@.len() as int) {
            Ok(rest) => r matches Ok(list) && crate::text::views(list@) == rest,
            Err(path) => r matches Err(Error::InvalidStorePath(p)) && p@ == path,
        },
{
    let mut list: Vec<String> = Vec::new();
    let mut i: usize = 0;
    assert(crate::text::views(list@) =~= Seq::<Seq<char>>::empty());
    while i < paths.len()
        invariant
            i <= paths.len(),
            stripped_all(options.store_dir@, crate::text::views(paths@), i as int) matches Ok(rest)
                && crate::text::views(list@) == rest,
        decreases paths.len() - i,
    {
        assert(crate::text::views(paths@)[i as int] == paths@[i as int]@);
        match strip_store_dir(options, paths[i].as_str()) {
            Ok(rest) => {
                let ghost before = crate::text::views(list@);
                list.push(rest);
                assert(crate::text::views(list@) =~= before.push(rest@));
            },
            Err(e) => {
                proof {
                    lemma_stripped_all_fails(
                        options.store_dir@,
                        crate::text::views(paths@),
                        i + 1,
                        paths@.len() as int,
                    );
                }
                return Err(e);
            },
        }
        i += 1;
    }
    Ok(list)
}

/// The deriver without the store directory, where there is a deriver; or
/// the deriver as it is, where it does not lie in the store.
pub open spec fn stripped_deriver(store_dir: Seq<char>, deriver: Option<String>) -> Result<
    Option<Seq<char>>,
    Seq<char>,
> {
    match deriver {
        None => Ok(None),
        Some(path) => match crate::nix::stripped(store_dir, path@) {
            Some(rest) => Ok(Some(rest)),
            None => Err(path@),
        },
    }
}

/// The key of an archive: `nar/`, its hash, and `.nar.zst`.
pub open spec fn nar_key(base32: Seq<char>) -> Seq<char> {
    "nar/"@ + base32 + ".nar.zst"@
}

/// Whether the signatures of a row are within the limit of the base64
/// decoder.
pub open spec fn checkable(sigs: Option<String>) -> bool {
    sigs matches Some(text) ==> decodable(text@)
}

/// Whether `uploads` are the two objects of a path: the archive first, then
/// its descriptor.
pub open spec fn uploads_of(
    options: PushOptions,
    info: PathInfo,
    hash: Seq<char>,
    nar_size: usize,
    nar_hash: NixHash,
    frame: Seq<u8>,
    references: Seq<Seq<char>>,
    deriver: Option<Seq<char>>,
    sigs: Seq<(Seq<char>, Seq<char>)>,
    uploads: Seq<(OciLocation, OciItem)>,
) -> bool {
    &&& uploads.len() == 2
    &&& uploads[0].0.registry@ == options.registry@
    &&& uploads[0].0.repository@ == options.repository@
    &&& uploads[0].0.key@ == nar_key(nar_hash.base32@)
    &&& uploads[0].1.content_type matches Some(c) && c@ == NAR_CONTENT_TYPE@
    &&& uploads[0].1.data@ == frame
    &&& uploads[1].0.registry@ == options.registry@
    &&& uploads[1].0.repository@ == options.repository@
    &&& uploads[1].0.key@ == hash + ".narinfo"@
    &&& uploads[1].1.content_type matches Some(c) && c@ == NARINFO_CONTENT_TYPE@
    &&& uploads[1].1.data@ == encode_utf8(
        crate::nix::narinfo_text(
            crate::nix::NarInfoView {
                store_path: info.path@,
                url: nar_key(nar_hash.base32@),
                compression: "zstd"@,
                file_hash: "sha256"@ + ":"@ + crate::nix::nix_base32_text(
                    crate::nix::sha256(frame),
                ),
                file_size: frame.len(),
                nar_hash: nar_hash.display_text(),
                nar_size: nar_size as nat,
                references,
                deriver,
                sigs,
                ca: crate::error::optional_text(info.ca),
            },
        ),
    )
}

/// Whether `r` is what is planned for a path whose archive has the given
/// size and hash, and the given frame when compressed.
///
/// The path must lie in the store and have a hash there. The size of the
/// archive must be that of the row. So must what the row refers to, and its
/// deriver, lie in the store. The signatures of the row must be readable. The
/// key signs the fingerprint of the descriptor, and the signature is merged
/// into those of the row. Each of these may fail with its own failure, in
/// this order. Otherwise two objects are planned: the archive, under
/// `nar/HASH.nar.zst`, and then the descriptor, under `HASH.narinfo`.
pub open spec fn planned(
    options: PushOptions,
    key_pair: NixKeyPair,
    info: PathInfo,
    nar_size: usize,
    nar_hash: NixHash,
    frame: Seq<u8>,
    r: Result<Vec<(OciLocation, OciItem)>, Error>,
) -> bool {
    let store_dir = options.store_dir@;
    match crate::nix::store_path_hash(store_dir, info.path@) {
        None => r matches Err(Error::InvalidStorePath(p)) && p@ == info.path@,
        Some(hash) => if info.nar_size < 0 || info.nar_size > usize::MAX {
            r == Err::<Vec<(OciLocation, OciItem)>, Error>(Error::InvalidNarSize(info.nar_size))
        } else if nar_size != info.nar_size {
            r == Err::<Vec<(OciLocation, OciItem)>, Error>(
                Error::NarSizeNotMatch(info.nar_size, nar_size),
            )
        } else {
            match stripped_all(
                store_dir,
                crate::text::views(info.reference_store_paths@),
                info.reference_store_paths@.len() as int,
            ) {
                Err(path) => r matches Err(Error::InvalidStorePath(p)) && p@ == path,
                Ok(references) => match stripped_deriver(store_dir, info.deriver_store_paths) {
                    Err(path) => r matches Err(Error::InvalidStorePath(p)) && p@ == path,
                    Ok(deriver) => match crate::nix::sign::row_sigs(info.sigs) {
                        Err(token) => r matches Err(Error::InvalidSignature(t)) && t@ == token,
                        Ok(list) => {
                            let fingerprint = encode_utf8(
                                crate::nix::fingerprint_text(
                                    store_dir,
                                    info.path@,
                                    nar_hash.display_text(),
                                    nar_size as nat,
                                    references,
                                ),
                            );
                            let new = (
                                key_pair.name_text(),
                                crate::codec::encoded(
                                    crate::codec::Alphabet::Base64,
                                    crate::nix::sign::ed25519_signature(
                                        key_pair.secret(),
                                        fingerprint,
                                    ),
                                ),
                            );
                            match crate::nix::sign::first_conflict(
                                list,
                                key_pair.public(),
                                fingerprint,
                                new,
                                0,
                            ) {
                                Some(i) => r matches Err(e) && crate::nix::sign::conflict_error(
                                    key_pair.public(),
                                    fingerprint,
                                    list[i],
                                    new,
                                    e,
                                ),
                                None => r matches Ok(uploads) && uploads_of(
                                    options,
                                    info,
                                    hash,
                                    nar_size,
                                    nar_hash,
                                    frame,
                                    references,
                                    deriver,
                                    crate::nix::sign::merged(list, new),
                                    uploads@,
                                ),
                            }
                        },
                    },
                },
            }
        },
    }
}

/// What is planned for a path is the archive as it was compressed, and a
/// descriptor for an archive of the size that the row of the path has.
pub proof fn lemma_planned_archive(
    options: PushOptions,
    key_pair: NixKeyPair,
    info: PathInfo,
    nar_size: usize,
    nar_hash: NixHash,
    frame: Seq<u8>,
    r: Result<Vec<(OciLocation, OciItem)>, Error>,
)
    requires
        planned(options, key_pair, info, nar_size, nar_hash, frame, r),
        r is Ok,
    ensures
        nar_size == info.nar_size,
        r->Ok_0@.len() == 2,
        r->Ok_0@[0].1.data@ == frame,
        r->Ok_0@[0].0.key@ == nar_key(nar_hash.base32@),
{
}

/// Plans the uploads of a path from its row, from the size and the hash of
/// its archive, and from the compressed archive.
pub fn plan_uploads(
    options: &PushOptions,
    key_pair: &NixKeyPair,
    path_info: PathInfo,
    nar_size: usize,
    nar_hash: NixHash,
    nar_file_data: Vec<u8>,
) -> (r: Result<Vec<(OciLocation, OciItem)>, Error>)
    requires
        checkable(path_info.sigs),
    ensures
        planned(*options, *key_pair, path_info, nar_size, nar_hash, nar_file_data@, r),
{
    let store_path_hash = match store_path_to_hash(options, path_info.path.as_str()) {
        Ok(hash) => hash,
        Err(e) => {
            return Err(e);
        },
    };
    let nar_info_filename = concat2(store_path_hash.as_str(), ".narinfo");
    let nar_file_size = nar_file_data.len();
    let nar_file_hash = NixHash::hash_data(nar_file_data.as_slice());
    if path_info.nar_size < 0 || path_info.nar_size as u64 > usize::MAX as u64 {
        return Err(Error::InvalidNarSize(path_info.nar_size));
    }
    let expected_nar_size: usize = path_info.nar_size as usize;
    if nar_size != expected_nar_size {
        return Err(Error::NarSizeNotMatch(path_info.nar_size, nar_size));
    }
    let nar_file_url = concat3("nar/", nar_hash.base32.as_str(), ".nar.zst");
    let references = match strip_all(options, &path_info.reference_store_paths) {
        Ok(references) => references,
        Err(e) => {
            return Err(e);
        },
    };
    let deriver: Option<String> = match &path_info.deriver_store_paths {
        None => None,
        Some(path) => match strip_store_dir(options, path.as_str()) {
            Ok(rest) => Some(rest),
            Err(e) => {
                return Err(e);
            },
        },
    };
    let fingerprint = nar_info_fingerprint(
        options.store_dir.as_str(),
        path_info.path.as_str(),
        &nar_hash,
        nar_size,
        references.as_slice(),
    );
    let nar_info_sign = match key_pair.sign(fingerprint.as_str().as_bytes()) {
        Ok(sig) => sig,
        Err(e) => {
            return Err(e);
        },
    };
    let mut sig_list = match NixSignatureList::from_optional_str(&path_info.sigs) {
        Ok(list) => list,
        Err(e) => {
            return Err(e);
        },
    };
    let ghost list = sig_list@;
    let ghost new = nar_info_sign@;
    let ghost signed = encode_utf8(fingerprint@);
    proof {
        lemma_row_sigs_decodable(path_info.sigs);
    }
    match sig_list.merge(key_pair, fingerprint.as_str().as_bytes(), nar_info_sign) {
        Ok(()) => {},
        Err(e) => {
            return Err(e);
        },
    }
    let ghost sigs = sig_list@;
    let ghost kept = crate::text::views(references@);
    let ghost origin = crate::error::optional_text(deriver);
    assert(crate::nix::store_path_hash(options.store_dir@, path_info.path@) == Some(
        store_path_hash@,
    ));
    assert(stripped_all(
        options.store_dir@,
        crate::text::views(path_info.reference_store_paths@),
        path_info.reference_store_paths@.len() as int,
    ) == Ok::<Seq<Seq<char>>, Seq<char>>(kept));
    assert(stripped_deriver(options.store_dir@, path_info.deriver_store_paths) == Ok::<
        Option<Seq<char>>,
        Seq<char>,
    >(origin));
    let nar_info = NarInfo {
        store_path: path_info.path,
        url: nar_file_url.clone(),
        compression: "zstd".to_owned(),
        file_hash: nar_file_hash,
        file_size: nar_file_size,
        nar_hash,
        nar_size,
        references,
        deriver,
        sigs: sig_list,
        ca: path_info.ca,
    };
    let nar_info_content = nar_info.to_text();
    let nar_info_data = nar_info_content.as_str().as_bytes_vec();
    assert(nar_info@ == crate::nix::NarInfoView {
        store_path: path_info.path@,
        url: nar_key(nar_hash.base32@),
        compression: "zstd"@,
        file_hash: "sha256"@ + ":"@ + crate::nix::nix_base32_text(
            crate::nix::sha256(nar_file_data@),
        ),
        file_size: nar_file_data@.len(),
        nar_hash: nar_hash.display_text(),
        nar_size: nar_size as nat,
        references: kept,
        deriver: origin,
        sigs,
        ca: crate::error::optional_text(path_info.ca),
    });
    let mut uploads: Vec<(OciLocation, OciItem)> = Vec::new();
    uploads.push(
        (
            OciLocation {
                registry: options.registry.clone(),
                repository: options.repository.clone(),
                key: nar_file_url,
            },
            OciItem { content_type: Some(NAR_CONTENT_TYPE.to_owned()), data: nar_file_data },
        ),
    );
    uploads.push(
        (
            OciLocation {
                registry: options.registry.clone(),
                repository: options.repository.clone(),
                key: nar_info_filename,
            },
            OciItem { content_type: Some(NARINFO_CONTENT_TYPE.to_owned()), data: nar_info_data },
        ),
    );
    proof {
        assert(crate::nix::sign::row_sigs(path_info.sigs) == Ok::<
            Seq<(Seq<char>, Seq<char>)>,
            Seq<char>,
        >(list));
        assert(signed == encode_utf8(
            crate::nix::fingerprint_text(
                options.store_dir@,
                path_info.path@,
                nar_hash.display_text(),
                nar_size as nat,
                kept,
            ),
        ));
        assert(new == (
            key_pair.name_text(),
            crate::codec::encoded(
                crate::codec::Alphabet::Base64,
                crate::nix::sign::ed25519_signature(key_pair.secret(), signed),
            ),
        ));
        assert(crate::nix::sign::first_conflict(list, key_pair.public(), signed, new, 0) is None);
        assert(sigs == crate::nix::sign::merged(list, new));
        assert(uploads_of(
            *options,
            path_info,
            store_path_hash@,
            nar_size,
            nar_hash,
            nar_file_data@,
            kept,
            origin,
            sigs,
            uploads@,
        ));
    }
    Ok(uploads)
}

/// Whether `r` is what is prepared for a path from its row and from its
/// archive, where the path is a store path with a hash.
///
/// The archive is compressed at the level of the options. Where that fails,
/// the result is the failure `Io` with its text. Otherwise the uploads are
/// planned from the row, from the size and the SHA-256 hash of the archive,
/// and from the frame; and the frame decodes to the archive.
pub open spec fn prepared_from(
    options: PushOptions,
    key_pair: NixKeyPair,
    info: PathInfo,
    nar: Seq<u8>,
    r: Result<Vec<(OciLocation, OciItem)>, Error>,
) -> bool {
    match zstd_frame(nar, options.zstd_level) {
        Err(description) => r matches Err(Error::Io(text)) && text@ == description,
        Ok(frame) => {
            &&& zstd_content(frame) == Some(nar)
            &&& exists|nar_hash: NixHash|
                {
                    &&& nar_hash.algorithm@ == "sha256"@
                    &&& nar_hash.base32@ == crate::nix::nix_base32_text(crate::nix::sha256(nar))
                    &&& #[trigger] planned(
                        options,
                        key_pair,
                        info,
                        nar.len() as usize,
                        nar_hash,
                        frame,
                        r,
                    )
                }
        },
    }
}

/// Prepares the uploads of a path from its row and from its archive.
///
/// The archive is hashed, and compressed at the level of the options; the
/// uploads are planned from the row, the hash and the compressed archive.
/// The uploaded archive decodes to the archive that was given, and the
/// descriptor bears the size and the hash of that archive. Where the path is
/// no store path with a hash, nothing is compressed. Where the compression
/// fails, its failure is the result.
pub fn prepare_uploads(
    options: &PushOptions,
    key_pair: &NixKeyPair,
    path_info: PathInfo,
    nar_data: Vec<u8>,
) -> (r: Result<Vec<(OciLocation, OciItem)>, Error>)
    requires
        checkable(path_info.sigs),
    ensures
        crate::nix::store_path_hash(options.store_dir@, path_info.path@) is None ==> (r matches Err(
            Error::InvalidStorePath(p),
        ) && p@ == path_info.path@),
        crate::nix::store_path_hash(options.store_dir@, path_info.path@) is Some ==> prepared_from(
            *options,
            *key_pair,
            path_info,
            nar_data@,
            r,
        ),
{
    match store_path_to_hash(options, path_info.path.as_str()) {
        Ok(_) => {},
        Err(e) => {
            return Err(e);
        },
    }
    let nar_size = nar_data.len();
    let nar_hash = NixHash::hash_data(nar_data.as_slice());
    let nar_file_data = match zstd_compress(nar_data.as_slice(), options.zstd_level) {
        Ok(frame) => frame,
        Err(description) => {
            return Err(Error::Io(description));
        },
    };
    let ghost frame = nar_file_data@;
    let r = plan_uploads(options, key_pair, path_info, nar_size, nar_hash, nar_file_data);
    assert(planned(*options, *key_pair, path_info, nar_data@.len() as usize, nar_hash, frame, r));
    r
}

} // verus!
