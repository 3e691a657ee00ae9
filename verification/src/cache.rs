//! The cache proper: the policy engine that classifies a stored entry, the
//! read and write paths over the directory model, and the orchestrator
//! `get_or_write` that refreshes stale entries through a fetch callback.

use vstd::prelude::*;
use vstd::string::StringExecFns;
use vstd::slice::slice_to_vec;
use crate::errors::CacheError;
use crate::expiry::{
    decode_expiry, decode_matches, encode_expiry, expired_at, lemma_codec_round_trip,
    normalize_token, opt_str_view, spec_decode, spec_encode, token_of, CacheExpiry, ETag,
    ExpiryModel,
};
use crate::store::CacheManager;

verus! {

/// The outcome of reading one cached entry.
#[derive(Debug, PartialEq)]
pub enum CacheFile {
    /// Bytes usable immediately.
    Fresh(Vec<u8>),
    /// Bytes exist but must be revalidated before trusted use; the token, if
    /// one was stored, is forwarded to the revalidation call.
    Expired(Vec<u8>, Option<ETag>),
    /// Nothing usable is cached.
    Missing,
}

/// The mathematical value of a `CacheFile`.
pub enum CacheFileModel {
    Fresh(Seq<u8>),
    Expired(Seq<u8>, Option<Seq<char>>),
    Missing,
}

impl View for CacheFile {
    type V = CacheFileModel;

    open spec fn view(&self) -> CacheFileModel {
        match self {
            CacheFile::Fresh(b) => CacheFileModel::Fresh(b@),
            CacheFile::Expired(b, tok) => CacheFileModel::Expired(b@, opt_str_view(*tok)),
            CacheFile::Missing => CacheFileModel::Missing,
        }
    }
}

/// How aggressively staleness is tolerated or enforced, chosen per call.
#[derive(Clone, Copy, Debug, PartialEq, Eq, Structural)]
pub enum CachePolicy {
    /// Respect the recorded expiry; revalidate only once it has passed.
    Default,
    /// Use cached bytes unconditionally if present; never revalidate.
    IgnoreExpiry,
    /// Treat present bytes as expired and force a revalidation round trip.
    Revalidate,
    /// Bypass the cache entirely: always fetch fresh, still persist.
    IgnoreCached,
}

/// What one underlying file read reported.
pub enum ReadOutcome {
    /// The file exists and holds these bytes.
    Data(Vec<u8>),
    /// The file does not exist: never an error, folded into the result space.
    Absent,
    /// The read failed for a reason other than not-found.
    Failed,
}

/// The mathematical value of a `ReadOutcome`.
pub enum OutcomeModel {
    Data(Seq<u8>),
    Absent,
    Failed,
}

impl View for ReadOutcome {
    type V = OutcomeModel;

    open spec fn view(&self) -> OutcomeModel {
        match self {
            ReadOutcome::Data(b) => OutcomeModel::Data(b@),
            ReadOutcome::Absent => OutcomeModel::Absent,
            ReadOutcome::Failed => OutcomeModel::Failed,
        }
    }
}

/// What a revalidation or fetch callback reports.
pub enum FetchResult {
    /// The provider confirms the prior bytes still stand; only the freshness
    /// metadata is renewed.
    NotModified(CacheExpiry),
    /// A full replacement: new bytes and their freshness metadata.
    Modified(Vec<u8>, CacheExpiry),
}

/// The expiry record a metadata read outcome denotes: an absent file means
/// the entry never expires, a failed read is a read error, and stored bytes
/// decode through the codec.
pub open spec fn spec_read_expiry_outcome(meta: OutcomeModel) -> Result<ExpiryModel, CacheError> {
    match meta {
        OutcomeModel::Absent => Ok(ExpiryModel::Never),
        OutcomeModel::Failed => Err(CacheError::ReadError),
        OutcomeModel::Data(b) => spec_decode(b),
    }
}

/// The token kept by policies that tolerate unreadable metadata: whatever the
/// metadata holds if it decodes, and no token otherwise.
pub open spec fn tolerant_token(meta: OutcomeModel) -> Option<Seq<char>> {
    match spec_read_expiry_outcome(meta) {
        Ok(e) => token_of(e),
        Err(_) => None,
    }
}

/// The policy table: what a read returns for each policy, content state and
/// metadata state.
///
/// Absent content is `None` under every policy. Present content is `None`
/// under `IgnoreCached`, `Fresh` under `IgnoreExpiry`, always `Expired` under
/// `Revalidate`, and `Fresh` or `Expired` by the recorded instant under
/// `Default`. Only `Default` needs true expiry semantics, so only it turns an
/// unreadable or undecodable metadata file into a hard error; `Revalidate`
/// downgrades such metadata to "no token". A failed content read is a hard
/// error under every policy that touches the disk.
pub open spec fn spec_classify(
    policy: CachePolicy,
    content: OutcomeModel,
    meta: OutcomeModel,
    now: u64,
) -> Result<CacheFileModel, CacheError> {
    match content {
        OutcomeModel::Data(buf) => match policy {
            CachePolicy::IgnoreCached => Ok(CacheFileModel::Missing),
            CachePolicy::IgnoreExpiry => Ok(CacheFileModel::Fresh(buf)),
            CachePolicy::Revalidate => Ok(CacheFileModel::Expired(buf, tolerant_token(meta))),
            CachePolicy::Default => match spec_read_expiry_outcome(meta) {
                Err(e) => Err(e),
                Ok(e) => if expired_at(e, now) {
                    Ok(CacheFileModel::Expired(buf, token_of(e)))
                } else {
                    Ok(CacheFileModel::Fresh(buf))
                },
            },
        },
        OutcomeModel::Absent => Ok(CacheFileModel::Missing),
        OutcomeModel::Failed => if policy == CachePolicy::IgnoreCached {
            Ok(CacheFileModel::Missing)
        } else {
            Err(CacheError::ReadError)
        },
    }
}

/// Whether an executable read result and its model agree.
pub open spec fn read_result_matches(
    r: Result<CacheFile, CacheError>,
    s: Result<CacheFileModel, CacheError>,
) -> bool {
    match (r, s) {
        (Ok(f), Ok(m)) => f@ == m,
        (Err(a), Err(b)) => a == b,
        _ => false,
    }
}

/// The expiry record a metadata read outcome denotes.
pub fn read_expiry_outcome(meta: ReadOutcome) -> (r: Result<CacheExpiry, CacheError>)
    ensures
        decode_matches(r, spec_read_expiry_outcome(meta@)),
{
    match meta {
        ReadOutcome::Absent => Ok(CacheExpiry::Never),
        ReadOutcome::Failed => Err(CacheError::ReadError),
        ReadOutcome::Data(b) => decode_expiry(b.as_slice()),
    }
}

/// The policy engine: feed what the two file reads reported through the
/// policy table of `spec_classify`.
pub fn classify_read(
    policy: CachePolicy,
    content: ReadOutcome,
    meta: ReadOutcome,
    now: u64,
) -> (r: Result<CacheFile, CacheError>)
    ensures
        read_result_matches(r, spec_classify(policy, content@, meta@, now)),
{
    match content {
        ReadOutcome::Data(buf) => match policy {
            CachePolicy::IgnoreCached => Ok(CacheFile::Missing),
            CachePolicy::IgnoreExpiry => Ok(CacheFile::Fresh(buf)),
            CachePolicy::Revalidate => {
                let expiry = match read_expiry_outcome(meta) {
                    Ok(e) => e,
                    Err(_) => CacheExpiry::Never,
                };
                let etag = expiry.etag();
                Ok(CacheFile::Expired(buf, etag))
            },
            CachePolicy::Default => match read_expiry_outcome(meta) {
                Err(e) => Err(e),
                Ok(expiry) => {
                    let etag = expiry.etag();
                    if expiry.is_expired_at(now) {
                        Ok(CacheFile::Expired(buf, etag))
                    } else {
                        Ok(CacheFile::Fresh(buf))
                    }
                },
            },
        },
        ReadOutcome::Absent => Ok(CacheFile::Missing),
        ReadOutcome::Failed => {
            if matches!(policy, CachePolicy::IgnoreCached) {
                Ok(CacheFile::Missing)
            } else {
                Err(CacheError::ReadError)
            }
        },
    }
}

/// The name of the metadata file that sits beside a content file: the
/// resource key with a fixed suffix appended.
pub open spec fn spec_meta_name(key: Seq<char>) -> Seq<char> {
    key + ".expiry"@
}

/// The metadata file name for a resource key.
pub(crate) fn meta_name_of(resource: &str) -> (r: String)
    ensures
        r@ == spec_meta_name(resource@),
{
    let s: String = resource.to_owned();
    s.concat(".expiry")
}

/// What the content file read reports under the directory model: the file's
/// bytes, or that it is absent.
pub open spec fn content_outcome(m: Map<Seq<char>, Seq<u8>>, key: Seq<char>) -> OutcomeModel {
    if m.contains_key(key) {
        OutcomeModel::Data(m[key])
    } else {
        OutcomeModel::Absent
    }
}

/// What the metadata file read reports under the directory model.
pub open spec fn meta_outcome(m: Map<Seq<char>, Seq<u8>>, key: Seq<char>) -> OutcomeModel {
    content_outcome(m, spec_meta_name(key))
}

/// What a read of the given key returns under the directory model.
pub open spec fn spec_read(
    m: Map<Seq<char>, Seq<u8>>,
    key: Seq<char>,
    policy: CachePolicy,
    now: u64,
) -> Result<CacheFileModel, CacheError> {
    spec_classify(policy, content_outcome(m, key), meta_outcome(m, key), now)
}

/// The directory after an expiry record is persisted under the given file
/// name: `Never` stores no file and clears any stale one, any other record
/// stores its encoded bytes.
pub open spec fn spec_set_expiry(
    m: Map<Seq<char>, Seq<u8>>,
    name: Seq<char>,
    e: ExpiryModel,
) -> Map<Seq<char>, Seq<u8>> {
    match e {
        ExpiryModel::Never => m.remove(name),
        ExpiryModel::At { instant, token } => m.insert(name, spec_encode(instant, token)),
    }
}

/// The directory after a full write of a key: the content file holds the new
/// bytes and the metadata file is replaced alongside it.
pub open spec fn spec_write(
    m: Map<Seq<char>, Seq<u8>>,
    key: Seq<char>,
    data: Seq<u8>,
    e: ExpiryModel,
) -> Map<Seq<char>, Seq<u8>> {
    spec_set_expiry(m.insert(key, data), spec_meta_name(key), e)
}

impl CacheManager {
    /// A cache manager bound to one directory. The surrounding application
    /// creates the named directory under the platform cache location; the
    /// manager starts from the model of what it has written itself.
    pub fn for_dir(dir: &str) -> (r: Option<Self>)
        ensures
            r matches Some(m) && m.wf() && m@ == Map::<Seq<char>, Seq<u8>>::empty(),
    {
        Some(CacheManager::empty())
    }

    /// Read one entry under a policy, classifying it by the policy table.
    /// `now` is the instant the freshness decision is made at, in seconds
    /// since the Unix epoch.
    pub fn read_cache_file(&self, resource: &str, policy: CachePolicy, now: u64) -> (r: Result<
        CacheFile,
        CacheError,
    >)
        requires
            self.wf(),
        ensures
            read_result_matches(r, spec_read(self@, resource@, policy, now)),
    {
        if matches!(policy, CachePolicy::IgnoreCached) {
            return Ok(CacheFile::Missing);
        }
        let key: String = resource.to_owned();
        let content = match self.lookup(&key) {
            Some(d) => ReadOutcome::Data(d),
            None => ReadOutcome::Absent,
        };
        let meta_n = meta_name_of(resource);
        let meta = match self.lookup(&meta_n) {
            Some(d) => ReadOutcome::Data(d),
            None => ReadOutcome::Absent,
        };
        classify_read(policy, content, meta, now)
    }

    /// Persist an expiry record under the given file name.
    fn set_expiry_for_name(&mut self, name: String, expiry: CacheExpiry)
        requires
            old(self).wf(),
        ensures
            final(self).wf(),
            final(self)@ == spec_set_expiry(old(self)@, name@, expiry@),
    {
        match expiry {
            CacheExpiry::Never => self.remove_file(&name),
            CacheExpiry::AtUnixTimestamp(t, tok) => {
                let data = encode_expiry(t, &tok);
                self.insert_file(name, data);
            },
        }
    }

    /// Write one entry: the content file and its metadata file are replaced
    /// together, so no trace of an earlier entry under the same key remains.
    pub fn write_cache_file(&mut self, resource: &str, content: &[u8], expiry: CacheExpiry) -> (r:
        Result<(), CacheError>)
        requires
            old(self).wf(),
        ensures
            final(self).wf(),
            r is Ok,
            final(self)@ == spec_write(old(self)@, resource@, content@, expiry@),
    {
        let key: String = resource.to_owned();
        self.insert_file(key, slice_to_vec(content));
        let meta_n = meta_name_of(resource);
        self.set_expiry_for_name(meta_n, expiry);
        Ok(())
    }

    /// The single entry point consumers use: return usable bytes for a key,
    /// refreshing the cache through `fetch` when needed.
    ///
    /// A `Fresh` read returns its bytes at once and never fetches. An
    /// `Expired` read fetches with the stored token: `NotModified` renews
    /// only the metadata and returns the stored bytes, `Modified` writes the
    /// replacement in full and returns it. An empty read fetches with no
    /// token: a provider claiming `NotModified` then is the no-content error,
    /// and nothing is written.
    pub fn get_or_write<F: FnOnce(Option<ETag>) -> Result<FetchResult, CacheError>>(
        &mut self,
        resource: &str,
        policy: CachePolicy,
        now: u64,
        fetch: F,
    ) -> (r: Result<Vec<u8>, CacheError>)
        requires
            old(self).wf(),
            forall|t: Option<ETag>| call_requires(fetch, (t,)),
        ensures
            final(self).wf(),
            match spec_read(old(self)@, resource@, policy, now) {
                Err(e) => r == Err::<Vec<u8>, CacheError>(e) && final(self)@ == old(self)@,
                Ok(CacheFileModel::Fresh(b)) => (r matches Ok(v) && v@ == b) && final(self)@
                    == old(self)@,
                Ok(CacheFileModel::Expired(b, tok)) => exists|
                    targ: Option<ETag>,
                    fr: Result<FetchResult, CacheError>,
                |
                    {
                        &&& opt_str_view(targ) == tok
                        &&& #[trigger] call_ensures(fetch, (targ,), fr)
                        &&& match fr {
                            Ok(FetchResult::NotModified(e)) => (r matches Ok(v) && v@ == b)
                                && final(self)@ == spec_set_expiry(
                                old(self)@,
                                spec_meta_name(resource@),
                                e@,
                            ),
                            Ok(FetchResult::Modified(nb, e)) => (r matches Ok(v) && v@ == nb@)
                                && final(self)@ == spec_write(old(self)@, resource@, nb@, e@),
                            Err(e) => r == Err::<Vec<u8>, CacheError>(e) && final(self)@ == old(
                                self,
                            )@,
                        }
                    },
                Ok(CacheFileModel::Missing) => exists|fr: Result<FetchResult, CacheError>|
                    {
                        &&& #[trigger] call_ensures(fetch, (None::<ETag>,), fr)
                        &&& match fr {
                            Ok(FetchResult::NotModified(_)) => r == Err::<Vec<u8>, CacheError>(
                                CacheError::NoContent,
                            ) && final(self)@ == old(self)@,
                            Ok(FetchResult::Modified(nb, e)) => (r matches Ok(v) && v@ == nb@)
                                && final(self)@ == spec_write(old(self)@, resource@, nb@, e@),
                            Err(e) => r == Err::<Vec<u8>, CacheError>(e) && final(self)@ == old(
                                self,
                            )@,
                        }
                    },
            },
    {
        match self.read_cache_file(resource, policy, now) {
            Err(e) => Err(e),
            Ok(CacheFile::Fresh(buf)) => Ok(buf),
            Ok(CacheFile::Expired(buf, etag)) => {
                let ghost targ = etag;
                let fr = fetch(etag);
                let ghost gfr = fr;
                match fr {
                    Err(e) => Err(e),
                    Ok(FetchResult::NotModified(expiry)) => {
                        let meta_n = meta_name_of(resource);
                        self.set_expiry_for_name(meta_n, expiry);
                        Ok(buf)
                    },
                    Ok(FetchResult::Modified(fresh, expiry)) => {
                        let _ = self.write_cache_file(resource, fresh.as_slice(), expiry);
                        Ok(fresh)
                    },
                }
            },
            Ok(CacheFile::Missing) => {
                let fr = fetch(None);
                let ghost gfr = fr;
                match fr {
                    Err(e) => Err(e),
                    Ok(FetchResult::NotModified(_)) => Err(CacheError::NoContent),
                    Ok(FetchResult::Modified(fresh, expiry)) => {
                        let _ = self.write_cache_file(resource, fresh.as_slice(), expiry);
                        Ok(fresh)
                    },
                }
            },
        }
    }
}

/// Round trip: after a full write of a key, a read of that key under
/// `IgnoreExpiry` returns exactly the bytes written, whatever the expiry.
pub proof fn lemma_write_then_read(
    m: Map<Seq<char>, Seq<u8>>,
    key: Seq<char>,
    data: Seq<u8>,
    e: ExpiryModel,
    now: u64,
)
    ensures
        spec_read(spec_write(m, key, data, e), key, CachePolicy::IgnoreExpiry, now) == Ok::<
            CacheFileModel,
            CacheError,
        >(CacheFileModel::Fresh(data)),
{
    reveal_strlit(".expiry");
    assert(spec_meta_name(key).len() == key.len() + 7);
}

/// Boundary: an entry whose recorded expiry instant equals "now" exactly is
/// still classified as fresh under the freshness-respecting policy.
pub proof fn lemma_boundary_still_fresh(
    m: Map<Seq<char>, Seq<u8>>,
    key: Seq<char>,
    now: u64,
    token: Option<Seq<char>>,
)
    requires
        m.contains_key(key),
        spec_read_expiry_outcome(meta_outcome(m, key)) == Ok::<ExpiryModel, CacheError>(
            ExpiryModel::At { instant: now, token },
        ),
    ensures
        spec_read(m, key, CachePolicy::Default, now) == Ok::<CacheFileModel, CacheError>(
            CacheFileModel::Fresh(m[key]),
        ),
{
}

/// A `NotModified` refresh leaves the stored bytes untouched: persisting the
/// renewed metadata changes only the metadata file, and a subsequent metadata
/// read reflects the new expiry record.
pub proof fn lemma_not_modified_preserves_content(
    m: Map<Seq<char>, Seq<u8>>,
    key: Seq<char>,
    e: ExpiryModel,
)
    requires
        m.contains_key(key),
    ensures
        ({
            let m2 = spec_set_expiry(m, spec_meta_name(key), e);
            &&& m2.contains_key(key)
            &&& m2[key] == m[key]
            &&& spec_read_expiry_outcome(meta_outcome(m2, key)) == (match e {
                ExpiryModel::Never => Ok::<ExpiryModel, CacheError>(ExpiryModel::Never),
                ExpiryModel::At { instant, token } => Ok::<ExpiryModel, CacheError>(
                    ExpiryModel::At { instant, token: normalize_token(token) },
                ),
            })
        }),
{
    reveal_strlit(".expiry");
    assert(spec_meta_name(key).len() == key.len() + 7);
    match e {
        ExpiryModel::Never => {},
        ExpiryModel::At { instant, token } => {
            lemma_codec_round_trip(instant, token);
        },
    }
}

/// Two sequential writes to the same key are independent: the second fully
/// replaces both the content and the metadata, leaving no trace of the first.
pub proof fn lemma_second_write_wins(
    m: Map<Seq<char>, Seq<u8>>,
    key: Seq<char>,
    d1: Seq<u8>,
    e1: ExpiryModel,
    d2: Seq<u8>,
    e2: ExpiryModel,
)
    ensures
        spec_write(spec_write(m, key, d1, e1), key, d2, e2) == spec_write(m, key, d2, e2),
{
    assert(spec_write(spec_write(m, key, d1, e1), key, d2, e2) =~= spec_write(m, key, d2, e2));
}

} // verus!
