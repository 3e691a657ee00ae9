//! Freshness metadata and its binary codec.
//!
//! An expiry record is either `Never` (no metadata file exists) or an instant
//! in seconds since the Unix epoch together with an optional revalidation
//! token. On disk the record is the instant as eight big-endian bytes,
//! followed by the raw UTF-8 bytes of the token; the token field is present
//! only when the token is non-empty.

use vstd::prelude::*;
use vstd::utf8::{decode_utf8, encode_utf8, valid_utf8};
use crate::errors::CacheError;

verus! {

/// An opaque revalidation token (for example an HTTP-style ETag), presented
/// on a later fetch to ask the provider "has this changed since token T?".
pub type ETag = String;

/// Freshness metadata for one cached entry.
#[derive(Clone, Debug, PartialEq)]
pub enum CacheExpiry {
    /// The entry never goes stale (no metadata file is stored for it).
    Never,
    /// The entry goes stale strictly after the given instant, in seconds
    /// since the Unix epoch; an optional revalidation token rides along.
    AtUnixTimestamp(u64, Option<ETag>),
}

/// The character sequences of an optional string.
pub open spec fn opt_str_view(t: Option<String>) -> Option<Seq<char>> {
    match t {
        Some(s) => Some(s@),
        None => None,
    }
}

/// The mathematical value of a `CacheExpiry`.
pub enum ExpiryModel {
    Never,
    At { instant: u64, token: Option<Seq<char>> },
}

impl View for CacheExpiry {
    type V = ExpiryModel;

    open spec fn view(&self) -> ExpiryModel {
        match self {
            CacheExpiry::Never => ExpiryModel::Never,
            CacheExpiry::AtUnixTimestamp(t, tok) => ExpiryModel::At {
                instant: *t,
                token: opt_str_view(*tok),
            },
        }
    }
}

/// Whether an expiry record counts as stale at the given instant: strictly
/// greater than, so a record whose instant equals "now" is still fresh.
pub open spec fn expired_at(e: ExpiryModel, now: u64) -> bool {
    match e {
        ExpiryModel::Never => false,
        ExpiryModel::At { instant, token } => now > instant,
    }
}

/// The token carried by an expiry record, if any.
pub open spec fn token_of(e: ExpiryModel) -> Option<Seq<char>> {
    match e {
        ExpiryModel::Never => None,
        ExpiryModel::At { instant, token } => token,
    }
}

/// The eight big-endian bytes of an instant.
pub open spec fn spec_encode_instant(t: u64) -> Seq<u8> {
    seq![
        (t >> 56) as u8,
        (t >> 48) as u8,
        (t >> 40) as u8,
        (t >> 32) as u8,
        (t >> 24) as u8,
        (t >> 16) as u8,
        (t >> 8) as u8,
        t as u8,
    ]
}

/// The instant read back from eight big-endian bytes.
pub open spec fn spec_decode_instant(b: Seq<u8>) -> u64
    recommends
        b.len() == 8,
{
    (((b[0] as u64) << 56) | ((b[1] as u64) << 48) | ((b[2] as u64) << 40) | ((b[3] as u64) << 32)
        | ((b[4] as u64) << 24) | ((b[5] as u64) << 16) | ((b[6] as u64) << 8) | (b[7] as u64)) as u64
}

/// The on-disk bytes of an expiry record at a given instant: the instant,
/// then the UTF-8 bytes of the token if one is present.
pub open spec fn spec_encode(instant: u64, token: Option<Seq<char>>) -> Seq<u8> {
    spec_encode_instant(instant) + match token {
        Some(s) => encode_utf8(s),
        None => Seq::<u8>::empty(),
    }
}

/// An empty token stores no bytes, so it reads back as no token at all.
pub open spec fn normalize_token(token: Option<Seq<char>>) -> Option<Seq<char>> {
    match token {
        Some(s) => if s.len() == 0 {
            None
        } else {
            Some(s)
        },
        None => None,
    }
}

/// The expiry record stored in the given metadata bytes: the first eight
/// bytes are the instant, the remainder is an optional UTF-8 token. Records
/// shorter than the instant field, or with token bytes that are not valid
/// UTF-8, do not decode.
pub open spec fn spec_decode(b: Seq<u8>) -> Result<ExpiryModel, CacheError> {
    if b.len() < 8 {
        Err(CacheError::ConversionError)
    } else {
        let instant = spec_decode_instant(b.take(8));
        let tail = b.skip(8);
        if tail.len() == 0 {
            Ok(ExpiryModel::At { instant, token: None })
        } else if valid_utf8(tail) {
            Ok(ExpiryModel::At { instant, token: Some(decode_utf8(tail)) })
        } else {
            Err(CacheError::ConversionError)
        }
    }
}

/// Eight big-endian bytes hold exactly the instant they were made from.
pub proof fn lemma_instant_round_trip(t: u64)
    ensures
        spec_decode_instant(spec_encode_instant(t)) == t,
{
    let b = spec_encode_instant(t);
    assert(((((t >> 56) as u8) as u64) << 56 | (((t >> 48) as u8) as u64) << 48 | (((t >> 40)
        as u8) as u64) << 40 | (((t >> 32) as u8) as u64) << 32 | (((t >> 24) as u8) as u64) << 24
        | (((t >> 16) as u8) as u64) << 16 | (((t >> 8) as u8) as u64) << 8 | ((t as u8) as u64))
        == t) by (bit_vector);
}

/// A non-empty character sequence encodes to at least one byte.
proof fn lemma_encode_utf8_nonempty(s: Seq<char>)
    requires
        s.len() > 0,
    ensures
        encode_utf8(s).len() > 0,
{
    assert(vstd::utf8::encode_scalar(s[0] as u32).len() >= 1);
}

/// Codec round trip: decoding an encoded record reconstructs the instant and
/// the token, with an empty token reading back as no token.
pub proof fn lemma_codec_round_trip(instant: u64, token: Option<Seq<char>>)
    ensures
        spec_decode(spec_encode(instant, token)) == Ok::<ExpiryModel, CacheError>(
            ExpiryModel::At { instant, token: normalize_token(token) },
        ),
{
    broadcast use vstd::utf8::encode_utf8_valid_utf8;
    broadcast use vstd::utf8::encode_utf8_decode_utf8;

    let b = spec_encode(instant, token);
    let tb = match token {
        Some(s) => encode_utf8(s),
        None => Seq::<u8>::empty(),
    };
    assert(b.take(8) =~= spec_encode_instant(instant));
    assert(b.skip(8) =~= tb);
    lemma_instant_round_trip(instant);
    match token {
        None => {},
        Some(s) => {
            if s.len() == 0 {
                assert(encode_utf8(s) =~= Seq::<u8>::empty());
            } else {
                lemma_encode_utf8_nonempty(s);
            }
        },
    }
}

impl CacheExpiry {
    /// Whether this record counts as stale at the given instant.
    pub fn is_expired_at(&self, now: u64) -> (r: bool)
        ensures
            r == expired_at(self@, now),
    {
        match self {
            CacheExpiry::Never => false,
            CacheExpiry::AtUnixTimestamp(instant, _) => now > *instant,
        }
    }

    /// The revalidation token stored in this record, if any.
    pub fn etag(&self) -> (r: Option<ETag>)
        ensures
            opt_str_view(r) == token_of(self@),
    {
        match self {
            CacheExpiry::Never => None,
            CacheExpiry::AtUnixTimestamp(_, tok) => match tok {
                Some(t) => Some(t.clone()),
                None => None,
            },
        }
    }

    /// A record that goes stale the given number of seconds from now,
    /// saturating at the largest representable instant.
    pub fn expire_in_seconds(seconds: u64, etag: Option<ETag>) -> (r: Self)
        ensures
            r@ matches ExpiryModel::At { instant, token } && token == opt_str_view(etag),
    {
        let now = unix_now_seconds();
        let instant = if now <= u64::MAX - seconds {
            now + seconds
        } else {
            u64::MAX
        };
        CacheExpiry::AtUnixTimestamp(instant, etag)
    }
}

/// Relies on `std::time::SystemTime::now`: the seconds elapsed since the Unix
/// epoch, or zero if the system clock reads earlier than the epoch.
#[verifier::external_body]
fn unix_now_seconds() -> u64 {
    match std::time::SystemTime::now().duration_since(std::time::SystemTime::UNIX_EPOCH) {
        Ok(d) => d.as_secs(),
        Err(_) => 0,
    }
}

/// The bytes that `write` stores for an expiry record at the given instant.
pub fn encode_expiry(instant: u64, token: &Option<ETag>) -> (r: Vec<u8>)
    ensures
        r@ == spec_encode(instant, opt_str_view(*token)),
{
    let mut out: Vec<u8> = Vec::new();
    out.push((instant >> 56) as u8);
    out.push((instant >> 48) as u8);
    out.push((instant >> 40) as u8);
    out.push((instant >> 32) as u8);
    out.push((instant >> 24) as u8);
    out.push((instant >> 16) as u8);
    out.push((instant >> 8) as u8);
    out.push(instant as u8);
    if let Some(tag) = token {
        out.extend_from_slice(tag.as_str().as_bytes());
    }
    assert(out@ =~= spec_encode(instant, opt_str_view(*token)));
    out
}

/// Relies on `String::from_utf8`: it succeeds exactly on valid UTF-8 input
/// and returns the string whose characters that input encodes.
#[verifier::external_body]
fn string_from_utf8(bytes: Vec<u8>) -> (r: Option<String>)
    ensures
        match r {
            Some(s) => valid_utf8(bytes@) && s@ == decode_utf8(bytes@),
            None => !valid_utf8(bytes@),
        },
{
    String::from_utf8(bytes).ok()
}

/// Whether an executable decode result and its model agree.
pub open spec fn decode_matches(
    r: Result<CacheExpiry, CacheError>,
    s: Result<ExpiryModel, CacheError>,
) -> bool {
    match (r, s) {
        (Ok(e), Ok(m)) => e@ == m,
        (Err(a), Err(b)) => a == b,
        _ => false,
    }
}

/// The expiry record stored in the given metadata bytes.
pub fn decode_expiry(bytes: &[u8]) -> (r: Result<CacheExpiry, CacheError>)
    ensures
        decode_matches(r, spec_decode(bytes@)),
{
    if bytes.len() < 8 {
        return Err(CacheError::ConversionError);
    }
    let instant = ((bytes[0] as u64) << 56) | ((bytes[1] as u64) << 48) | ((bytes[2] as u64) << 40)
        | ((bytes[3] as u64) << 32) | ((bytes[4] as u64) << 24) | ((bytes[5] as u64) << 16) | ((
    bytes[6] as u64) << 8) | (bytes[7] as u64);
    assert(instant == spec_decode_instant(bytes@.take(8)));
    let mut tail: Vec<u8> = Vec::new();
    let mut i: usize = 8;
    while i < bytes.len()
        invariant
            8 <= i <= bytes@.len(),
            tail@ =~= bytes@.subrange(8, i as int),
        decreases bytes@.len() - i,
    {
        tail.push(bytes[i]);
        i = i + 1;
    }
    assert(tail@ =~= bytes@.skip(8));
    if tail.len() == 0 {
        Ok(CacheExpiry::AtUnixTimestamp(instant, None))
    } else {
        match string_from_utf8(tail) {
            Some(token) => Ok(CacheExpiry::AtUnixTimestamp(instant, Some(token))),
            None => Err(CacheError::ConversionError),
        }
    }
}

} // verus!
