use spot_cache::cache::{classify_read, CacheFile, CachePolicy, FetchResult, ReadOutcome};
use spot_cache::errors::CacheError;
use spot_cache::expiry::{decode_expiry, encode_expiry, CacheExpiry};
use spot_cache::pattern::CachePattern;
use spot_cache::store::CacheManager;

const NOW: u64 = 1_000_000;

fn manager() -> CacheManager {
    CacheManager::for_dir("cache-tests").unwrap()
}

fn at(instant: u64, token: Option<&str>) -> CacheExpiry {
    CacheExpiry::AtUnixTimestamp(instant, token.map(|t| t.to_string()))
}

#[test]
fn policy_table_absent_content() {
    let m = manager();
    for policy in [
        CachePolicy::Default,
        CachePolicy::IgnoreExpiry,
        CachePolicy::Revalidate,
        CachePolicy::IgnoreCached,
    ] {
        assert_eq!(m.read_cache_file("missing", policy, NOW).unwrap(), CacheFile::Missing);
    }
}

#[test]
fn policy_table_present_fresh() {
    let mut m = manager();
    m.write_cache_file("k", b"bytes", at(NOW + 5, Some("tag"))).unwrap();

    assert_eq!(
        m.read_cache_file("k", CachePolicy::Default, NOW).unwrap(),
        CacheFile::Fresh(b"bytes".to_vec())
    );
    assert_eq!(
        m.read_cache_file("k", CachePolicy::IgnoreExpiry, NOW).unwrap(),
        CacheFile::Fresh(b"bytes".to_vec())
    );
    assert_eq!(
        m.read_cache_file("k", CachePolicy::Revalidate, NOW).unwrap(),
        CacheFile::Expired(b"bytes".to_vec(), Some("tag".to_string()))
    );
    assert_eq!(m.read_cache_file("k", CachePolicy::IgnoreCached, NOW).unwrap(), CacheFile::Missing);
}

#[test]
fn policy_table_present_expired() {
    let mut m = manager();
    m.write_cache_file("k", b"bytes", at(NOW - 1, Some("tag"))).unwrap();

    assert_eq!(
        m.read_cache_file("k", CachePolicy::Default, NOW).unwrap(),
        CacheFile::Expired(b"bytes".to_vec(), Some("tag".to_string()))
    );
    assert_eq!(
        m.read_cache_file("k", CachePolicy::IgnoreExpiry, NOW).unwrap(),
        CacheFile::Fresh(b"bytes".to_vec())
    );
    assert_eq!(
        m.read_cache_file("k", CachePolicy::Revalidate, NOW).unwrap(),
        CacheFile::Expired(b"bytes".to_vec(), Some("tag".to_string()))
    );
    assert_eq!(m.read_cache_file("k", CachePolicy::IgnoreCached, NOW).unwrap(), CacheFile::Missing);
}

#[test]
fn missing_metadata_means_never_expires() {
    let mut m = manager();
    m.write_cache_file("k", b"b", CacheExpiry::Never).unwrap();
    assert_eq!(
        m.read_cache_file("k", CachePolicy::Default, u64::MAX).unwrap(),
        CacheFile::Fresh(b"b".to_vec())
    );
}

#[test]
fn write_then_read_round_trip() {
    let mut m = manager();
    let payload = vec![0u8, 159, 146, 150, 255, 1];
    m.write_cache_file("key-1", &payload, at(0, None)).unwrap();
    assert_eq!(
        m.read_cache_file("key-1", CachePolicy::IgnoreExpiry, NOW).unwrap(),
        CacheFile::Fresh(payload)
    );
}

#[test]
fn codec_round_trip() {
    let cases: Vec<(u64, Option<&str>)> = vec![
        (0, None),
        (1, Some("etag-1")),
        (u64::MAX, Some("W/\"abc\"")),
        (1234567890, Some("木漏れ日 déjà vu ✓")),
    ];
    for (instant, token) in cases {
        let bytes = encode_expiry(instant, &token.map(|t| t.to_string()));
        let decoded = decode_expiry(&bytes).unwrap();
        assert_eq!(decoded, at(instant, token));
    }
}

#[test]
fn codec_empty_token_reads_back_as_no_token() {
    let bytes = encode_expiry(42, &Some(String::new()));
    assert_eq!(decode_expiry(&bytes).unwrap(), at(42, None));
}

#[test]
fn codec_rejects_short_records() {
    assert_eq!(decode_expiry(&[1, 2, 3]), Err(CacheError::ConversionError));
    assert_eq!(decode_expiry(&[]), Err(CacheError::ConversionError));
}

#[test]
fn codec_rejects_invalid_token_bytes() {
    let mut bytes = encode_expiry(42, &None);
    bytes.extend_from_slice(&[0xff, 0xfe]);
    assert_eq!(decode_expiry(&bytes), Err(CacheError::ConversionError));
}

#[test]
fn failed_content_read_is_hard_error() {
    let r = classify_read(CachePolicy::Default, ReadOutcome::Failed, ReadOutcome::Absent, NOW);
    assert_eq!(r, Err(CacheError::ReadError));
}

#[test]
fn failed_metadata_read_is_error_only_under_default() {
    let data = || ReadOutcome::Data(b"b".to_vec());
    let r = classify_read(CachePolicy::Default, data(), ReadOutcome::Failed, NOW);
    assert_eq!(r, Err(CacheError::ReadError));
    let r = classify_read(CachePolicy::Revalidate, data(), ReadOutcome::Failed, NOW);
    assert_eq!(r, Ok(CacheFile::Expired(b"b".to_vec(), None)));
    let r = classify_read(CachePolicy::IgnoreExpiry, data(), ReadOutcome::Failed, NOW);
    assert_eq!(r, Ok(CacheFile::Fresh(b"b".to_vec())));
}

#[test]
fn expiry_boundary_instant_is_still_fresh() {
    let mut m = manager();
    m.write_cache_file("k", b"b", at(NOW, None)).unwrap();
    assert_eq!(
        m.read_cache_file("k", CachePolicy::Default, NOW).unwrap(),
        CacheFile::Fresh(b"b".to_vec())
    );
    assert!(matches!(
        m.read_cache_file("k", CachePolicy::Default, NOW + 1).unwrap(),
        CacheFile::Expired(_, _)
    ));
}

#[test]
fn get_or_write_fresh_never_fetches() {
    let mut m = manager();
    m.write_cache_file("k", b"cached", at(NOW + 10, None)).unwrap();
    let r = m.get_or_write("k", CachePolicy::Default, NOW, |_| {
        panic!("fetch must not run for a fresh entry")
    });
    assert_eq!(r.unwrap(), b"cached".to_vec());
}

#[test]
fn get_or_write_not_modified_preserves_content() {
    let mut m = manager();
    m.write_cache_file("k", b"original", at(NOW - 1, Some("v1"))).unwrap();
    let r = m.get_or_write("k", CachePolicy::Default, NOW, |token| {
        assert_eq!(token, Some("v1".to_string()));
        Ok(FetchResult::NotModified(at(NOW + 100, Some("v1"))))
    });
    assert_eq!(r.unwrap(), b"original".to_vec());
    assert_eq!(
        m.read_cache_file("k", CachePolicy::Default, NOW + 50).unwrap(),
        CacheFile::Fresh(b"original".to_vec())
    );
    assert_eq!(
        m.read_cache_file("k", CachePolicy::Default, NOW + 101).unwrap(),
        CacheFile::Expired(b"original".to_vec(), Some("v1".to_string()))
    );
}

#[test]
fn get_or_write_modified_replaces_content() {
    let mut m = manager();
    m.write_cache_file("k", b"old", at(NOW - 1, Some("v1"))).unwrap();
    let r = m.get_or_write("k", CachePolicy::Default, NOW, |token| {
        assert_eq!(token, Some("v1".to_string()));
        Ok(FetchResult::Modified(b"new".to_vec(), at(NOW + 100, Some("v2"))))
    });
    assert_eq!(r.unwrap(), b"new".to_vec());
    assert_eq!(
        m.read_cache_file("k", CachePolicy::Revalidate, NOW).unwrap(),
        CacheFile::Expired(b"new".to_vec(), Some("v2".to_string()))
    );
}

#[test]
fn get_or_write_no_content_writes_nothing() {
    let mut m = manager();
    let r = m.get_or_write("k", CachePolicy::Default, NOW, |token| {
        assert_eq!(token, None);
        Ok(FetchResult::NotModified(at(NOW + 100, None)))
    });
    assert_eq!(r, Err(CacheError::NoContent));
    assert_eq!(m.read_cache_file("k", CachePolicy::IgnoreExpiry, NOW).unwrap(), CacheFile::Missing);
}

#[test]
fn get_or_write_missing_fetches_without_token() {
    let mut m = manager();
    let r = m.get_or_write("k", CachePolicy::Default, NOW, |token| {
        assert_eq!(token, None);
        Ok(FetchResult::Modified(b"fetched".to_vec(), CacheExpiry::Never))
    });
    assert_eq!(r.unwrap(), b"fetched".to_vec());
    assert_eq!(
        m.read_cache_file("k", CachePolicy::Default, u64::MAX).unwrap(),
        CacheFile::Fresh(b"fetched".to_vec())
    );
}

#[test]
fn get_or_write_propagates_fetch_errors() {
    let mut m = manager();
    let r = m.get_or_write("k", CachePolicy::Default, NOW, |_| Err(CacheError::ReadError));
    assert_eq!(r, Err(CacheError::ReadError));
}

#[test]
fn clear_matching_scopes_to_pattern() {
    let mut m = manager();
    m.write_cache_file("a1", b"1", at(NOW + 10, Some("t1"))).unwrap();
    m.write_cache_file("a2", b"2", at(NOW + 10, Some("t2"))).unwrap();
    m.write_cache_file("b1", b"3", at(NOW + 10, Some("t3"))).unwrap();

    let pat = CachePattern::new("^a").unwrap();
    m.clear_cache_pattern(&pat).unwrap();

    assert_eq!(m.read_cache_file("a1", CachePolicy::IgnoreExpiry, NOW).unwrap(), CacheFile::Missing);
    assert_eq!(m.read_cache_file("a2", CachePolicy::IgnoreExpiry, NOW).unwrap(), CacheFile::Missing);
    assert_eq!(
        m.read_cache_file("b1", CachePolicy::Revalidate, NOW).unwrap(),
        CacheFile::Expired(b"3".to_vec(), Some("t3".to_string()))
    );
}

#[test]
fn expire_matching_keeps_content_but_forces_staleness() {
    let mut m = manager();
    m.write_cache_file("a1", b"1", at(NOW + 1000, Some("t1"))).unwrap();
    m.write_cache_file("a2", b"2", at(NOW + 1000, Some("t2"))).unwrap();
    m.write_cache_file("b1", b"3", at(NOW + 1000, Some("t3"))).unwrap();

    let pat = CachePattern::new("^a").unwrap();
    m.set_expired_pattern(&pat, NOW).unwrap();

    assert_eq!(
        m.read_cache_file("a1", CachePolicy::Default, NOW + 1).unwrap(),
        CacheFile::Expired(b"1".to_vec(), None)
    );
    assert_eq!(
        m.read_cache_file("a2", CachePolicy::Default, NOW + 1).unwrap(),
        CacheFile::Expired(b"2".to_vec(), None)
    );
    assert_eq!(
        m.read_cache_file("b1", CachePolicy::Default, NOW + 1).unwrap(),
        CacheFile::Fresh(b"3".to_vec())
    );
}

#[test]
fn second_write_fully_replaces_first() {
    let mut m = manager();
    m.write_cache_file("k", b"first", at(NOW + 10, Some("t1"))).unwrap();
    m.write_cache_file("k", b"second", CacheExpiry::Never).unwrap();

    assert_eq!(
        m.read_cache_file("k", CachePolicy::Default, u64::MAX).unwrap(),
        CacheFile::Fresh(b"second".to_vec())
    );
    assert_eq!(
        m.read_cache_file("k", CachePolicy::Revalidate, NOW).unwrap(),
        CacheFile::Expired(b"second".to_vec(), None)
    );

    m.write_cache_file("k", b"third", at(NOW - 1, Some("t3"))).unwrap();
    assert_eq!(
        m.read_cache_file("k", CachePolicy::Default, NOW).unwrap(),
        CacheFile::Expired(b"third".to_vec(), Some("t3".to_string()))
    );
}

#[test]
fn expire_in_seconds_keeps_the_token() {
    let e = CacheExpiry::expire_in_seconds(60, Some("etag".to_string()));
    match e {
        CacheExpiry::AtUnixTimestamp(instant, token) => {
            assert!(instant > 0);
            assert_eq!(token, Some("etag".to_string()));
        },
        CacheExpiry::Never => panic!("expire_in_seconds must record an instant"),
    }
}

#[test]
fn pattern_rejects_invalid_syntax() {
    assert!(CachePattern::new("(unclosed").is_none());
    assert!(CachePattern::new("^a[0-9]$").is_some());
}

#[test]
fn corrupt_metadata_errors_only_under_default() {
    let mut m = manager();
    // A content file whose name is the metadata path of "k" acts as a
    // corrupt metadata record for "k": three bytes cannot hold an instant.
    m.write_cache_file("k", b"b", CacheExpiry::Never).unwrap();
    m.write_cache_file("k.expiry", &[1, 2, 3], CacheExpiry::Never).unwrap();

    assert_eq!(
        m.read_cache_file("k", CachePolicy::Default, NOW),
        Err(CacheError::ConversionError)
    );
    assert_eq!(
        m.read_cache_file("k", CachePolicy::Revalidate, NOW).unwrap(),
        CacheFile::Expired(b"b".to_vec(), None)
    );
    assert_eq!(
        m.read_cache_file("k", CachePolicy::IgnoreExpiry, NOW).unwrap(),
        CacheFile::Fresh(b"b".to_vec())
    );
}
