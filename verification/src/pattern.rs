//! Bulk maintenance driven by a textual pattern over resource keys:
//! invalidate matching entries, or force-expire them without deleting
//! content.

use vstd::prelude::*;
use crate::cache::{meta_name_of, spec_meta_name};
use crate::errors::CacheError;
use crate::expiry::{encode_expiry, spec_encode};
use crate::store::CacheManager;

verus! {

#[verifier::external_type_specification]
#[verifier::external_body]
pub struct ExRegex(regex::Regex);

/// Whether a key matches a pattern: a function of the pattern source text and
/// the key alone, computed by the regular-expression engine.
pub uninterp spec fn regex_matches(pattern: Seq<char>, text: Seq<char>) -> bool;

/// A compiled key pattern: a standard regular expression kept together with
/// its source text, which the contracts speak about. Anchoring is not
/// implied; callers anchor their own patterns.
pub struct CachePattern {
    source: String,
    regex: regex::Regex,
}

impl View for CachePattern {
    type V = Seq<char>;

    closed spec fn view(&self) -> Seq<char> {
        self.source@
    }
}

impl CachePattern {
    /// Relies on `regex::Regex::new`: compilation succeeds only on valid
    /// pattern syntax within the engine's size limit, and the compiled
    /// pattern matches as its source text says.
    #[verifier::external_body]
    pub fn new(pattern: &str) -> (r: Option<CachePattern>)
        ensures
            r matches Some(p) ==> p@ == pattern@,
    {
        match regex::Regex::new(pattern) {
            Ok(regex) => Some(CachePattern { source: pattern.to_string(), regex }),
            Err(_) => None,
        }
    }

    /// Relies on `regex::Regex::is_match`: whether the text matches, a
    /// function of the pattern source and the text alone.
    #[verifier::external_body]
    pub fn is_match(&self, text: &str) -> (r: bool)
        ensures
            r == regex_matches(self@, text@),
    {
        self.regex.is_match(text)
    }
}

/// Relies on `str::strip_suffix`: `Some` exactly when the string ends with
/// the suffix, returning everything before it.
#[verifier::external_body]
fn strip_suffix_of(s: &str, suffix: &str) -> (r: Option<String>)
    ensures
        match r {
            Some(p) => s@ == p@ + suffix@,
            None => !(s@.len() >= suffix@.len() && s@.skip(s@.len() - suffix@.len()) == suffix@),
        },
{
    s.strip_suffix(suffix).map(|p| p.to_string())
}

/// The file names a clearing pass deletes: every stored name that matches
/// the pattern, and the metadata sibling of every matching name.
pub open spec fn cleared_names(m: Map<Seq<char>, Seq<u8>>, pattern: Seq<char>) -> Set<Seq<char>> {
    Set::new(
        |n: Seq<char>|
            (m.contains_key(n) && regex_matches(pattern, n)) || (exists|b: Seq<char>|
                m.contains_key(b) && regex_matches(pattern, b) && n == spec_meta_name(b)),
    )
}

/// The names cleared once the first `i` directory entries are processed.
pub open spec fn partial_cleared(pattern: Seq<char>, all: Seq<Seq<char>>, i: int) -> Set<
    Seq<char>,
> {
    Set::new(
        |n: Seq<char>|
            (all.take(i).contains(n) && regex_matches(pattern, n)) || (exists|b: Seq<char>|
                all.take(i).contains(b) && regex_matches(pattern, b) && n == spec_meta_name(b)),
    )
}

/// Whether a file name is a metadata file whose stem matches the pattern.
pub open spec fn is_expired_target(pattern: Seq<char>, n: Seq<char>) -> bool {
    n.len() >= 7 && n.skip(n.len() - 7) == ".expiry"@ && regex_matches(pattern, n.take(n.len() - 7))
}

/// The directory after a force-expiry pass: every metadata file whose stem
/// matches the pattern is rewritten to the given instant with no token;
/// everything else is untouched.
pub open spec fn expired_map(
    m: Map<Seq<char>, Seq<u8>>,
    pattern: Seq<char>,
    now: u64,
) -> Map<Seq<char>, Seq<u8>> {
    Map::new(
        |n: Seq<char>| m.contains_key(n),
        |n: Seq<char>|
            if is_expired_target(pattern, n) {
                spec_encode(now, None)
            } else {
                m[n]
            },
    )
}

impl CacheManager {
    /// Delete the content and metadata files of every key whose name matches
    /// the pattern; the metadata half is removed best-effort, so an absent
    /// sibling is tolerated silently. Already-removed entries stay removed.
    pub fn clear_cache_pattern(&mut self, pattern: &CachePattern) -> (r: Result<(), CacheError>)
        requires
            old(self).wf(),
        ensures
            final(self).wf(),
            r is Ok,
            final(self)@ == old(self)@.remove_keys(cleared_names(old(self)@, pattern@)),
    {
        let names = self.names();
        let ghost pre = self@;
        let ghost all = names.deep_view();
        let n = names.len();
        let mut i: usize = 0;
        while i < n
            invariant
                i <= n == names@.len(),
                all == names.deep_view(),
                all.no_duplicates(),
                all.to_set() == pre.dom(),
                self.wf(),
                self@ == pre.remove_keys(partial_cleared(pattern@, all, i as int)),
            decreases n - i,
        {
            let name = &names[i];
            let ghost k = all[i as int];
            proof {
                assert(k == names@[i as int]@);
                assert(all.take(i as int + 1).drop_last() =~= all.take(i as int));
                assert forall|x: Seq<char>| #[trigger] all.take(i as int + 1).contains(x) implies (
                all.take(i as int).contains(x) || x == k) by {
                    let j = choose|j: int|
                        0 <= j < all.take(i as int + 1).len() && #[trigger] all.take(i as int + 1)[j] == x;
                    if j < i {
                        assert(all.take(i as int)[j] == x);
                    }
                }
                assert(all.take(i as int + 1).contains(k)) by {
                    assert(all.take(i as int + 1)[i as int] == k);
                }
                assert forall|x: Seq<char>| #[trigger] all.take(i as int).contains(x) implies all
                    .take(i as int + 1).contains(x) by {
                    let j = choose|j: int|
                        0 <= j < all.take(i as int).len() && #[trigger] all.take(i as int)[j] == x;
                    assert(all.take(i as int + 1)[j] == x);
                }
            }
            if pattern.is_match(name.as_str()) {
                self.remove_file(name);
                let meta_n = meta_name_of(name.as_str());
                self.remove_file(&meta_n);
                proof {
                    assert(pre.remove_keys(partial_cleared(pattern@, all, i as int)).remove(
                        k,
                    ).remove(spec_meta_name(k)) =~= pre.remove_keys(
                        partial_cleared(pattern@, all, i as int + 1),
                    ));
                }
            } else {
                proof {
                    assert(partial_cleared(pattern@, all, i as int) =~= partial_cleared(
                        pattern@,
                        all,
                        i as int + 1,
                    ));
                }
            }
            i = i + 1;
        }
        proof {
            let elems = all.len() as int;
            assert(all.take(elems) =~= all);
            let pc = partial_cleared(pattern@, all, elems);
            let cn = cleared_names(pre, pattern@);
            assert forall|nn: Seq<char>| #[trigger] pc.contains(nn) implies cn.contains(nn) by {
                if all.take(elems).contains(nn) && regex_matches(pattern@, nn) {
                    assert(all.to_set().contains(nn));
                } else {
                    let b = choose|b: Seq<char>|
                        all.take(elems).contains(b) && regex_matches(pattern@, b) && nn
                            == #[trigger] spec_meta_name(b);
                    assert(all.to_set().contains(b));
                    assert(pre.contains_key(b) && regex_matches(pattern@, b) && nn
                        == spec_meta_name(b));
                }
            }
            assert forall|nn: Seq<char>| #[trigger] cn.contains(nn) implies pc.contains(nn) by {
                if pre.contains_key(nn) && regex_matches(pattern@, nn) {
                    assert(all.to_set().contains(nn));
                } else {
                    let b = choose|b: Seq<char>|
                        pre.contains_key(b) && regex_matches(pattern@, b) && nn
                            == #[trigger] spec_meta_name(b);
                    assert(all.to_set().contains(b));
                    assert(all.take(elems).contains(b) && regex_matches(pattern@, b) && nn
                        == spec_meta_name(b));
                }
            }
            assert(pc =~= cn);
            assert(self@ =~= pre.remove_keys(cn));
        }
        Ok(())
    }

    /// Rewrite the metadata file of every key whose name matches the pattern
    /// so that the entry is recorded as expiring at the given instant with no
    /// token, forcing the next freshness-respecting read at a later instant
    /// to treat the entry as stale. Content files are untouched.
    pub fn set_expired_pattern(&mut self, pattern: &CachePattern, now: u64) -> (r: Result<
        (),
        CacheError,
    >)
        requires
            old(self).wf(),
        ensures
            final(self).wf(),
            r is Ok,
            final(self)@ == expired_map(old(self)@, pattern@, now),
    {
        let names = self.names();
        let ghost pre = self@;
        let ghost all = names.deep_view();
        let n = names.len();
        let mut i: usize = 0;
        while i < n
            invariant
                i <= n == names@.len(),
                all == names.deep_view(),
                all.no_duplicates(),
                all.to_set() == pre.dom(),
                self.wf(),
                self@.dom() == pre.dom(),
                forall|kk: Seq<char>| #[trigger]
                    pre.contains_key(kk) ==> self@[kk] == if is_expired_target(pattern@, kk)
                        && all.take(i as int).contains(kk) {
                        spec_encode(now, None)
                    } else {
                        pre[kk]
                    },
            decreases n - i,
        {
            let name = &names[i];
            let ghost k = all[i as int];
            let ghost before = self@;
            proof {
                assert(k == names@[i as int]@);
                assert(all.to_set().contains(k));
                assert(pre.contains_key(k));
                reveal_strlit(".expiry");
                assert forall|x: Seq<char>| #[trigger] all.take(i as int + 1).contains(x) implies (
                all.take(i as int).contains(x) || x == k) by {
                    let j = choose|j: int|
                        0 <= j < all.take(i as int + 1).len() && #[trigger] all.take(i as int + 1)[j] == x;
                    if j < i {
                        assert(all.take(i as int)[j] == x);
                    }
                }
                assert(all.take(i as int + 1).contains(k)) by {
                    assert(all.take(i as int + 1)[i as int] == k);
                }
                assert forall|x: Seq<char>| #[trigger] all.take(i as int).contains(x) implies all
                    .take(i as int + 1).contains(x) by {
                    let j = choose|j: int|
                        0 <= j < all.take(i as int).len() && #[trigger] all.take(i as int)[j] == x;
                    assert(all.take(i as int + 1)[j] == x);
                }
            }
            match strip_suffix_of(name.as_str(), ".expiry") {
                Some(stem) => {
                    proof {
                        assert(k.skip(k.len() - 7) =~= ".expiry"@);
                        assert(k.take(k.len() - 7) =~= stem@);
                    }
                    if pattern.is_match(stem.as_str()) {
                        let data = encode_expiry(now, &None);
                        self.insert_file(name.clone(), data);
                        proof {
                            assert(is_expired_target(pattern@, k));
                            assert(self@ == before.insert(k, spec_encode(now, None)));
                            assert(self@.dom() =~= pre.dom());
                        }
                    } else {
                        proof {
                            assert(!is_expired_target(pattern@, k));
                        }
                    }
                },
                None => {
                    proof {
                        assert(!is_expired_target(pattern@, k));
                    }
                },
            }
            proof {
                assert forall|kk: Seq<char>| #[trigger] pre.contains_key(kk) implies self@[kk]
                    == if is_expired_target(pattern@, kk) && all.take(i as int + 1).contains(kk) {
                    spec_encode(now, None)
                } else {
                    pre[kk]
                } by {}
            }
            i = i + 1;
        }
        proof {
            assert(all.take(all.len() as int) =~= all);
            assert forall|kk: Seq<char>| #[trigger] pre.contains_key(kk) implies all.contains(
                kk,
            ) by {
                assert(all.to_set().contains(kk));
            }
            assert(self@ =~= expired_map(pre, pattern@, now));
        }
        Ok(())
    }
}

} // verus!
