//! The cache directory, modelled explicitly.
//!
//! A `CacheManager` owns the contents of one cache directory: a flat set of
//! files, each a name and its raw bytes. Its mathematical value is the map
//! from file names to file contents, and every cache operation is specified
//! against that map. The surrounding application mirrors the operations onto
//! a real directory on disk.

use vstd::prelude::*;
use vstd::slice::slice_to_vec;

verus! {

/// One file in the cache directory: its name and its raw bytes.
struct FileEntry {
    name: String,
    data: Vec<u8>,
}

/// A cache bound to one directory, modelled as the directory's contents:
/// the map from file names to raw file bytes.
pub struct CacheManager {
    files: Vec<FileEntry>,
}

/// The map a list of files denotes; a later entry for the same name wins.
spec fn entries_map(s: Seq<FileEntry>) -> Map<Seq<char>, Seq<u8>>
    decreases s.len(),
{
    if s.len() == 0 {
        Map::empty()
    } else {
        entries_map(s.drop_last()).insert(s.last().name@, s.last().data@)
    }
}

/// No two files share a name.
spec fn unique_names(s: Seq<FileEntry>) -> bool {
    forall|i: int, j: int| 0 <= i < j < s.len() ==> s[i].name@ != s[j].name@
}

impl View for CacheManager {
    type V = Map<Seq<char>, Seq<u8>>;

    closed spec fn view(&self) -> Map<Seq<char>, Seq<u8>> {
        entries_map(self.files@)
    }
}

proof fn lemma_entries_map_contains(s: Seq<FileEntry>, k: Seq<char>)
    ensures
        entries_map(s).contains_key(k) <==> exists|i: int| 0 <= i < s.len() && s[i].name@ == k,
    decreases s.len(),
{
    if s.len() > 0 {
        lemma_entries_map_contains(s.drop_last(), k);
        if s.last().name@ == k {
            assert(s[s.len() - 1].name@ == k);
        } else if entries_map(s).contains_key(k) {
            let i = choose|i: int| 0 <= i < s.drop_last().len() && s.drop_last()[i].name@ == k;
            assert(s[i].name@ == k);
        } else if exists|i: int| 0 <= i < s.len() && s[i].name@ == k {
            let i = choose|i: int| 0 <= i < s.len() && s[i].name@ == k;
            assert(s.drop_last()[i].name@ == k);
        }
    }
}

proof fn lemma_entries_map_index(s: Seq<FileEntry>, i: int)
    requires
        unique_names(s),
        0 <= i < s.len(),
    ensures
        entries_map(s).contains_key(s[i].name@),
        entries_map(s)[s[i].name@] == s[i].data@,
    decreases s.len(),
{
    if i < s.len() - 1 {
        assert(unique_names(s.drop_last()));
        lemma_entries_map_index(s.drop_last(), i);
        assert(s[i].name@ != s.last().name@);
    }
}

proof fn lemma_unique_remove(s: Seq<FileEntry>, i: int)
    requires
        unique_names(s),
        0 <= i < s.len(),
    ensures
        unique_names(s.remove(i)),
{
    let t = s.remove(i);
    assert forall|a: int, b: int| 0 <= a < b < t.len() implies t[a].name@ != t[b].name@ by {
        let a0 = if a < i {
            a
        } else {
            a + 1
        };
        let b0 = if b < i {
            b
        } else {
            b + 1
        };
        assert(t[a] == s[a0] && t[b] == s[b0]);
    }
}

proof fn lemma_entries_map_remove(s: Seq<FileEntry>, i: int)
    requires
        unique_names(s),
        0 <= i < s.len(),
    ensures
        entries_map(s.remove(i)) == entries_map(s).remove(s[i].name@),
    decreases s.len(),
{
    let k = s[i].name@;
    lemma_entries_map_contains(s.drop_last(), k);
    if i == s.len() - 1 {
        assert(s.remove(i) =~= s.drop_last());
        assert(!entries_map(s.drop_last()).contains_key(k));
        assert(entries_map(s.drop_last()) =~= entries_map(s.drop_last()).insert(
            k,
            s[i].data@,
        ).remove(k));
    } else {
        let t = s.remove(i);
        assert(t.drop_last() =~= s.drop_last().remove(i));
        assert(t.last() == s.last());
        assert(unique_names(s.drop_last()));
        lemma_entries_map_remove(s.drop_last(), i);
        assert(s[i].name@ != s.last().name@);
        assert(entries_map(s.drop_last()).remove(k).insert(s.last().name@, s.last().data@)
            =~= entries_map(s.drop_last()).insert(s.last().name@, s.last().data@).remove(k));
    }
}

impl CacheManager {
    /// The directory is well formed: no two files share a name.
    pub closed spec fn wf(&self) -> bool {
        unique_names(self.files@)
    }

    /// A manager over an empty directory.
    pub(crate) fn empty() -> (r: Self)
        ensures
            r.wf(),
            r@ == Map::<Seq<char>, Seq<u8>>::empty(),
    {
        CacheManager { files: Vec::new() }
    }

    /// The bytes of the file with the given name, if it exists.
    pub(crate) fn lookup(&self, name: &String) -> (r: Option<Vec<u8>>)
        requires
            self.wf(),
        ensures
            match r {
                Some(d) => self@.contains_key(name@) && d@ == self@[name@],
                None => !self@.contains_key(name@),
            },
    {
        let n = self.files.len();
        let mut i: usize = 0;
        while i < n
            invariant
                i <= n == self.files@.len(),
                self.wf(),
                forall|j: int| 0 <= j < i ==> self.files@[j].name@ != name@,
            decreases n - i,
        {
            if self.files[i].name == *name {
                proof {
                    lemma_entries_map_index(self.files@, i as int);
                }
                return Some(slice_to_vec(self.files[i].data.as_slice()));
            }
            i = i + 1;
        }
        proof {
            lemma_entries_map_contains(self.files@, name@);
        }
        None
    }

    /// Delete the file with the given name; deleting an absent file is a
    /// silent no-op, as removing at the map level says.
    pub(crate) fn remove_file(&mut self, name: &String)
        requires
            old(self).wf(),
        ensures
            final(self).wf(),
            final(self)@ == old(self)@.remove(name@),
    {
        let n = self.files.len();
        let mut i: usize = 0;
        while i < n
            invariant
                i <= n == self.files@.len(),
                self.wf(),
                self.files@ == old(self).files@,
                forall|j: int| 0 <= j < i ==> self.files@[j].name@ != name@,
            decreases n - i,
        {
            if self.files[i].name == *name {
                proof {
                    lemma_entries_map_remove(self.files@, i as int);
                    lemma_unique_remove(self.files@, i as int);
                }
                self.files.remove(i);
                return;
            }
            i = i + 1;
        }
        proof {
            lemma_entries_map_contains(self.files@, name@);
            assert(self@ =~= old(self)@.remove(name@));
        }
    }

    /// Create or fully overwrite the file with the given name.
    pub(crate) fn insert_file(&mut self, name: String, data: Vec<u8>)
        requires
            old(self).wf(),
        ensures
            final(self).wf(),
            final(self)@ == old(self)@.insert(name@, data@),
    {
        self.remove_file(&name);
        proof {
            lemma_entries_map_contains(self.files@, name@);
        }
        let ghost mid = self.files@;
        self.files.push(FileEntry { name, data });
        proof {
            assert(self.files@.drop_last() =~= mid);
            assert(unique_names(self.files@));
            assert(self@ =~= old(self)@.insert(self.files@.last().name@, self.files@.last().data@));
        }
    }

    /// Every file name in the directory, once each.
    pub(crate) fn names(&self) -> (r: Vec<String>)
        requires
            self.wf(),
        ensures
            r.deep_view().no_duplicates(),
            r.deep_view().to_set() == self@.dom(),
    {
        let n = self.files.len();
        let mut out: Vec<String> = Vec::new();
        let mut i: usize = 0;
        while i < n
            invariant
                i <= n == self.files@.len(),
                self.wf(),
                out@.len() == i,
                forall|j: int| 0 <= j < i ==> out@[j]@ == self.files@[j].name@,
            decreases n - i,
        {
            out.push(self.files[i].name.clone());
            i = i + 1;
        }
        proof {
            assert forall|a: int, b: int|
                0 <= a < b < out.deep_view().len() implies out.deep_view()[a]
                != out.deep_view()[b] by {
                assert(out.deep_view()[a] == out@[a]@ && out.deep_view()[b] == out@[b]@);
            }
            assert(out.deep_view().no_duplicates());
            assert forall|k: Seq<char>| #[trigger] self@.dom().contains(k) implies out.deep_view(
            ).to_set().contains(k) by {
                lemma_entries_map_contains(self.files@, k);
                let j = choose|j: int| 0 <= j < self.files@.len() && self.files@[j].name@ == k;
                assert(out.deep_view()[j] == k);
            }
            assert forall|k: Seq<char>| out.deep_view().to_set().contains(k) implies self@.dom(
            ).contains(k) by {
                let j = choose|j: int| 0 <= j < out.deep_view().len() && out.deep_view()[j] == k;
                lemma_entries_map_contains(self.files@, k);
                assert(self.files@[j].name@ == k);
            }
            assert(out.deep_view().to_set() =~= self@.dom());
        }
        out
    }
}

} // verus!
