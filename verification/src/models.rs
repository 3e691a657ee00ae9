//! Domain model types for the music library the cache serves: albums, songs,
//! playlists, artists, users, and the pagination windows used to fetch them
//! in batches.

use vstd::prelude::*;
use vstd::math::min;
use vstd::string::StringExecFns;
use vstd::arithmetic::div_mod::{lemma_fundamental_div_mod, lemma_fundamental_div_mod_converse};
use vstd::arithmetic::mul::lemma_mul_is_distributive_add_other_way;

verus! {

/// Pagination window over a remotely fetched list: the window starts at
/// `offset`, holds up to `batch_size` items, out of `total` items overall.
#[derive(Clone, Copy, Debug)]
pub struct Batch {
    pub offset: usize,
    pub batch_size: usize,
    pub total: usize,
}

impl Batch {
    /// The first window of a given size, before any total is known.
    pub fn first_of_size(batch_size: usize) -> (r: Self)
        ensures
            r == (Batch { offset: 0usize, batch_size, total: 0usize }),
    {
        Self { offset: 0, batch_size, total: 0 }
    }

    /// The window after this one, if it still starts inside the list.
    pub fn next(self) -> (r: Option<Self>)
        requires
            self.offset + self.batch_size <= usize::MAX,
        ensures
            r == if self.offset + self.batch_size < self.total {
                Some(
                    Batch {
                        offset: (self.offset + self.batch_size) as usize,
                        batch_size: self.batch_size,
                        total: self.total,
                    },
                )
            } else {
                None::<Batch>
            },
    {
        let offset = self.offset + self.batch_size;
        if offset < self.total {
            Some(Batch { offset, batch_size: self.batch_size, total: self.total })
        } else {
            None
        }
    }
}

#[derive(Clone, Debug)]
pub struct UserRef {
    pub id: String,
    pub display_name: String,
}

#[derive(Clone, Debug)]
pub struct ArtistRef {
    pub id: String,
    pub name: String,
}

#[derive(Clone, Debug)]
pub struct AlbumRef {
    pub id: String,
    pub name: String,
}

#[derive(Clone, Debug)]
pub struct SearchResults {
    pub albums: Vec<AlbumDescription>,
    pub artists: Vec<ArtistSummary>,
}

/// The names of a list of artists, separated by a comma and a space.
pub open spec fn joined_names(names: Seq<Seq<char>>) -> Seq<char>
    decreases names.len(),
{
    if names.len() == 0 {
        Seq::empty()
    } else if names.len() == 1 {
        names[0]
    } else {
        joined_names(names.drop_last()) + ", "@ + names.last()
    }
}

/// The artist names of a list of artist references.
pub open spec fn artist_names(artists: Seq<ArtistRef>) -> Seq<Seq<char>> {
    artists.map_values(|a: ArtistRef| a.name@)
}

/// The names of the given artists, joined for display.
fn join_artist_names(artists: &Vec<ArtistRef>) -> (r: String)
    ensures
        r@ == joined_names(artist_names(artists@)),
{
    let ghost ns = artist_names(artists@);
    let mut out = String::new();
    let n = artists.len();
    let mut i: usize = 0;
    while i < n
        invariant
            i <= n == artists@.len(),
            ns == artist_names(artists@),
            out@ == joined_names(ns.take(i as int)),
        decreases n - i,
    {
        if i > 0 {
            out.append(", ");
        }
        out.append(artists[i].name.as_str());
        proof {
            assert(ns.take(i as int + 1).drop_last() =~= ns.take(i as int));
            assert(ns.take(i as int + 1).last() == ns[i as int]);
            if i == 0 {
                assert(out@ =~= ns[0]);
            }
        }
        i = i + 1;
    }
    proof {
        assert(ns.take(n as int) =~= ns);
    }
    out
}

/// Whether a character is a decimal digit.
pub open spec fn is_digit(c: char) -> bool {
    48 <= c as u32 <= 57
}

/// Whether every character of a sequence is a decimal digit.
pub open spec fn all_digits(s: Seq<char>) -> bool {
    forall|j: int| 0 <= j < s.len() ==> is_digit(#[trigger] s[j])
}

/// The number the given digits spell out.
pub open spec fn digits_val(s: Seq<char>) -> int
    decreases s.len(),
{
    if s.len() == 0 {
        0
    } else {
        digits_val(s.drop_last()) * 10 + (s.last() as u32 - 48)
    }
}

/// The number a string spells out, as standard integer parsing reads it: an
/// optional leading plus sign, then one or more decimal digits, the value
/// fitting the result type.
pub open spec fn spec_parse_u32(s: Seq<char>) -> Option<u32> {
    let body = if s.len() > 0 && s[0] == '+' {
        s.drop_first()
    } else {
        s
    };
    if body.len() > 0 && all_digits(body) && digits_val(body) <= u32::MAX {
        Some(digits_val(body) as u32)
    } else {
        None
    }
}

/// The index of the first dash in a character sequence, or its length.
pub open spec fn dash_index(s: Seq<char>) -> int
    decreases s.len(),
{
    if s.len() == 0 {
        0
    } else if s[0] == '-' {
        0
    } else {
        1 + dash_index(s.drop_first())
    }
}

/// The release year a date string starts with: the digits before the first
/// dash, parsed as a number.
pub open spec fn spec_year(date: Seq<char>) -> Option<u32> {
    spec_parse_u32(date.take(dash_index(date)))
}

proof fn lemma_dash_index_bounds(s: Seq<char>)
    ensures
        0 <= dash_index(s) <= s.len(),
        forall|j: int| 0 <= j < dash_index(s) ==> s[j] != '-',
        dash_index(s) < s.len() ==> s[dash_index(s)] == '-',
    decreases s.len(),
{
    if s.len() > 0 && s[0] != '-' {
        lemma_dash_index_bounds(s.drop_first());
        assert forall|j: int| 0 <= j < dash_index(s) implies s[j] != '-' by {
            if j > 0 {
                assert(s.drop_first()[j - 1] != '-');
            }
        }
    }
}

proof fn lemma_all_digits_prefix(s: Seq<char>, k: int)
    requires
        all_digits(s),
        0 <= k <= s.len(),
    ensures
        all_digits(s.take(k)),
{
    assert forall|j: int| 0 <= j < s.take(k).len() implies is_digit(#[trigger] s.take(k)[j]) by {
        assert(is_digit(s[j]));
    }
}

proof fn lemma_digits_val_nonneg(s: Seq<char>)
    requires
        all_digits(s),
    ensures
        digits_val(s) >= 0,
    decreases s.len(),
{
    if s.len() > 0 {
        lemma_all_digits_prefix(s, s.len() - 1);
        assert(s.take(s.len() - 1) =~= s.drop_last());
        lemma_digits_val_nonneg(s.drop_last());
        assert(is_digit(s[s.len() - 1]));
    }
}

proof fn lemma_digits_val_monotone(s: Seq<char>, k: int)
    requires
        all_digits(s),
        0 <= k <= s.len(),
    ensures
        digits_val(s) >= digits_val(s.take(k)),
    decreases s.len() - k,
{
    if k < s.len() {
        lemma_all_digits_prefix(s, k);
        lemma_digits_val_nonneg(s.take(k));
        assert(s.take(k + 1).drop_last() =~= s.take(k));
        assert(is_digit(s[k]));
        assert(s.take(k + 1).last() == s[k]);
        assert(digits_val(s.take(k + 1)) == digits_val(s.take(k)) * 10 + (s[k] as u32 - 48));
        lemma_digits_val_monotone(s, k + 1);
    } else {
        assert(s.take(k) =~= s);
    }
}

/// The number spelled by the characters of `s` between `from` and `to`, read
/// as standard integer parsing does.
fn parse_u32_range(s: &str, from: usize, to: usize) -> (r: Option<u32>)
    requires
        from <= to <= s@.len(),
    ensures
        r == spec_parse_u32(s@.subrange(from as int, to as int)),
{
    let ghost seg = s@.subrange(from as int, to as int);
    let mut start = from;
    if from < to && s.get_char(from) == '+' {
        start = from + 1;
    }
    let ghost body = if seg.len() > 0 && seg[0] == '+' {
        seg.drop_first()
    } else {
        seg
    };
    proof {
        assert(body =~= s@.subrange(start as int, to as int));
    }
    if start == to {
        return None;
    }
    let mut val: u64 = 0;
    let mut i = start;
    while i < to
        invariant
            from <= start <= i <= to <= s@.len(),
            start < to,
            seg == s@.subrange(from as int, to as int),
            body == (if seg.len() > 0 && seg[0] == '+' {
                seg.drop_first()
            } else {
                seg
            }),
            body == s@.subrange(start as int, to as int),
            all_digits(body.take(i - start)),
            val == digits_val(body.take(i - start)),
            val <= u32::MAX,
        decreases to - i,
    {
        let c = s.get_char(i);
        let cv = c as u32;
        proof {
            assert(body[i - start] == s@[i as int]);
        }
        if cv < 48 || cv > 57 {
            proof {
                assert(!is_digit(body[i - start]));
            }
            return None;
        }
        let nv: u64 = val * 10 + ((cv - 48) as u64);
        proof {
            assert(body.take(i - start + 1).drop_last() =~= body.take(i - start));
            assert(body.take(i - start + 1).last() == body[i - start]);
            assert forall|j: int|
                0 <= j < body.take(i - start + 1).len() implies is_digit(
                #[trigger] body.take(i - start + 1)[j],
            ) by {
                if j < i - start {
                    assert(is_digit(body.take(i - start)[j]));
                }
            }
            assert(nv == digits_val(body.take(i - start + 1)));
        }
        if nv > 0xffff_ffff {
            proof {
                if all_digits(body) {
                    lemma_digits_val_monotone(body, i - start + 1);
                }
            }
            return None;
        }
        val = nv;
        i = i + 1;
    }
    proof {
        assert(body.take(to - start) =~= body);
    }
    Some(val as u32)
}

/// The index of the first dash in a string, or its length in characters.
fn find_dash(s: &str) -> (end: usize)
    ensures
        end as int == dash_index(s@),
{
    let n = s.unicode_len();
    let mut i: usize = 0;
    while i < n
        invariant
            i <= n == s@.len(),
            forall|j: int| 0 <= j < i ==> s@[j] != '-',
        decreases n - i,
    {
        if s.get_char(i) == '-' {
            proof {
                lemma_dash_index_bounds(s@);
            }
            return i;
        }
        i = i + 1;
    }
    proof {
        lemma_dash_index_bounds(s@);
    }
    n
}

#[derive(Clone, Debug)]
pub struct AlbumDescription {
    pub id: String,
    pub title: String,
    pub artists: Vec<ArtistRef>,
    pub release_date: Option<String>,
    pub art: Option<String>,
    pub songs: SongBatch,
    pub is_liked: bool,
}

impl AlbumDescription {
    /// The album's artist names, joined for display.
    pub fn artists_name(&self) -> (r: String)
        ensures
            r@ == joined_names(artist_names(self.artists@)),
    {
        join_artist_names(&self.artists)
    }

    /// The release year: the digits of the release date before the first
    /// dash, if they parse as a number.
    pub fn year(&self) -> (r: Option<u32>)
        ensures
            r == match self.release_date {
                Some(d) => spec_year(d@),
                None => None::<u32>,
            },
    {
        match &self.release_date {
            None => None,
            Some(date) => {
                let ds = date.as_str();
                let end = find_dash(ds);
                proof {
                    lemma_dash_index_bounds(ds@);
                    assert(ds@.take(end as int) =~= ds@.subrange(0, end as int));
                }
                parse_u32_range(ds, 0, end)
            },
        }
    }
}

#[derive(Clone, Debug)]
pub struct AlbumFullDescription {
    pub description: AlbumDescription,
    pub release_details: AlbumReleaseDetails,
}

#[derive(Clone, Debug)]
pub struct AlbumReleaseDetails {
    pub label: String,
    pub copyright_text: String,
    pub total_tracks: usize,
}

#[derive(Clone, Debug)]
pub struct PlaylistDescription {
    pub id: String,
    pub title: String,
    pub art: Option<String>,
    pub songs: SongBatch,
    pub owner: UserRef,
}

#[derive(Clone, Copy, Debug)]
pub enum ConnectDeviceKind {
    Phone,
    Computer,
    Speaker,
    Other,
}

#[derive(Clone, Debug)]
pub struct ConnectDevice {
    pub id: String,
    pub label: String,
    pub kind: ConnectDeviceKind,
}

#[derive(Clone, Debug)]
pub struct PlaylistSummary {
    pub id: String,
    pub title: String,
}

#[derive(Clone, Debug)]
pub struct SongDescription {
    pub id: String,
    pub track_number: Option<u32>,
    pub uri: String,
    pub title: String,
    pub artists: Vec<ArtistRef>,
    pub album: AlbumRef,
    pub duration: u32,
    pub art: Option<String>,
}

impl SongDescription {
    /// The song's artist names, joined for display.
    pub fn artists_name(&self) -> (r: String)
        ensures
            r@ == joined_names(artist_names(self.artists@)),
    {
        join_artist_names(&self.artists)
    }
}

#[derive(Copy, Clone, Default)]
pub struct SongState {
    pub is_playing: bool,
    pub is_selected: bool,
}

#[derive(Debug, Clone)]
pub struct SongBatch {
    pub songs: Vec<SongDescription>,
    pub batch: Batch,
}

/// How many windows of the given size a list of the given length fills.
pub open spec fn chunk_count(n: int, bs: int) -> int {
    n / bs + if n % bs > 0 {
        1int
    } else {
        0int
    }
}

impl SongBatch {
    /// A batch with no songs and a minimal window.
    pub fn empty() -> (r: Self)
        ensures
            r.songs@.len() == 0,
            r.batch == (Batch { offset: 0usize, batch_size: 1usize, total: 0usize }),
    {
        Self { songs: Vec::new(), batch: Batch::first_of_size(1) }
    }

    /// Re-chunk the batch to a new window size. Growing the window keeps the
    /// songs in one batch; shrinking it splits the songs into consecutive
    /// windows of the new size, the last possibly shorter, with offsets
    /// advancing from this batch's offset.
    pub fn resize(self, batch_size: usize) -> (r: Vec<SongBatch>)
        requires
            batch_size >= 1,
            self.batch.offset + self.songs@.len() <= usize::MAX,
        ensures
            batch_size > self.batch.batch_size ==> r@ =~= seq![
                SongBatch {
                    songs: self.songs,
                    batch: Batch {
                        offset: self.batch.offset,
                        batch_size,
                        total: self.batch.total,
                    },
                },
            ],
            batch_size <= self.batch.batch_size ==> {
                &&& r@.len() == chunk_count(self.songs@.len() as int, batch_size as int)
                &&& forall|j: int|
                    0 <= j < r@.len() ==> (#[trigger] r@[j]).batch == (Batch {
                        offset: (self.batch.offset + j * batch_size) as usize,
                        batch_size,
                        total: self.batch.total,
                    })
                &&& forall|j: int|
                    0 <= j < r@.len() ==> (#[trigger] r@[j]).songs@ == self.songs@.subrange(
                        j * batch_size,
                        min((j + 1) * batch_size, self.songs@.len() as int),
                    )
            },
    {
        let SongBatch { mut songs, batch } = self;
        if batch_size > batch.batch_size {
            let new_batch = Batch { offset: batch.offset, batch_size, total: batch.total };
            let mut r: Vec<SongBatch> = Vec::new();
            r.push(SongBatch { songs, batch: new_batch });
            r
        } else {
            let ghost orig = songs@;
            let n = songs.len();
            let mut out: Vec<SongBatch> = Vec::new();
            let mut consumed: usize = 0;
            while songs.len() > 0
                invariant
                    batch_size >= 1,
                    n == orig.len(),
                    batch.offset + n <= usize::MAX,
                    consumed <= n,
                    songs@ == orig.skip(consumed as int),
                    songs@.len() > 0 ==> consumed == out@.len() * batch_size,
                    out@.len() > 0 ==> consumed >= (out@.len() - 1) * batch_size + 1,
                    out@.len() > 0 ==> consumed <= out@.len() * batch_size,
                    out@.len() == 0 ==> consumed == 0,
                    forall|j: int|
                        0 <= j < out@.len() ==> (#[trigger] out@[j]).batch == (Batch {
                            offset: (batch.offset + j * batch_size) as usize,
                            batch_size,
                            total: batch.total,
                        }),
                    forall|j: int|
                        0 <= j < out@.len() ==> (#[trigger] out@[j]).songs@ == orig.subrange(
                            j * batch_size,
                            min((j + 1) * batch_size, n as int),
                        ),
                decreases songs@.len(),
            {
                let ghost chunks = out@.len() as int;
                let take = if batch_size <= songs.len() {
                    batch_size
                } else {
                    songs.len()
                };
                let rest = songs.split_off(take);
                let off = batch.offset + consumed;
                let new_batch = Batch { offset: off, batch_size, total: batch.total };
                proof {
                    lemma_mul_is_distributive_add_other_way(batch_size as int, chunks, 1);
                    assert(songs@ =~= orig.subrange(
                        chunks * batch_size,
                        min((chunks + 1) * batch_size, n as int),
                    ));
                }
                out.push(SongBatch { songs, batch: new_batch });
                songs = rest;
                consumed = consumed + take;
                proof {
                    assert(songs@ =~= orig.skip(consumed as int));
                }
            }
            proof {
                assert(consumed == n);
                let chunks = out@.len() as int;
                if chunks == 0 {
                    lemma_fundamental_div_mod(n as int, batch_size as int);
                } else {
                    let tail = n - (chunks - 1) * batch_size;
                    lemma_mul_is_distributive_add_other_way(batch_size as int, chunks - 1, 1);
                    if tail == batch_size {
                        lemma_fundamental_div_mod_converse(
                            n as int,
                            batch_size as int,
                            chunks,
                            0,
                        );
                    } else {
                        lemma_fundamental_div_mod_converse(
                            n as int,
                            batch_size as int,
                            chunks - 1,
                            tail,
                        );
                    }
                }
                assert(out@.len() == chunk_count(n as int, batch_size as int));
            }
            out
        }
    }
}

#[derive(Clone, Debug)]
pub struct ArtistDescription {
    pub id: String,
    pub name: String,
    pub albums: Vec<AlbumDescription>,
    pub top_tracks: Vec<SongDescription>,
}

#[derive(Clone, Debug)]
pub struct ArtistSummary {
    pub id: String,
    pub name: String,
    pub photo: Option<String>,
}

#[derive(Clone, Debug)]
pub struct UserDescription {
    pub id: String,
    pub name: String,
    pub playlists: Vec<PlaylistDescription>,
}

/// How playback repeats once the current song or list ends.
#[derive(Clone, Copy, Debug, PartialEq, Eq, Structural)]
pub enum RepeatMode {
    Song,
    Playlist,
    Off,
}

/// A snapshot of a connected player's state.
#[derive(Clone, Debug)]
pub struct ConnectPlayerState {
    pub is_playing: bool,
    pub source: Option<String>,
    pub current_song_id: Option<String>,
    pub progress_ms: u32,
    pub repeat: RepeatMode,
    pub shuffle: bool,
}

} // verus!
