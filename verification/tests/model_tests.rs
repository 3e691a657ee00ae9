use spot_cache::models::{
    AlbumDescription, AlbumRef, ArtistRef, Batch, SongBatch, SongDescription,
};

fn song(id: &str) -> SongDescription {
    SongDescription {
        id: id.to_string(),
        uri: "".to_string(),
        title: "Title".to_string(),
        artists: vec![],
        album: AlbumRef { id: "".to_string(), name: "".to_string() },
        duration: 1000,
        art: None,
        track_number: None,
    }
}

fn album(artists: Vec<ArtistRef>, release_date: Option<&str>) -> AlbumDescription {
    AlbumDescription {
        id: "a".to_string(),
        title: "t".to_string(),
        artists,
        release_date: release_date.map(|d| d.to_string()),
        art: None,
        songs: SongBatch::empty(),
        is_liked: false,
    }
}

fn artist(name: &str) -> ArtistRef {
    ArtistRef { id: name.to_string(), name: name.to_string() }
}

#[test]
fn resize_batch() {
    let batch = SongBatch {
        songs: vec![song("1"), song("2"), song("3"), song("4")],
        batch: Batch::first_of_size(4),
    };

    let batches = batch.resize(2);
    assert_eq!(batches.len(), 2);
    assert_eq!(&batches.get(0).unwrap().songs.get(0).unwrap().id, "1");
    assert_eq!(&batches.get(1).unwrap().songs.get(0).unwrap().id, "3");
}

#[test]
fn resize_batch_uneven_leaves_short_tail() {
    let batch = SongBatch {
        songs: vec![song("1"), song("2"), song("3"), song("4"), song("5")],
        batch: Batch::first_of_size(5),
    };
    let batches = batch.resize(2);
    assert_eq!(batches.len(), 3);
    assert_eq!(batches[0].songs.len(), 2);
    assert_eq!(batches[1].songs.len(), 2);
    assert_eq!(batches[2].songs.len(), 1);
    assert_eq!(batches[0].batch.offset, 0);
    assert_eq!(batches[1].batch.offset, 2);
    assert_eq!(batches[2].batch.offset, 4);
    assert_eq!(&batches[2].songs[0].id, "5");
}

#[test]
fn resize_batch_growing_keeps_one_batch() {
    let batch = SongBatch {
        songs: vec![song("1"), song("2")],
        batch: Batch { offset: 6, batch_size: 2, total: 10 },
    };
    let batches = batch.resize(4);
    assert_eq!(batches.len(), 1);
    assert_eq!(batches[0].songs.len(), 2);
    assert_eq!(batches[0].batch.offset, 6);
    assert_eq!(batches[0].batch.batch_size, 4);
    assert_eq!(batches[0].batch.total, 10);
}

#[test]
fn batch_next_steps_until_total() {
    let b = Batch { offset: 0, batch_size: 10, total: 25 };
    let b1 = b.next().unwrap();
    assert_eq!(b1.offset, 10);
    let b2 = b1.next().unwrap();
    assert_eq!(b2.offset, 20);
    assert!(b2.next().is_none());
}

#[test]
fn first_of_size_starts_at_zero() {
    let b = Batch::first_of_size(7);
    assert_eq!(b.offset, 0);
    assert_eq!(b.batch_size, 7);
    assert_eq!(b.total, 0);
}

#[test]
fn artists_name_joins_with_commas() {
    let a = album(vec![artist("Ada"), artist("Grace"), artist("Edsger")], None);
    assert_eq!(a.artists_name(), "Ada, Grace, Edsger");
    let solo = album(vec![artist("Ada")], None);
    assert_eq!(solo.artists_name(), "Ada");
    let nobody = album(vec![], None);
    assert_eq!(nobody.artists_name(), "");
}

#[test]
fn song_artists_name_joins_with_commas() {
    let mut s = song("1");
    s.artists = vec![artist("A"), artist("B")];
    assert_eq!(s.artists_name(), "A, B");
}

#[test]
fn year_reads_digits_before_dash() {
    assert_eq!(album(vec![], Some("1999-12-01")).year(), Some(1999));
    assert_eq!(album(vec![], Some("2020")).year(), Some(2020));
    assert_eq!(album(vec![], Some("+2020-01")).year(), Some(2020));
    assert_eq!(album(vec![], Some("abcd-01")).year(), None);
    assert_eq!(album(vec![], Some("-01")).year(), None);
    assert_eq!(album(vec![], Some("")).year(), None);
    assert_eq!(album(vec![], Some("99999999999-01")).year(), None);
    assert_eq!(album(vec![], None).year(), None);
}

#[test]
fn empty_song_batch_has_no_songs() {
    let b = SongBatch::empty();
    assert_eq!(b.songs.len(), 0);
    assert_eq!(b.batch.batch_size, 1);
    assert_eq!(b.batch.offset, 0);
}
