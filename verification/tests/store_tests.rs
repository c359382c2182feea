use setlistrs::repository::{
    list_all_songs, mark_song_as_deleted, mark_song_as_deleted_at, obtain_covers, obtain_sources,
    persist_link, persist_song,
};
use setlistrs::setlist::{create, delete, find_all, find_by_id};
use setlistrs::storage::Storage;
use setlistrs::types::{NewSetlist, Song, StoreError, YTLink};

fn link(url: &str, display_title: Option<&str>) -> YTLink {
    YTLink { url: url.to_string(), display_title: display_title.map(|t| t.to_string()) }
}

fn song(name: &str, source: Vec<YTLink>, cover: Option<Vec<YTLink>>, chords: &str) -> Song {
    Song { name: name.to_string(), source, cover: cover, chords: chords.to_string() }
}

#[test]
fn round_trip_one_source_one_cover() {
    let mut storage = Storage::new();
    let submitted = song(
        "Voyager",
        vec![link("https://v/source", None)],
        Some(vec![link("https://v/cover", Some("Live take"))]),
        "Am F C G",
    );
    let created = persist_song(&mut storage, submitted).expect("creation succeeds");
    assert_eq!(created.name, "Voyager");

    let listed = list_all_songs(&storage);
    assert_eq!(listed.len(), 1);
    let (id, entry) = &listed[0];
    assert_eq!(*id, 1);
    assert_eq!(entry.name, "Voyager");
    assert_eq!(entry.chords, "Am F C G");
    assert_eq!(entry.source.len(), 1);
    assert_eq!(entry.source[0].url, "https://v/source");
    assert_eq!(entry.source[0].display_title, None);
    let covers = entry.cover.as_ref().expect("cover list present");
    assert_eq!(covers.len(), 1);
    assert_eq!(covers[0].url, "https://v/cover");
    assert_eq!(covers[0].display_title, Some("Live take".to_string()));
}

#[test]
fn soft_delete_excludes_from_listing_but_not_from_setlist() {
    let mut storage = Storage::new();
    persist_song(
        &mut storage,
        song("Kept in setlists", vec![], Some(vec![]), "Dm"),
    )
    .expect("creation succeeds");
    let setlist_id = create(
        &mut storage,
        NewSetlist { display_title: "Evening".to_string(), songs: vec![1] },
    );

    let affected = mark_song_as_deleted_at(&mut storage, 1, 1_700_000_000);
    assert_eq!(affected, 1);
    assert!(list_all_songs(&storage).is_empty());

    let setlist = find_by_id(&storage, setlist_id).expect("setlist still resolves");
    assert_eq!(setlist.songs.len(), 1);
    assert_eq!(setlist.songs[0].0, 1);
    assert_eq!(setlist.songs[0].1.display_title, "Kept in setlists");
    assert_eq!(setlist.songs[0].1.chords, "Dm");
}

#[test]
fn soft_delete_twice_returns_one_then_zero() {
    let mut storage = Storage::new();
    persist_song(&mut storage, song("Once", vec![], Some(vec![]), "C")).expect("creation succeeds");
    assert_eq!(mark_song_as_deleted_at(&mut storage, 1, 10), 1);
    assert_eq!(mark_song_as_deleted_at(&mut storage, 1, 20), 0);
}

#[test]
fn soft_delete_with_clock_stamps_and_counts_rows() {
    let mut storage = Storage::new();
    persist_song(&mut storage, song("Timed", vec![], Some(vec![]), "G")).expect("creation succeeds");
    assert_eq!(mark_song_as_deleted(&mut storage, 1), 1);
    assert!(list_all_songs(&storage).is_empty());
    assert_eq!(mark_song_as_deleted(&mut storage, 1), 0);
}

#[test]
fn soft_delete_of_absent_song_returns_zero() {
    let mut storage = Storage::new();
    assert_eq!(mark_song_as_deleted_at(&mut storage, 7, 10), 0);
}

#[test]
fn setlist_lifecycle_two_songs_in_order() {
    let mut storage = Storage::new();
    persist_song(&mut storage, song("First", vec![], Some(vec![]), "C")).expect("creation succeeds");
    persist_song(&mut storage, song("Second", vec![], Some(vec![]), "D")).expect("creation succeeds");

    let setlist_id = create(
        &mut storage,
        NewSetlist { display_title: "Two songs".to_string(), songs: vec![1, 2] },
    );
    let setlist = find_by_id(&storage, setlist_id).expect("setlist exists");
    assert_eq!(setlist.display_title, "Two songs");
    assert_eq!(setlist.songs.len(), 2);
    assert_eq!(setlist.songs[0].0, 1);
    assert_eq!(setlist.songs[0].1.display_title, "First");
    assert_eq!(setlist.songs[1].0, 2);
    assert_eq!(setlist.songs[1].1.display_title, "Second");

    delete(&mut storage, setlist_id);
    assert_eq!(find_by_id(&storage, setlist_id).unwrap_err(), StoreError::NotFound);
}

#[test]
fn empty_setlist_has_zero_songs() {
    let mut storage = Storage::new();
    let setlist_id = create(
        &mut storage,
        NewSetlist { display_title: "Empty".to_string(), songs: vec![] },
    );
    let setlist = find_by_id(&storage, setlist_id).expect("setlist exists");
    assert_eq!(setlist.display_title, "Empty");
    assert!(setlist.songs.is_empty());
}

#[test]
fn post_then_list_concrete_scenario() {
    let mut storage = Storage::new();
    let body = song(
        "Song A",
        vec![link("https://x/1", None)],
        Some(vec![link("https://x/2", Some("Cover"))]),
        "C G",
    );
    assert!(persist_song(&mut storage, body).is_ok());

    let listed = list_all_songs(&storage);
    let entry = listed
        .iter()
        .find(|(_, s)| s.name == "Song A")
        .map(|(_, s)| s)
        .expect("Song A is listed");
    assert_eq!(entry.chords, "C G");
    assert_eq!(entry.source.len(), 1);
    assert_eq!(entry.source[0].url, "https://x/1");
    let covers = entry.cover.as_ref().expect("cover list present");
    assert_eq!(covers.len(), 1);
    assert_eq!(covers[0].url, "https://x/2");
    assert_eq!(covers[0].display_title, Some("Cover".to_string()));
}

#[test]
fn missing_cover_list_is_a_validation_error() {
    let mut storage = Storage::new();
    let err = persist_song(&mut storage, song("No cover", vec![], None, "E"))
        .expect_err("creation refused");
    assert_eq!(err, StoreError::Validation);
    assert!(list_all_songs(&storage).is_empty());
    assert!(storage.songs.is_empty());
    assert!(storage.links.is_empty());
}

#[test]
fn duplicate_song_ids_yield_duplicate_entries() {
    let mut storage = Storage::new();
    persist_song(&mut storage, song("Twice", vec![], Some(vec![]), "A")).expect("creation succeeds");
    let setlist_id = create(
        &mut storage,
        NewSetlist { display_title: "Doubled".to_string(), songs: vec![1, 1] },
    );
    let setlist = find_by_id(&storage, setlist_id).expect("setlist exists");
    assert_eq!(setlist.songs.len(), 2);
    assert_eq!(setlist.songs[0].0, 1);
    assert_eq!(setlist.songs[1].0, 1);
}

#[test]
fn relation_to_missing_song_is_omitted_from_join() {
    let mut storage = Storage::new();
    persist_song(&mut storage, song("Present", vec![], Some(vec![]), "B")).expect("creation succeeds");
    let setlist_id = create(
        &mut storage,
        NewSetlist { display_title: "Dangling".to_string(), songs: vec![42, 1] },
    );
    let setlist = find_by_id(&storage, setlist_id).expect("setlist exists");
    assert_eq!(setlist.songs.len(), 1);
    assert_eq!(setlist.songs[0].0, 1);
    assert_eq!(setlist.songs[0].1.display_title, "Present");
}

#[test]
fn find_all_lists_setlists_by_id_ascending() {
    let mut storage = Storage::new();
    let first = create(
        &mut storage,
        NewSetlist { display_title: "First".to_string(), songs: vec![] },
    );
    let second = create(
        &mut storage,
        NewSetlist { display_title: "Second".to_string(), songs: vec![] },
    );
    assert_eq!(first, 1);
    assert_eq!(second, 2);
    let listing = find_all(&storage);
    assert_eq!(listing.data.len(), 2);
    assert_eq!(listing.data[0], (1, "First".to_string()));
    assert_eq!(listing.data[1], (2, "Second".to_string()));
}

#[test]
fn deleting_an_absent_setlist_changes_nothing() {
    let mut storage = Storage::new();
    create(
        &mut storage,
        NewSetlist { display_title: "Stays".to_string(), songs: vec![] },
    );
    delete(&mut storage, 9);
    let listing = find_all(&storage);
    assert_eq!(listing.data.len(), 1);
    assert_eq!(listing.data[0], (1, "Stays".to_string()));
}

#[test]
fn deleting_one_setlist_keeps_the_others() {
    let mut storage = Storage::new();
    persist_song(&mut storage, song("Shared", vec![], Some(vec![]), "F")).expect("creation succeeds");
    let doomed = create(
        &mut storage,
        NewSetlist { display_title: "Doomed".to_string(), songs: vec![1] },
    );
    let kept = create(
        &mut storage,
        NewSetlist { display_title: "Kept".to_string(), songs: vec![1] },
    );
    delete(&mut storage, doomed);
    assert_eq!(find_by_id(&storage, doomed).unwrap_err(), StoreError::NotFound);
    let survivor = find_by_id(&storage, kept).expect("other setlist survives");
    assert_eq!(survivor.display_title, "Kept");
    assert_eq!(survivor.songs.len(), 1);
}

#[test]
fn links_get_fresh_ids_and_resolve_per_song() {
    let mut storage = Storage::new();
    let first = persist_link(&mut storage, &link("https://dup", Some("a")));
    let second = persist_link(&mut storage, &link("https://dup", Some("a")));
    assert_eq!(first, 1);
    assert_eq!(second, 2);

    persist_song(
        &mut storage,
        song(
            "With links",
            vec![link("https://s/1", None), link("https://s/2", Some("alt"))],
            Some(vec![link("https://c/1", None)]),
            "G",
        ),
    )
    .expect("creation succeeds");
    let sources = obtain_sources(&storage, 1);
    assert_eq!(sources.len(), 2);
    assert_eq!(sources[0].url, "https://s/1");
    assert_eq!(sources[1].url, "https://s/2");
    assert_eq!(sources[1].display_title, Some("alt".to_string()));
    let covers = obtain_covers(&storage, 1);
    assert_eq!(covers.len(), 1);
    assert_eq!(covers[0].url, "https://c/1");
}

#[test]
fn song_without_relations_lists_empty_link_lists() {
    let mut storage = Storage::new();
    persist_song(&mut storage, song("Bare", vec![], Some(vec![]), "")).expect("creation succeeds");
    let listed = list_all_songs(&storage);
    assert_eq!(listed.len(), 1);
    assert!(listed[0].1.source.is_empty());
    assert_eq!(listed[0].1.cover.as_ref().map(|c| c.len()), Some(0));
}
