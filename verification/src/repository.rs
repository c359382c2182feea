//! The song store: creation of songs with their links, the active listing,
//! and soft deletion. Every operation takes the storage state explicitly.

use vstd::prelude::*;

use crate::storage::{
    active_songs, has_active_song, link_id_exists, links_match, link_resolves_to,
    relations_for_song, soft_deleted_songs, song_id_exists, LinkRow, SongLinkRow, SongRow,
    Storage,
};
use crate::types::{Song, StoreError, YTLink};

verus! {

/// Inserts one link row and returns its generated id. Links are insert-only:
/// no deduplication, no update path.
pub fn persist_link(storage: &mut Storage, yt_link: &YTLink) -> (id: i64)
    requires
        old(storage).wf(),
        old(storage).next_link_id < i64::MAX,
    ensures
        final(storage).wf(),
        id == old(storage).next_link_id,
        final(storage).links@ == old(storage).links@.push((LinkRow {
            id: id,
            url: yt_link.url,
            display_title: yt_link.display_title,
        })),
        final(storage).next_link_id == old(storage).next_link_id + 1,
        old(storage).songs_unchanged(*final(storage)),
        old(storage).sources_unchanged(*final(storage)),
        old(storage).covers_unchanged(*final(storage)),
        old(storage).setlists_unchanged(*final(storage)),
        old(storage).setlist_relations_unchanged(*final(storage)),
{
    let ghost pre = *storage;
    let id = storage.next_link_id;
    let display_title = match &yt_link.display_title {
        Some(t) => Some(t.clone()),
        None => None,
    };
    storage.links.push(LinkRow { id, url: yt_link.url.clone(), display_title });
    storage.next_link_id = storage.next_link_id + 1;
    proof {
        crate::storage::lemma_song_link_refs_ok_monotone(
            pre.sources@,
            pre.links@,
            storage.links@,
            pre.songs@,
            storage.songs@,
        );
        crate::storage::lemma_song_link_refs_ok_monotone(
            pre.covers@,
            pre.links@,
            storage.links@,
            pre.songs@,
            storage.songs@,
        );
    }
    id
}

/// Which song-to-link relation a row belongs to.
enum LinkRelationType {
    Cover,
    Source,
}

/// Inserts one row into the source or the cover relation and returns its
/// generated id. The row must name an existing link and an existing song.
fn persist_song_link_relation(
    storage: &mut Storage,
    link_type: LinkRelationType,
    song_id: i64,
    link_id: i64,
) -> (id: i64)
    requires
        old(storage).wf(),
        link_id_exists(old(storage).links@, link_id),
        song_id_exists(old(storage).songs@, song_id),
        match link_type {
            LinkRelationType::Source => old(storage).next_source_id < i64::MAX,
            LinkRelationType::Cover => old(storage).next_cover_id < i64::MAX,
        },
    ensures
        final(storage).wf(),
        old(storage).songs_unchanged(*final(storage)),
        old(storage).links_unchanged(*final(storage)),
        old(storage).setlists_unchanged(*final(storage)),
        old(storage).setlist_relations_unchanged(*final(storage)),
        match link_type {
            LinkRelationType::Source => {
                &&& id == old(storage).next_source_id
                &&& final(storage).sources@ == old(storage).sources@.push((SongLinkRow {
                    id: id,
                    song_id: song_id,
                    link_id: link_id,
                }))
                &&& final(storage).next_source_id == old(storage).next_source_id + 1
                &&& old(storage).covers_unchanged(*final(storage))
            },
            LinkRelationType::Cover => {
                &&& id == old(storage).next_cover_id
                &&& final(storage).covers@ == old(storage).covers@.push((SongLinkRow {
                    id: id,
                    song_id: song_id,
                    link_id: link_id,
                }))
                &&& final(storage).next_cover_id == old(storage).next_cover_id + 1
                &&& old(storage).sources_unchanged(*final(storage))
            },
        },
{
    match link_type {
        LinkRelationType::Source => {
            let id = storage.next_source_id;
            storage.sources.push(SongLinkRow { id, song_id, link_id });
            storage.next_source_id = storage.next_source_id + 1;
            id
        },
        LinkRelationType::Cover => {
            let id = storage.next_cover_id;
            storage.covers.push(SongLinkRow { id, song_id, link_id });
            storage.next_cover_id = storage.next_cover_id + 1;
            id
        },
    }
}

/// Finds the position of the link row with the given id, if any.
fn find_link_row(links: &Vec<LinkRow>, link_id: i64) -> (res: Option<usize>)
    ensures
        match res {
            Some(j) => j < links@.len() && links@[j as int].id == link_id,
            None => !link_id_exists(links@, link_id),
        },
{
    let mut i: usize = 0;
    while i < links.len()
        invariant
            i <= links@.len(),
            forall|k: int| 0 <= k < i ==> (#[trigger] links@[k]).id != link_id,
        decreases links@.len() - i,
    {
        if links[i].id == link_id {
            return Some(i);
        }
        i = i + 1;
    }
    None
}

/// Joins one song-to-link relation with the link table for the given song:
/// one output link per relation row of that song, in relation order.
fn joined_links(rels: &Vec<SongLinkRow>, links: &Vec<LinkRow>, song_id: i64) -> (res: Vec<YTLink>)
    requires
        forall|i: int| 0 <= i < rels@.len() ==> link_id_exists(links@, (#[trigger] rels@[i]).link_id),
    ensures
        links_match(res@, rels@, links@, song_id),
{
    let mut res: Vec<YTLink> = Vec::new();
    let mut i: usize = 0;
    while i < rels.len()
        invariant
            i <= rels@.len(),
            forall|k: int|
                0 <= k < rels@.len() ==> link_id_exists(links@, (#[trigger] rels@[k]).link_id),
            links_match(res@, rels@.take(i as int), links@, song_id),
        decreases rels@.len() - i,
    {
        let ghost prefix = rels@.take(i as int);
        let rel = rels[i];
        if rel.song_id == song_id {
            let j = match find_link_row(links, rel.link_id) {
                Some(j) => j,
                None => {
                    // cannot happen: every relation row names an existing link
                    proof {
                        assert(link_id_exists(links@, rel.link_id));
                        assert(false);
                    }
                    return res;
                },
            };
            let display_title = match &links[j].display_title {
                Some(t) => Some(t.clone()),
                None => None,
            };
            res.push(YTLink { url: links[j].url.clone(), display_title });
            proof {
                assert(link_resolves_to(links@, rel.link_id, res@.last()));
            }
        }
        proof {
            assert(rels@.take(i + 1) =~= prefix.push(rels@[i as int]));
            crate::storage::lemma_relations_for_song_push(prefix, rels@[i as int], song_id);
        }
        i = i + 1;
    }
    proof {
        assert(rels@.take(rels@.len() as int) =~= rels@);
    }
    res
}

/// What the active listing promises of one of its entries: it carries the
/// row's id, name and chords, its resolved source links, and its resolved
/// cover links (always present on a listed song, possibly empty).
pub open spec fn listed_entry_ok(entry: (i64, Song), row: SongRow, storage: Storage) -> bool {
    &&& entry.0 == row.id
    &&& entry.1.name == row.name
    &&& entry.1.chords == row.chords
    &&& links_match(entry.1.source@, storage.sources@, storage.links@, row.id)
    &&& match entry.1.cover {
        Some(c) => links_match(c@, storage.covers@, storage.links@, row.id),
        None => false,
    }
}

/// Resolves the source links of one song, in relation insertion order.
pub fn obtain_sources(storage: &Storage, song_id: i64) -> (res: Vec<YTLink>)
    requires
        storage.wf(),
    ensures
        links_match(res@, storage.sources@, storage.links@, song_id),
{
    joined_links(&storage.sources, &storage.links, song_id)
}

/// Resolves the cover links of one song, in relation insertion order.
pub fn obtain_covers(storage: &Storage, song_id: i64) -> (res: Vec<YTLink>)
    requires
        storage.wf(),
    ensures
        links_match(res@, storage.covers@, storage.links@, song_id),
{
    joined_links(&storage.covers, &storage.links, song_id)
}

/// The submitted cover links of a song, or nothing when the cover list is
/// absent (in which case creation is refused).
pub open spec fn cover_links_of(song: Song) -> Seq<YTLink> {
    match song.cover {
        Some(c) => c@,
        None => Seq::empty(),
    }
}

/// The link rows that storing the given links creates, with ids counted up
/// from `first_id`.
pub open spec fn link_rows_for(links_in: Seq<YTLink>, first_id: i64) -> Seq<LinkRow> {
    Seq::new(
        links_in.len(),
        |i: int| (LinkRow {
            id: (first_id + i) as i64,
            url: links_in[i].url,
            display_title: links_in[i].display_title,
        }),
    )
}

/// The `n` relation rows that attach one block of freshly stored links to a
/// song: relation ids counted up from `first_id`, link ids from
/// `first_link_id`.
pub open spec fn relation_rows_for(n: int, first_id: i64, song_id: i64, first_link_id: i64) -> Seq<
    SongLinkRow,
> {
    Seq::new(
        n as nat,
        |i: int| (SongLinkRow {
            id: (first_id + i) as i64,
            song_id: song_id,
            link_id: (first_link_id + i) as i64,
        }),
    )
}

/// The id counters leave room for one song row and all its link and relation
/// rows. A machine limit only: the counters are 64-bit.
pub open spec fn can_persist_song(st: Storage, song: Song) -> bool {
    &&& st.next_song_id < i64::MAX
    &&& song.source@.len() + cover_links_of(song).len() <= i64::MAX - st.next_link_id
    &&& song.source@.len() <= i64::MAX - st.next_source_id
    &&& cover_links_of(song).len() <= i64::MAX - st.next_cover_id
}

/// How creating a song transforms the storage: one new song row, one new
/// link row per submitted source and cover link (sources first), one source
/// relation row per source link and one cover relation row per cover link,
/// all attached to the new song id; every other table untouched. All of it
/// becomes visible together or (on refusal) not at all.
pub open spec fn song_created(st: Storage, song: Song, st2: Storage) -> bool {
    let sid = st.next_song_id;
    let nsrc = song.source@.len() as int;
    let ncov = cover_links_of(song).len() as int;
    &&& st2.songs@ == st.songs@.push((SongRow {
        id: sid,
        name: song.name,
        chords: song.chords,
        deleted_at: None,
    }))
    &&& st2.links@ == st.links@ + link_rows_for(song.source@, st.next_link_id) + link_rows_for(
        cover_links_of(song),
        (st.next_link_id + nsrc) as i64,
    )
    &&& st2.sources@ == st.sources@ + relation_rows_for(
        nsrc,
        st.next_source_id,
        sid,
        st.next_link_id,
    )
    &&& st2.covers@ == st.covers@ + relation_rows_for(
        ncov,
        st.next_cover_id,
        sid,
        (st.next_link_id + nsrc) as i64,
    )
    &&& st2.next_song_id == sid + 1
    &&& st2.next_link_id == st.next_link_id + nsrc + ncov
    &&& st2.next_source_id == st.next_source_id + nsrc
    &&& st2.next_cover_id == st.next_cover_id + ncov
    &&& st.setlists_unchanged(st2)
    &&& st.setlist_relations_unchanged(st2)
}

/// Creates a song together with its links: the song row, a link row per
/// submitted source and cover link, and the relation rows attaching them.
/// The write is all-or-nothing: a request without a cover list (`cover` is
/// `None`) is refused with a validation error and the storage is untouched.
#[verifier::loop_isolation(false)]
pub fn persist_song(storage: &mut Storage, song: Song) -> (res: Result<Song, StoreError>)
    requires
        old(storage).wf(),
        can_persist_song(*old(storage), song),
    ensures
        final(storage).wf(),
        match res {
            Ok(created) => {
                &&& song.cover is Some
                &&& created == song
                &&& song_created(*old(storage), song, *final(storage))
            },
            Err(e) => {
                &&& song.cover is None
                &&& e == StoreError::Validation
                &&& *final(storage) == *old(storage)
            },
        },
{
    let cover_links: &Vec<YTLink> = match &song.cover {
        Some(c) => c,
        None => {
            return Err(StoreError::Validation);
        },
    };
    let ghost pre = *storage;
    let ghost nsrc = song.source@.len() as int;
    let ghost ncov = cover_links_of(song).len() as int;
    proof {
        assert(cover_links@ == cover_links_of(song));
    }

    // the song row
    let song_id = storage.next_song_id;
    storage.songs.push(SongRow {
        id: song_id,
        name: song.name.clone(),
        chords: song.chords.clone(),
        deleted_at: None,
    });
    storage.next_song_id = storage.next_song_id + 1;
    proof {
        crate::storage::lemma_song_link_refs_ok_monotone(
            pre.sources@,
            pre.links@,
            storage.links@,
            pre.songs@,
            storage.songs@,
        );
        crate::storage::lemma_song_link_refs_ok_monotone(
            pre.covers@,
            pre.links@,
            storage.links@,
            pre.songs@,
            storage.songs@,
        );
    }
    let ghost mid1 = *storage;

    // the source link rows
    let mut source_link_ids: Vec<i64> = Vec::new();
    let mut i: usize = 0;
    while i < song.source.len()
        invariant
            i <= nsrc,
            storage.wf(),
            storage.links@ == mid1.links@ + link_rows_for(
                song.source@.take(i as int),
                mid1.next_link_id,
            ),
            storage.next_link_id == mid1.next_link_id + i,
            mid1.songs_unchanged(*storage),
            mid1.sources_unchanged(*storage),
            mid1.covers_unchanged(*storage),
            mid1.setlists_unchanged(*storage),
            mid1.setlist_relations_unchanged(*storage),
            source_link_ids@.len() == i,
            forall|k: int| 0 <= k < i ==> source_link_ids@[k] == mid1.next_link_id + k,
        decreases nsrc - i,
    {
        let id = persist_link(storage, &song.source[i]);
        source_link_ids.push(id);
        proof {
            assert(song.source@.take(i as int + 1) =~= song.source@.take(i as int).push(
                song.source@[i as int],
            ));
            assert(storage.links@ =~= mid1.links@ + link_rows_for(
                song.source@.take(i as int + 1),
                mid1.next_link_id,
            ));
        }
        i = i + 1;
    }
    proof {
        assert(song.source@.take(nsrc) =~= song.source@);
    }

    // the cover link rows
    let mut cover_link_ids: Vec<i64> = Vec::new();
    let mut i: usize = 0;
    while i < cover_links.len()
        invariant
            i <= ncov,
            storage.wf(),
            storage.links@ == mid1.links@ + link_rows_for(song.source@, mid1.next_link_id)
                + link_rows_for(cover_links@.take(i as int), (mid1.next_link_id + nsrc) as i64),
            storage.next_link_id == mid1.next_link_id + nsrc + i,
            mid1.songs_unchanged(*storage),
            mid1.sources_unchanged(*storage),
            mid1.covers_unchanged(*storage),
            mid1.setlists_unchanged(*storage),
            mid1.setlist_relations_unchanged(*storage),
            cover_link_ids@.len() == i,
            forall|k: int| 0 <= k < i ==> cover_link_ids@[k] == mid1.next_link_id + nsrc + k,
        decreases ncov - i,
    {
        let id = persist_link(storage, &cover_links[i]);
        cover_link_ids.push(id);
        proof {
            assert(cover_links@.take(i as int + 1) =~= cover_links@.take(i as int).push(
                cover_links@[i as int],
            ));
            assert(storage.links@ =~= mid1.links@ + link_rows_for(song.source@, mid1.next_link_id)
                + link_rows_for(
                cover_links@.take(i as int + 1),
                (mid1.next_link_id + nsrc) as i64,
            ));
        }
        i = i + 1;
    }
    proof {
        assert(cover_links@.take(ncov) =~= cover_links@);
    }
    let ghost mid2 = *storage;

    // the source relation rows
    let mut i: usize = 0;
    while i < source_link_ids.len()
        invariant
            i <= nsrc,
            storage.wf(),
            storage.sources@ == mid2.sources@ + relation_rows_for(
                i as int,
                mid2.next_source_id,
                song_id,
                mid1.next_link_id,
            ),
            storage.next_source_id == mid2.next_source_id + i,
            mid2.songs_unchanged(*storage),
            mid2.links_unchanged(*storage),
            mid2.covers_unchanged(*storage),
            mid2.setlists_unchanged(*storage),
            mid2.setlist_relations_unchanged(*storage),
        decreases nsrc - i,
    {
        proof {
            assert(link_id_exists(storage.links@, source_link_ids@[i as int])) by {
                assert(storage.links@[mid1.links@.len() + i].id == mid1.next_link_id + i);
            }
            assert(song_id_exists(storage.songs@, song_id)) by {
                assert(storage.songs@[pre.songs@.len() as int].id == song_id);
            }
        }
        let link_id = source_link_ids[i];
        persist_song_link_relation(storage, LinkRelationType::Source, song_id, link_id);
        proof {
            assert(storage.sources@ =~= mid2.sources@ + relation_rows_for(
                i as int + 1,
                mid2.next_source_id,
                song_id,
                mid1.next_link_id,
            ));
        }
        i = i + 1;
    }

    // the cover relation rows
    let mut i: usize = 0;
    while i < cover_link_ids.len()
        invariant
            i <= ncov,
            storage.wf(),
            storage.covers@ == mid2.covers@ + relation_rows_for(
                i as int,
                mid2.next_cover_id,
                song_id,
                (mid1.next_link_id + nsrc) as i64,
            ),
            storage.next_cover_id == mid2.next_cover_id + i,
            mid2.songs_unchanged(*storage),
            mid2.links_unchanged(*storage),
            storage.sources@ == mid2.sources@ + relation_rows_for(
                nsrc,
                mid2.next_source_id,
                song_id,
                mid1.next_link_id,
            ),
            storage.next_source_id == mid2.next_source_id + nsrc,
            mid2.setlists_unchanged(*storage),
            mid2.setlist_relations_unchanged(*storage),
        decreases ncov - i,
    {
        proof {
            assert(link_id_exists(storage.links@, cover_link_ids@[i as int])) by {
                assert(storage.links@[mid1.links@.len() + nsrc + i].id == mid1.next_link_id + nsrc
                    + i);
            }
            assert(song_id_exists(storage.songs@, song_id)) by {
                assert(storage.songs@[pre.songs@.len() as int].id == song_id);
            }
        }
        let link_id = cover_link_ids[i];
        persist_song_link_relation(storage, LinkRelationType::Cover, song_id, link_id);
        proof {
            assert(storage.covers@ =~= mid2.covers@ + relation_rows_for(
                i as int + 1,
                mid2.next_cover_id,
                song_id,
                (mid1.next_link_id + nsrc) as i64,
            ));
        }
        i = i + 1;
    }

    proof {
        assert(song_created(pre, song, *storage));
    }
    Ok(song)
}

/// Lists all songs that are not soft-deleted, ordered by id ascending, each
/// with its source and cover links resolved in relation insertion order.
/// A song without relation rows gets empty link lists, not an error.
pub fn list_all_songs(storage: &Storage) -> (res: Vec<(i64, Song)>)
    requires
        storage.wf(),
    ensures
        res@.len() == active_songs(storage.songs@).len(),
        forall|k: int|
            0 <= k < res@.len() ==> listed_entry_ok(
                #[trigger] res@[k],
                active_songs(storage.songs@)[k],
                *storage,
            ),
        forall|k1: int, k2: int| 0 <= k1 < k2 < res@.len() ==> #[trigger] res@[k1].0 < #[trigger] res@[k2].0,
{
    let mut res: Vec<(i64, Song)> = Vec::new();
    let mut i: usize = 0;
    while i < storage.songs.len()
        invariant
            storage.wf(),
            i <= storage.songs@.len(),
            res@.len() == active_songs(storage.songs@.take(i as int)).len(),
            forall|k: int|
                0 <= k < res@.len() ==> listed_entry_ok(
                    #[trigger] res@[k],
                    active_songs(storage.songs@.take(i as int))[k],
                    *storage,
                ),
        decreases storage.songs@.len() - i,
    {
        let ghost prefix = storage.songs@.take(i as int);
        let song_id = storage.songs[i].id;
        let deleted = match &storage.songs[i].deleted_at {
            Some(_) => true,
            None => false,
        };
        if !deleted {
            let sources = obtain_sources(storage, song_id);
            let covers = obtain_covers(storage, song_id);
            let entry = Song {
                name: storage.songs[i].name.clone(),
                source: sources,
                cover: Some(covers),
                chords: storage.songs[i].chords.clone(),
            };
            res.push((song_id, entry));
        }
        proof {
            assert(storage.songs@.take(i + 1) =~= prefix.push(storage.songs@[i as int]));
            crate::storage::lemma_active_songs_push(prefix, storage.songs@[i as int]);
        }
        i = i + 1;
    }
    proof {
        assert(storage.songs@.take(storage.songs@.len() as int) =~= storage.songs@);
        crate::storage::lemma_active_songs_sorted(storage.songs@, storage.next_song_id);
        assert forall|k1: int, k2: int|
            0 <= k1 < k2 < res@.len() implies #[trigger] res@[k1].0 < #[trigger] res@[k2].0 by {
            assert(res@[k1].0 == active_songs(storage.songs@)[k1].id);
            assert(res@[k2].0 == active_songs(storage.songs@)[k2].id);
        }
    }
    res
}

/// Soft-deletes the song with the given id at the given timestamp: an active
/// row gains the deletion marker and 1 is returned; when no row matches
/// (the song is absent or already deleted) nothing changes and 0 is returned.
pub fn mark_song_as_deleted_at(storage: &mut Storage, song_id: i64, timestamp: i64) -> (rows_affected: i64)
    requires
        old(storage).wf(),
    ensures
        final(storage).wf(),
        rows_affected == if has_active_song(old(storage).songs@, song_id) {
            1int
        } else {
            0int
        },
        final(storage).songs@ == soft_deleted_songs(old(storage).songs@, song_id, timestamp),
        final(storage).next_song_id == old(storage).next_song_id,
        old(storage).links_unchanged(*final(storage)),
        old(storage).sources_unchanged(*final(storage)),
        old(storage).covers_unchanged(*final(storage)),
        old(storage).setlists_unchanged(*final(storage)),
        old(storage).setlist_relations_unchanged(*final(storage)),
{
    let ghost pre = *storage;
    let mut i: usize = 0;
    while i < storage.songs.len()
        invariant
            pre == *old(storage),
            pre.wf(),
            *storage == pre,
            i <= storage.songs@.len(),
            forall|k: int|
                0 <= k < i ==> !((#[trigger] storage.songs@[k]).id == song_id
                    && storage.songs@[k].deleted_at is None),
        decreases storage.songs@.len() - i,
    {
        let matches_row = storage.songs[i].id == song_id && match &storage.songs[i].deleted_at {
            Some(_) => false,
            None => true,
        };
        if matches_row {
            let name = storage.songs[i].name.clone();
            let chords = storage.songs[i].chords.clone();
            storage.songs[i] = SongRow { id: song_id, name, chords, deleted_at: Some(timestamp) };
            proof {
                assert(has_active_song(pre.songs@, song_id)) by {
                    assert(pre.songs@[i as int].id == song_id
                        && pre.songs@[i as int].deleted_at is None);
                }
                let j = choose|j: int| {
                    &&& 0 <= j < pre.songs@.len()
                    &&& (#[trigger] pre.songs@[j]).id == song_id
                    &&& pre.songs@[j].deleted_at is None
                };
                assert(j == i) by {
                    if j < i as int {
                        assert(pre.songs@[j].id < pre.songs@[i as int].id);
                    }
                    if j > i as int {
                        assert(pre.songs@[i as int].id < pre.songs@[j].id);
                    }
                }
                assert(storage.songs@ =~= soft_deleted_songs(pre.songs@, song_id, timestamp));
                crate::storage::lemma_song_link_refs_ok_monotone(
                    pre.sources@,
                    pre.links@,
                    storage.links@,
                    pre.songs@,
                    storage.songs@,
                );
                crate::storage::lemma_song_link_refs_ok_monotone(
                    pre.covers@,
                    pre.links@,
                    storage.links@,
                    pre.songs@,
                    storage.songs@,
                );
            }
            return 1;
        }
        i = i + 1;
    }
    proof {
        assert(!has_active_song(storage.songs@, song_id));
    }
    0
}

/// Soft-deletes the song with the given id, stamping it with the current
/// wall-clock time, and returns how many rows were affected (1 or 0).
pub fn mark_song_as_deleted(storage: &mut Storage, song_id: i64) -> (rows_affected: i64)
    requires
        old(storage).wf(),
    ensures
        final(storage).wf(),
        rows_affected == if has_active_song(old(storage).songs@, song_id) {
            1int
        } else {
            0int
        },
        exists|t: i64|
            final(storage).songs@ == #[trigger] soft_deleted_songs(
                old(storage).songs@,
                song_id,
                t,
            ),
        final(storage).next_song_id == old(storage).next_song_id,
        old(storage).links_unchanged(*final(storage)),
        old(storage).sources_unchanged(*final(storage)),
        old(storage).covers_unchanged(*final(storage)),
        old(storage).setlists_unchanged(*final(storage)),
        old(storage).setlist_relations_unchanged(*final(storage)),
{
    let timestamp = crate::clock::current_timestamp();
    mark_song_as_deleted_at(storage, song_id, timestamp)
}

} // verus!
