//! Cross-operation guarantees of the stores, stated over the same spec
//! functions that the operations' own contracts use.

use vstd::prelude::*;

use crate::repository::{can_persist_song, cover_links_of, song_created};
use crate::setlist::{can_create_setlist, setlist_created, setlist_relation_rows};
use crate::storage::{
    active_songs, has_active_song, lemma_active_songs_elements, lemma_active_songs_push,
    lemma_relations_for_song_all, lemma_relations_for_song_concat, lemma_relations_for_song_none,
    lemma_setlist_song_entries_concat, lemma_setlist_song_entries_none,
    lemma_setlists_without_props, link_resolves_to, link_rows_ok, links_match,
    relations_for_song, setlist_id_exists, setlist_rows_ok, setlist_song_entries,
    setlist_song_of, setlist_with_id, setlists_without, soft_deleted_songs, song_id_exists,
    song_rows_ok, song_with_id, LinkRow, SetlistRow, SetlistSongRow, SongLinkRow, SongRow,
    Storage,
};
use crate::types::{NewSetlist, Song, YTLink};

verus! {

/// Under unique link ids, the link tables determine the join output: any two
/// link sequences that both match one song's relations are equal. Together
/// with `lemma_created_song_listed` this pins the listed links down to the
/// submitted ones, URL and title verbatim.
pub proof fn lemma_links_match_determined(
    a: Seq<YTLink>,
    b: Seq<YTLink>,
    rels: Seq<SongLinkRow>,
    links: Seq<LinkRow>,
    song_id: i64,
    next_link_id: i64,
)
    requires
        link_rows_ok(links, next_link_id),
        links_match(a, rels, links, song_id),
        links_match(b, rels, links, song_id),
    ensures
        a == b,
{
    let mine = relations_for_song(rels, song_id);
    assert forall|i: int| 0 <= i < a.len() implies #[trigger] a[i] == b[i] by {
        assert(link_resolves_to(links, mine[i].link_id, a[i]));
        assert(link_resolves_to(links, mine[i].link_id, b[i]));
        let ja = choose|j: int| {
            &&& 0 <= j < links.len()
            &&& (#[trigger] links[j]).id == mine[i].link_id
            &&& a[i].url == links[j].url
            &&& a[i].display_title == links[j].display_title
        };
        let jb = choose|j: int| {
            &&& 0 <= j < links.len()
            &&& (#[trigger] links[j]).id == mine[i].link_id
            &&& b[i].url == links[j].url
            &&& b[i].display_title == links[j].display_title
        };
        assert(ja == jb) by {
            if ja < jb {
                assert(links[ja].id < links[jb].id);
            }
            if jb < ja {
                assert(links[jb].id < links[ja].id);
            }
        }
    }
    assert(a =~= b);
}

/// Round-trip: creating a song appends it to the active listing, and its
/// stored relations resolve to exactly the submitted source and cover links,
/// URL and title verbatim. With the contract of `list_all_songs`, a listing
/// taken after the creation therefore ends with the created song and (by
/// `lemma_links_match_determined`) reproduces its links unchanged.
pub proof fn lemma_created_song_listed(st: Storage, song: Song, st2: Storage)
    requires
        st.wf(),
        can_persist_song(st, song),
        song.cover is Some,
        song_created(st, song, st2),
    ensures
        active_songs(st2.songs@) == active_songs(st.songs@).push((SongRow {
            id: st.next_song_id,
            name: song.name,
            chords: song.chords,
            deleted_at: None,
        })),
        links_match(song.source@, st2.sources@, st2.links@, st.next_song_id),
        links_match(cover_links_of(song), st2.covers@, st2.links@, st.next_song_id),
{
    let sid = st.next_song_id;
    let nsrc = song.source@.len() as int;
    let ncov = cover_links_of(song).len() as int;
    let new_row = SongRow { id: sid, name: song.name, chords: song.chords, deleted_at: None };
    lemma_active_songs_push(st.songs@, new_row);

    // no pre-existing relation row can belong to the new song id
    assert forall|i: int|
        0 <= i < st.sources@.len() implies (#[trigger] st.sources@[i]).song_id != sid by {
        let w = choose|w: int|
            0 <= w < st.songs@.len() && (#[trigger] st.songs@[w]).id == st.sources@[i].song_id;
        assert(st.songs@[w].id < sid);
    }
    assert forall|i: int|
        0 <= i < st.covers@.len() implies (#[trigger] st.covers@[i]).song_id != sid by {
        let w = choose|w: int|
            0 <= w < st.songs@.len() && (#[trigger] st.songs@[w]).id == st.covers@[i].song_id;
        assert(st.songs@[w].id < sid);
    }

    let src_block = crate::repository::relation_rows_for(nsrc, st.next_source_id, sid, st.next_link_id);
    let cov_block = crate::repository::relation_rows_for(
        ncov,
        st.next_cover_id,
        sid,
        (st.next_link_id + nsrc) as i64,
    );

    lemma_relations_for_song_concat(st.sources@, src_block, sid);
    lemma_relations_for_song_none(st.sources@, sid);
    lemma_relations_for_song_all(src_block, sid);
    assert(relations_for_song(st2.sources@, sid) =~= src_block);

    lemma_relations_for_song_concat(st.covers@, cov_block, sid);
    lemma_relations_for_song_none(st.covers@, sid);
    lemma_relations_for_song_all(cov_block, sid);
    assert(relations_for_song(st2.covers@, sid) =~= cov_block);

    assert forall|i: int|
        0 <= i < nsrc implies link_resolves_to(
        st2.links@,
        src_block[i].link_id,
        #[trigger] song.source@[i],
    ) by {
        let j = st.links@.len() + i;
        assert(st2.links@[j] == crate::repository::link_rows_for(
            song.source@,
            st.next_link_id,
        )[i]);
        assert(st2.links@[j].id == src_block[i].link_id);
    }
    assert forall|i: int|
        0 <= i < ncov implies link_resolves_to(
        st2.links@,
        cov_block[i].link_id,
        #[trigger] cover_links_of(song)[i],
    ) by {
        let j = st.links@.len() + nsrc + i;
        assert(st2.links@[j] == crate::repository::link_rows_for(
            cover_links_of(song),
            (st.next_link_id + nsrc) as i64,
        )[i]);
        assert(st2.links@[j].id == cov_block[i].link_id);
    }
}

/// Soft-delete exclusion, listing half: after soft-deleting a song id, no
/// row with that id is active, so no entry of the active listing carries it.
pub proof fn lemma_soft_delete_excluded(songs: Seq<SongRow>, song_id: i64, t: i64, next_id: i64)
    requires
        song_rows_ok(songs, next_id),
    ensures
        !has_active_song(soft_deleted_songs(songs, song_id, t), song_id),
        forall|k: int|
            0 <= k < active_songs(soft_deleted_songs(songs, song_id, t)).len()
                ==> (#[trigger] active_songs(soft_deleted_songs(songs, song_id, t))[k]).id
                != song_id,
{
    let songs2 = soft_deleted_songs(songs, song_id, t);
    if has_active_song(songs, song_id) {
        let i = choose|i: int| {
            &&& 0 <= i < songs.len()
            &&& (#[trigger] songs[i]).id == song_id
            &&& songs[i].deleted_at is None
        };
        assert forall|k: int|
            0 <= k < songs2.len() && (#[trigger] songs2[k]).id == song_id implies !(
        songs2[k].deleted_at is None) by {
            if k != i {
                assert(songs2[k] == songs[k]);
                if k < i {
                    assert(songs[k].id < songs[i].id);
                }
                if i < k {
                    assert(songs[i].id < songs[k].id);
                }
            }
        }
    }
    lemma_active_songs_elements(songs2);
    assert forall|k: int|
        0 <= k < active_songs(songs2).len() implies (#[trigger] active_songs(songs2)[k]).id
        != song_id by {
        let j = choose|j: int| 0 <= j < songs2.len() && active_songs(songs2)[k] == songs2[j];
        if active_songs(songs2)[k].id == song_id {
            assert(songs2[j].id == song_id && songs2[j].deleted_at is None);
        }
    }
}

/// Soft-delete exclusion, setlist half: soft-deleting a song changes no
/// setlist's projected song list — every joined entry still resolves, with
/// the same id, display title and chords, because the join reads the live
/// row and the marker touches neither name nor chords.
pub proof fn lemma_soft_delete_preserves_join(
    rels: Seq<SetlistSongRow>,
    songs: Seq<SongRow>,
    song_id: i64,
    t: i64,
    next_id: i64,
    setlist_id: i64,
)
    requires
        song_rows_ok(songs, next_id),
    ensures
        ({
            let e1 = setlist_song_entries(rels, songs, setlist_id);
            let e2 = setlist_song_entries(rels, soft_deleted_songs(songs, song_id, t), setlist_id);
            &&& e2.len() == e1.len()
            &&& forall|k: int|
                0 <= k < e1.len() ==> setlist_song_of(#[trigger] e2[k]) == setlist_song_of(e1[k])
        }),
    decreases rels.len(),
{
    let songs2 = soft_deleted_songs(songs, song_id, t);
    assert(songs2.len() == songs.len() && forall|w: int|
        0 <= w < songs.len() ==> (#[trigger] songs2[w]).id == songs[w].id && songs2[w].name
            == songs[w].name && songs2[w].chords == songs[w].chords) by {
        if has_active_song(songs, song_id) {
            let i = choose|i: int| {
                &&& 0 <= i < songs.len()
                &&& (#[trigger] songs[i]).id == song_id
                &&& songs[i].deleted_at is None
            };
            assert(forall|w: int|
                0 <= w < songs.len() && w != i ==> #[trigger] songs2[w] == songs[w]);
        }
    }
    if rels.len() == 0 {
    } else {
        let q = rels.drop_last();
        lemma_soft_delete_preserves_join(q, songs, song_id, t, next_id, setlist_id);
        let r = rels.last();
        assert forall|x: i64| song_id_exists(songs2, x) == song_id_exists(songs, x) by {
            if song_id_exists(songs, x) {
                let w = choose|w: int| 0 <= w < songs.len() && (#[trigger] songs[w]).id == x;
                assert(songs2[w].id == x);
            }
            if song_id_exists(songs2, x) {
                let w = choose|w: int| 0 <= w < songs2.len() && (#[trigger] songs2[w]).id == x;
                assert(songs[w].id == x);
            }
        }
        if r.setlist_id == setlist_id && song_id_exists(songs, r.song_id) {
            let c1 = crate::storage::song_index_of(songs, r.song_id);
            let c2 = crate::storage::song_index_of(songs2, r.song_id);
            assert(0 <= c1 < songs.len() && songs[c1].id == r.song_id);
            assert(0 <= c2 < songs2.len() && songs2[c2].id == r.song_id);
            assert(c1 == c2) by {
                if c1 < c2 {
                    assert(songs[c1].id < songs[c2].id);
                }
                if c2 < c1 {
                    assert(songs[c2].id < songs[c1].id);
                }
            }
            assert(setlist_song_of(song_with_id(songs2, r.song_id)) == setlist_song_of(
                song_with_id(songs, r.song_id),
            ));
        }
    }
}

/// Idempotent soft-delete: the first deletion leaves no active row with the
/// id (so a second `mark_song_as_deleted` of the same id affects 0 rows and,
/// by its contract, returns 0 after the first returned 1), and the second
/// deletion leaves the table exactly as the first left it.
pub proof fn lemma_soft_delete_idempotent(
    songs: Seq<SongRow>,
    song_id: i64,
    t1: i64,
    t2: i64,
    next_id: i64,
)
    requires
        song_rows_ok(songs, next_id),
    ensures
        !has_active_song(soft_deleted_songs(songs, song_id, t1), song_id),
        soft_deleted_songs(soft_deleted_songs(songs, song_id, t1), song_id, t2)
            == soft_deleted_songs(songs, song_id, t1),
{
    lemma_soft_delete_excluded(songs, song_id, t1, next_id);
}

/// Setlist lifecycle, creation half: a freshly created setlist is found
/// under its id with the submitted title, and its projected song list has
/// exactly one entry per submitted song id, in submission order, each
/// resolving to the current row of that song — provided every submitted id
/// names an existing song (ids that do not are omitted by the join).
pub proof fn lemma_created_setlist_found(st: Storage, setlist: NewSetlist, id: i64, st2: Storage)
    requires
        st.wf(),
        can_create_setlist(st, setlist),
        setlist_created(st, setlist, id, st2),
        forall|k: int|
            0 <= k < setlist.songs@.len() ==> song_id_exists(
                st.songs@,
                #[trigger] setlist.songs@[k],
            ),
    ensures
        setlist_id_exists(st2.setlists@, id),
        setlist_with_id(st2.setlists@, id).display_title == setlist.display_title,
        ({
            let entries = setlist_song_entries(st2.setlist_to_song_relations@, st2.songs@, id);
            &&& entries.len() == setlist.songs@.len()
            &&& forall|k: int|
                0 <= k < entries.len() ==> #[trigger] entries[k] == song_with_id(
                    st.songs@,
                    setlist.songs@[k],
                )
        }),
{
    let n = st.setlists@.len() as int;
    assert(st2.setlists@[n].id == id);
    let c = crate::storage::setlist_index_of(st2.setlists@, id);
    assert(0 <= c < st2.setlists@.len() && st2.setlists@[c].id == id);
    assert(c == n) by {
        if c < n {
            assert(st2.setlists@[c] == st.setlists@[c]);
            assert(st.setlists@[c].id < st.next_setlist_id);
        }
    }

    assert forall|i: int|
        0 <= i < st.setlist_to_song_relations@.len() implies (#[trigger] st.setlist_to_song_relations@[i]).setlist_id
        != id by {}
    let block = setlist_relation_rows(setlist.songs@, st.next_relation_id, id);
    lemma_setlist_song_entries_concat(st.setlist_to_song_relations@, block, st2.songs@, id);
    lemma_setlist_song_entries_none(st.setlist_to_song_relations@, st2.songs@, id);
    lemma_entries_of_relation_block(setlist.songs@, st.next_relation_id, id, st2.songs@);
    assert(setlist_song_entries(st2.setlist_to_song_relations@, st2.songs@, id)
        =~= setlist_song_entries(block, st2.songs@, id));
}

/// The join of one freshly written relation block: every row belongs to the
/// setlist and names an existing song, so the entries are exactly the songs
/// of the submitted ids, in order.
proof fn lemma_entries_of_relation_block(
    song_ids: Seq<i64>,
    first_id: i64,
    setlist_id: i64,
    songs: Seq<SongRow>,
)
    requires
        forall|k: int| 0 <= k < song_ids.len() ==> song_id_exists(songs, #[trigger] song_ids[k]),
    ensures
        ({
            let entries = setlist_song_entries(
                setlist_relation_rows(song_ids, first_id, setlist_id),
                songs,
                setlist_id,
            );
            &&& entries.len() == song_ids.len()
            &&& forall|k: int|
                0 <= k < entries.len() ==> #[trigger] entries[k] == song_with_id(
                    songs,
                    song_ids[k],
                )
        }),
    decreases song_ids.len(),
{
    let block = setlist_relation_rows(song_ids, first_id, setlist_id);
    if song_ids.len() == 0 {
        assert(block.len() == 0);
    } else {
        let q = song_ids.drop_last();
        assert(forall|i: int| 0 <= i < q.len() ==> #[trigger] q[i] == song_ids[i]);
        lemma_entries_of_relation_block(q, first_id, setlist_id, songs);
        assert(block.drop_last() =~= setlist_relation_rows(q, first_id, setlist_id));
        assert(block.last().setlist_id == setlist_id);
        assert(block.last().song_id == song_ids.last());
    }
}

/// Setlist lifecycle, deletion half: after a deletion no setlist row carries
/// the id, so `find_by_id` — whose contract fails with `NotFound` exactly
/// when no row has the id — no longer finds it.
pub proof fn lemma_deleted_setlist_not_found(
    setlists: Seq<SetlistRow>,
    setlist_id: i64,
    next_id: i64,
)
    requires
        setlist_rows_ok(setlists, next_id),
    ensures
        !setlist_id_exists(setlists_without(setlists, setlist_id), setlist_id),
{
    lemma_setlists_without_props(setlists, setlist_id, next_id);
    let after = setlists_without(setlists, setlist_id);
    if setlist_id_exists(after, setlist_id) {
        let w = choose|w: int| 0 <= w < after.len() && (#[trigger] after[w]).id == setlist_id;
        assert(after[w].id != setlist_id);
    }
}

/// Empty setlist: creating a setlist with no song ids still succeeds, and
/// reading it back yields the submitted title and a song list of length
/// zero. The empty instance of `lemma_created_setlist_found`.
pub proof fn lemma_empty_setlist_found(st: Storage, setlist: NewSetlist, id: i64, st2: Storage)
    requires
        st.wf(),
        can_create_setlist(st, setlist),
        setlist_created(st, setlist, id, st2),
        setlist.songs@.len() == 0,
    ensures
        setlist_id_exists(st2.setlists@, id),
        setlist_with_id(st2.setlists@, id).display_title == setlist.display_title,
        setlist_song_entries(st2.setlist_to_song_relations@, st2.songs@, id).len() == 0,
{
    lemma_created_setlist_found(st, setlist, id, st2);
}

} // verus!
