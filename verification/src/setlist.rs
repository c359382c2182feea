//! The setlist store: creation with member song ids, the setlist listing,
//! the live-join read of one setlist, and whole-setlist deletion.

use vstd::prelude::*;

use crate::storage::{
    relations_without, setlist_id_exists, setlist_song_entries, setlist_song_of, setlist_with_id,
    setlists_without, song_id_exists, SetlistRow, SetlistSongRow, SongRow, Storage,
};
use crate::types::{NewSetlist, Setlist, SetlistList, SetlistSong, StoreError};

verus! {

/// The relation rows that creating a setlist adds: one per submitted song
/// id, in submission order, with relation ids counted up from `first_id`.
/// Duplicate song ids yield duplicate rows; no existence check is made.
pub open spec fn setlist_relation_rows(
    song_ids: Seq<i64>,
    first_id: i64,
    setlist_id: i64,
) -> Seq<SetlistSongRow> {
    Seq::new(
        song_ids.len(),
        |i: int| (SetlistSongRow {
            id: (first_id + i) as i64,
            setlist_id: setlist_id,
            song_id: song_ids[i],
        }),
    )
}

/// The id counters leave room for the setlist row and its relation rows.
/// A machine limit only: the counters are 64-bit.
pub open spec fn can_create_setlist(st: Storage, setlist: NewSetlist) -> bool {
    &&& st.next_setlist_id < i64::MAX
    &&& setlist.songs@.len() <= i64::MAX - st.next_relation_id
}

/// How creating a setlist transforms the storage: one new setlist row and
/// one relation row per submitted song id, all visible together; every other
/// table untouched.
pub open spec fn setlist_created(st: Storage, setlist: NewSetlist, id: i64, st2: Storage) -> bool {
    &&& id == st.next_setlist_id
    &&& st2.setlists@ == st.setlists@.push((SetlistRow {
        id: id,
        display_title: setlist.display_title,
    }))
    &&& st2.next_setlist_id == st.next_setlist_id + 1
    &&& st2.setlist_to_song_relations@ == st.setlist_to_song_relations@ + setlist_relation_rows(
        setlist.songs@,
        st.next_relation_id,
        id,
    )
    &&& st2.next_relation_id == st.next_relation_id + setlist.songs@.len()
    &&& st.songs_unchanged(st2)
    &&& st.links_unchanged(st2)
    &&& st.sources_unchanged(st2)
    &&& st.covers_unchanged(st2)
}

/// Inserts one setlist-to-song relation row and returns its generated id.
fn persist_setlist_song_relation(storage: &mut Storage, setlist_id: i64, song_id: i64) -> (id: i64)
    requires
        old(storage).wf(),
        old(storage).next_relation_id < i64::MAX,
        1 <= setlist_id < old(storage).next_setlist_id,
    ensures
        final(storage).wf(),
        id == old(storage).next_relation_id,
        final(storage).setlist_to_song_relations@ == old(
            storage,
        ).setlist_to_song_relations@.push((SetlistSongRow {
            id: id,
            setlist_id: setlist_id,
            song_id: song_id,
        })),
        final(storage).next_relation_id == old(storage).next_relation_id + 1,
        old(storage).songs_unchanged(*final(storage)),
        old(storage).links_unchanged(*final(storage)),
        old(storage).sources_unchanged(*final(storage)),
        old(storage).covers_unchanged(*final(storage)),
        old(storage).setlists_unchanged(*final(storage)),
{
    let id = storage.next_relation_id;
    storage.setlist_to_song_relations.push(SetlistSongRow { id, setlist_id, song_id });
    storage.next_relation_id = storage.next_relation_id + 1;
    id
}

/// Creates a setlist: the setlist row and one relation row per submitted
/// song id, in submission order, as one all-or-nothing write. Song ids are
/// not checked for existence, and duplicates are kept. Returns the generated
/// setlist id.
#[verifier::loop_isolation(false)]
pub fn create(storage: &mut Storage, setlist: NewSetlist) -> (id: i64)
    requires
        old(storage).wf(),
        can_create_setlist(*old(storage), setlist),
    ensures
        final(storage).wf(),
        setlist_created(*old(storage), setlist, id, *final(storage)),
{
    let ghost pre = *storage;
    let setlist_id = storage.next_setlist_id;
    storage.setlists.push(SetlistRow {
        id: setlist_id,
        display_title: setlist.display_title.clone(),
    });
    storage.next_setlist_id = storage.next_setlist_id + 1;
    let ghost mid = *storage;
    let mut i: usize = 0;
    while i < setlist.songs.len()
        invariant
            i <= setlist.songs@.len(),
            storage.wf(),
            storage.setlist_to_song_relations@ == mid.setlist_to_song_relations@
                + setlist_relation_rows(
                setlist.songs@.take(i as int),
                mid.next_relation_id,
                setlist_id,
            ),
            storage.next_relation_id == mid.next_relation_id + i,
            mid.songs_unchanged(*storage),
            mid.links_unchanged(*storage),
            mid.sources_unchanged(*storage),
            mid.covers_unchanged(*storage),
            mid.setlists_unchanged(*storage),
        decreases setlist.songs@.len() - i,
    {
        let song_id = setlist.songs[i];
        persist_setlist_song_relation(storage, setlist_id, song_id);
        proof {
            assert(setlist.songs@.take(i as int + 1) =~= setlist.songs@.take(i as int).push(
                setlist.songs@[i as int],
            ));
            assert(storage.setlist_to_song_relations@ =~= mid.setlist_to_song_relations@
                + setlist_relation_rows(
                setlist.songs@.take(i as int + 1),
                mid.next_relation_id,
                setlist_id,
            ));
        }
        i = i + 1;
    }
    proof {
        assert(setlist.songs@.take(setlist.songs@.len() as int) =~= setlist.songs@);
    }
    setlist_id
}

/// Lists all setlists as (id, display title) pairs, ordered by id ascending.
pub fn find_all(storage: &Storage) -> (res: SetlistList)
    ensures
        res.data@.len() == storage.setlists@.len(),
        forall|i: int|
            0 <= i < storage.setlists@.len() ==> #[trigger] res.data@[i] == (
                storage.setlists@[i].id,
                storage.setlists@[i].display_title,
            ),
{
    let mut data: Vec<(i64, String)> = Vec::new();
    let mut i: usize = 0;
    while i < storage.setlists.len()
        invariant
            i <= storage.setlists@.len(),
            data@.len() == i,
            forall|k: int|
                0 <= k < i ==> #[trigger] data@[k] == (
                    storage.setlists@[k].id,
                    storage.setlists@[k].display_title,
                ),
        decreases storage.setlists@.len() - i,
    {
        data.push((storage.setlists[i].id, storage.setlists[i].display_title.clone()));
        i = i + 1;
    }
    SetlistList { data }
}

/// Finds the position of the song row with the given id, if any.
fn find_song_row(songs: &Vec<SongRow>, song_id: i64) -> (res: Option<usize>)
    ensures
        match res {
            Some(j) => j < songs@.len() && songs@[j as int].id == song_id,
            None => !song_id_exists(songs@, song_id),
        },
{
    let mut i: usize = 0;
    while i < songs.len()
        invariant
            i <= songs@.len(),
            forall|k: int| 0 <= k < i ==> (#[trigger] songs@[k]).id != song_id,
        decreases songs@.len() - i,
    {
        if songs[i].id == song_id {
            return Some(i);
        }
        i = i + 1;
    }
    None
}

/// Reads one setlist: its display title, and the live join of its relation
/// rows with the current song table, in relation insertion order. A relation
/// row whose song id matches no song row is omitted; soft-deleted songs are
/// still joined. Fails with `NotFound` exactly when no setlist row has the
/// given id.
#[verifier::loop_isolation(false)]
pub fn find_by_id(storage: &Storage, setlist_id: i64) -> (res: Result<Setlist, StoreError>)
    requires
        storage.wf(),
    ensures
        match res {
            Ok(setlist) => {
                &&& setlist_id_exists(storage.setlists@, setlist_id)
                &&& setlist.display_title == setlist_with_id(
                    storage.setlists@,
                    setlist_id,
                ).display_title
                &&& ({
                    let entries = setlist_song_entries(
                        storage.setlist_to_song_relations@,
                        storage.songs@,
                        setlist_id,
                    );
                    &&& setlist.songs@.len() == entries.len()
                    &&& forall|k: int|
                        0 <= k < entries.len() ==> #[trigger] setlist.songs@[k]
                            == setlist_song_of(entries[k])
                })
            },
            Err(e) => {
                &&& e == StoreError::NotFound
                &&& !setlist_id_exists(storage.setlists@, setlist_id)
            },
        },
{
    // the setlist row itself
    let mut found: Option<usize> = None;
    let mut i: usize = 0;
    while i < storage.setlists.len()
        invariant
            i <= storage.setlists@.len(),
            match found {
                Some(j) => j < storage.setlists@.len() && storage.setlists@[j as int].id
                    == setlist_id,
                None => forall|k: int|
                    0 <= k < i ==> (#[trigger] storage.setlists@[k]).id != setlist_id,
            },
        decreases storage.setlists@.len() - i,
    {
        if storage.setlists[i].id == setlist_id {
            found = Some(i);
        }
        i = i + 1;
    }
    let row_index = match found {
        Some(j) => j,
        None => {
            return Err(StoreError::NotFound);
        },
    };
    let display_title = storage.setlists[row_index].display_title.clone();
    proof {
        assert(setlist_id_exists(storage.setlists@, setlist_id));
        let c = crate::storage::setlist_index_of(storage.setlists@, setlist_id);
        assert(0 <= c < storage.setlists@.len() && storage.setlists@[c].id == setlist_id);
        assert(c == row_index as int) by {
            if c < row_index as int {
                assert(storage.setlists@[c].id < storage.setlists@[row_index as int].id);
            }
            if c > row_index as int {
                assert(storage.setlists@[row_index as int].id < storage.setlists@[c].id);
            }
        }
    }

    // the live song join
    let mut songs: Vec<(i64, SetlistSong)> = Vec::new();
    let mut i: usize = 0;
    while i < storage.setlist_to_song_relations.len()
        invariant
            i <= storage.setlist_to_song_relations@.len(),
            ({
                let entries = setlist_song_entries(
                    storage.setlist_to_song_relations@.take(i as int),
                    storage.songs@,
                    setlist_id,
                );
                &&& songs@.len() == entries.len()
                &&& forall|k: int|
                    0 <= k < entries.len() ==> #[trigger] songs@[k] == setlist_song_of(entries[k])
            }),
        decreases storage.setlist_to_song_relations@.len() - i,
    {
        let ghost prefix = storage.setlist_to_song_relations@.take(i as int);
        let rel = storage.setlist_to_song_relations[i];
        if rel.setlist_id == setlist_id {
            match find_song_row(&storage.songs, rel.song_id) {
                Some(j) => {
                    songs.push(
                        (
                            storage.songs[j].id,
                            SetlistSong {
                                display_title: storage.songs[j].name.clone(),
                                chords: storage.songs[j].chords.clone(),
                            },
                        ),
                    );
                    proof {
                        assert(song_id_exists(storage.songs@, rel.song_id));
                        let c = crate::storage::song_index_of(storage.songs@, rel.song_id);
                        assert(0 <= c < storage.songs@.len() && storage.songs@[c].id
                            == rel.song_id);
                        assert(c == j as int) by {
                            if c < j as int {
                                assert(storage.songs@[c].id < storage.songs@[j as int].id);
                            }
                            if c > j as int {
                                assert(storage.songs@[j as int].id < storage.songs@[c].id);
                            }
                        }
                    }
                },
                None => {
                    // the relation names no existing song: the join omits it
                },
            }
        }
        proof {
            assert(storage.setlist_to_song_relations@.take(i as int + 1) =~= prefix.push(
                storage.setlist_to_song_relations@[i as int],
            ));
            crate::storage::lemma_setlist_song_entries_push(
                prefix,
                storage.setlist_to_song_relations@[i as int],
                storage.songs@,
                setlist_id,
            );
        }
        i = i + 1;
    }
    proof {
        assert(storage.setlist_to_song_relations@.take(
            storage.setlist_to_song_relations@.len() as int,
        ) =~= storage.setlist_to_song_relations@);
    }
    Ok(Setlist { display_title, songs })
}

/// Deletes a setlist: all of its relation rows and its setlist row go in one
/// all-or-nothing write. Deleting an id with no setlist row leaves the
/// storage as it stands: the end state — no such setlist — already holds.
#[verifier::loop_isolation(false)]
pub fn delete(storage: &mut Storage, setlist_id: i64)
    requires
        old(storage).wf(),
    ensures
        final(storage).wf(),
        final(storage).setlists@ == setlists_without(old(storage).setlists@, setlist_id),
        final(storage).setlist_to_song_relations@ == relations_without(
            old(storage).setlist_to_song_relations@,
            setlist_id,
        ),
        final(storage).next_setlist_id == old(storage).next_setlist_id,
        final(storage).next_relation_id == old(storage).next_relation_id,
        old(storage).songs_unchanged(*final(storage)),
        old(storage).links_unchanged(*final(storage)),
        old(storage).sources_unchanged(*final(storage)),
        old(storage).covers_unchanged(*final(storage)),
{
    let ghost pre = *storage;

    // the relation rows of this setlist go first
    let mut kept_rels: Vec<SetlistSongRow> = Vec::new();
    let mut i: usize = 0;
    while i < storage.setlist_to_song_relations.len()
        invariant
            i <= storage.setlist_to_song_relations@.len(),
            kept_rels@ == relations_without(
                storage.setlist_to_song_relations@.take(i as int),
                setlist_id,
            ),
        decreases storage.setlist_to_song_relations@.len() - i,
    {
        let ghost prefix = storage.setlist_to_song_relations@.take(i as int);
        let rel = storage.setlist_to_song_relations[i];
        if rel.setlist_id != setlist_id {
            kept_rels.push(rel);
        }
        proof {
            assert(storage.setlist_to_song_relations@.take(i as int + 1) =~= prefix.push(
                storage.setlist_to_song_relations@[i as int],
            ));
            crate::storage::lemma_relations_without_push(
                prefix,
                storage.setlist_to_song_relations@[i as int],
                setlist_id,
            );
        }
        i = i + 1;
    }
    proof {
        assert(storage.setlist_to_song_relations@.take(
            storage.setlist_to_song_relations@.len() as int,
        ) =~= storage.setlist_to_song_relations@);
    }

    // then the setlist row itself
    let mut kept_setlists: Vec<SetlistRow> = Vec::new();
    let mut i: usize = 0;
    while i < storage.setlists.len()
        invariant
            i <= storage.setlists@.len(),
            kept_setlists@ == setlists_without(storage.setlists@.take(i as int), setlist_id),
        decreases storage.setlists@.len() - i,
    {
        let ghost prefix = storage.setlists@.take(i as int);
        let keep = storage.setlists[i].id != setlist_id;
        if keep {
            let row = SetlistRow {
                id: storage.setlists[i].id,
                display_title: storage.setlists[i].display_title.clone(),
            };
            kept_setlists.push(row);
        }
        proof {
            assert(storage.setlists@.take(i as int + 1) =~= prefix.push(
                storage.setlists@[i as int],
            ));
            crate::storage::lemma_setlists_without_push(
                prefix,
                storage.setlists@[i as int],
                setlist_id,
            );
        }
        i = i + 1;
    }
    proof {
        assert(storage.setlists@.take(storage.setlists@.len() as int) =~= storage.setlists@);
    }

    storage.setlist_to_song_relations = kept_rels;
    storage.setlists = kept_setlists;
    proof {
        crate::storage::lemma_relations_without_props(
            pre.setlist_to_song_relations@,
            setlist_id,
            pre.next_relation_id,
            pre.next_setlist_id,
        );
        crate::storage::lemma_setlists_without_props(
            pre.setlists@,
            setlist_id,
            pre.next_setlist_id,
        );
    }
}

} // verus!
