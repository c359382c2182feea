//! The relational state shared by the stores, and its mathematical model.
//!
//! Six tables live here: song rows, link rows, the two song-to-link join
//! relations (sources and covers), setlist rows, and the setlist-to-song
//! join relation. Every row carries a generated id; each table hands out
//! ids from its own counter, so rows stand in the table in id order, which
//! is also insertion order.

use vstd::prelude::*;

verus! {

/// A stored song row; `deleted_at` is the soft-delete marker (a timestamp).
#[derive(Debug)]
pub struct SongRow {
    pub id: i64,
    pub name: String,
    pub chords: String,
    pub deleted_at: Option<i64>,
}

/// A stored link row; link rows are insert-only and never deduplicated.
#[derive(Debug)]
pub struct LinkRow {
    pub id: i64,
    pub url: String,
    pub display_title: Option<String>,
}

/// One row of a song-to-link join relation (used for sources and for covers).
#[derive(Clone, Copy, Debug)]
pub struct SongLinkRow {
    pub id: i64,
    pub song_id: i64,
    pub link_id: i64,
}

/// A stored setlist row.
#[derive(Debug)]
pub struct SetlistRow {
    pub id: i64,
    pub display_title: String,
}

/// One row of the setlist-to-song join relation.
#[derive(Clone, Copy, Debug)]
pub struct SetlistSongRow {
    pub id: i64,
    pub setlist_id: i64,
    pub song_id: i64,
}

/// The whole relational state. It is created once and handed explicitly to
/// every store operation as its storage dependency.
#[derive(Debug)]
pub struct Storage {
    pub songs: Vec<SongRow>,
    pub links: Vec<LinkRow>,
    pub sources: Vec<SongLinkRow>,
    pub covers: Vec<SongLinkRow>,
    pub setlists: Vec<SetlistRow>,
    pub setlist_to_song_relations: Vec<SetlistSongRow>,
    pub next_song_id: i64,
    pub next_link_id: i64,
    pub next_source_id: i64,
    pub next_cover_id: i64,
    pub next_setlist_id: i64,
    pub next_relation_id: i64,
}

// ---------------------------------------------------------------------------
// Row ordering and id bounds
// ---------------------------------------------------------------------------

/// Song rows stand in strictly increasing id order, ids drawn from [1, next_id).
pub open spec fn song_rows_ok(songs: Seq<SongRow>, next_id: i64) -> bool {
    &&& forall|i: int, j: int|
        0 <= i < j < songs.len() ==> #[trigger] songs[i].id < #[trigger] songs[j].id
    &&& forall|i: int| 0 <= i < songs.len() ==> 1 <= (#[trigger] songs[i]).id < next_id
}

/// Link rows stand in strictly increasing id order, ids drawn from [1, next_id).
pub open spec fn link_rows_ok(links: Seq<LinkRow>, next_id: i64) -> bool {
    &&& forall|i: int, j: int|
        0 <= i < j < links.len() ==> #[trigger] links[i].id < #[trigger] links[j].id
    &&& forall|i: int| 0 <= i < links.len() ==> 1 <= (#[trigger] links[i]).id < next_id
}

/// Song-to-link relation rows stand in strictly increasing id order.
pub open spec fn song_link_rows_ok(rels: Seq<SongLinkRow>, next_id: i64) -> bool {
    &&& forall|i: int, j: int|
        0 <= i < j < rels.len() ==> #[trigger] rels[i].id < #[trigger] rels[j].id
    &&& forall|i: int| 0 <= i < rels.len() ==> 1 <= (#[trigger] rels[i]).id < next_id
}

/// Setlist rows stand in strictly increasing id order.
pub open spec fn setlist_rows_ok(setlists: Seq<SetlistRow>, next_id: i64) -> bool {
    &&& forall|i: int, j: int|
        0 <= i < j < setlists.len() ==> #[trigger] setlists[i].id < #[trigger] setlists[j].id
    &&& forall|i: int| 0 <= i < setlists.len() ==> 1 <= (#[trigger] setlists[i]).id < next_id
}

/// Setlist-to-song relation rows stand in strictly increasing id order, and
/// never name a setlist id that was not handed out yet.
pub open spec fn setlist_song_rows_ok(
    rels: Seq<SetlistSongRow>,
    next_id: i64,
    next_setlist_id: i64,
) -> bool {
    &&& forall|i: int, j: int|
        0 <= i < j < rels.len() ==> #[trigger] rels[i].id < #[trigger] rels[j].id
    &&& forall|i: int| 0 <= i < rels.len() ==> 1 <= (#[trigger] rels[i]).id < next_id
    &&& forall|i: int| 0 <= i < rels.len() ==> 1 <= (#[trigger] rels[i]).setlist_id < next_setlist_id
}

// ---------------------------------------------------------------------------
// Row lookup by id
// ---------------------------------------------------------------------------

pub open spec fn song_id_exists(songs: Seq<SongRow>, song_id: i64) -> bool {
    exists|i: int| 0 <= i < songs.len() && (#[trigger] songs[i]).id == song_id
}

pub open spec fn link_id_exists(links: Seq<LinkRow>, link_id: i64) -> bool {
    exists|i: int| 0 <= i < links.len() && (#[trigger] links[i]).id == link_id
}

pub open spec fn setlist_id_exists(setlists: Seq<SetlistRow>, setlist_id: i64) -> bool {
    exists|i: int| 0 <= i < setlists.len() && (#[trigger] setlists[i]).id == setlist_id
}

/// The index of the song row with the given id (meaningful when one exists;
/// under `song_rows_ok` that row is unique).
pub open spec fn song_index_of(songs: Seq<SongRow>, song_id: i64) -> int {
    choose|i: int| 0 <= i < songs.len() && (#[trigger] songs[i]).id == song_id
}

/// The song row with the given id (meaningful when one exists).
pub open spec fn song_with_id(songs: Seq<SongRow>, song_id: i64) -> SongRow {
    songs[song_index_of(songs, song_id)]
}

/// The index of the setlist row with the given id (meaningful when one exists).
pub open spec fn setlist_index_of(setlists: Seq<SetlistRow>, setlist_id: i64) -> int {
    choose|i: int| 0 <= i < setlists.len() && (#[trigger] setlists[i]).id == setlist_id
}

/// The setlist row with the given id (meaningful when one exists).
pub open spec fn setlist_with_id(setlists: Seq<SetlistRow>, setlist_id: i64) -> SetlistRow {
    setlists[setlist_index_of(setlists, setlist_id)]
}

// ---------------------------------------------------------------------------
// Referential soundness of the song-to-link relations
// ---------------------------------------------------------------------------

/// Every song-to-link relation row points at an existing link row and an
/// existing song row. Song creation establishes this (links are inserted
/// before their relation rows), and neither table ever loses a row.
pub open spec fn song_link_refs_ok(
    rels: Seq<SongLinkRow>,
    links: Seq<LinkRow>,
    songs: Seq<SongRow>,
) -> bool {
    forall|i: int| 0 <= i < rels.len() ==> {
        &&& link_id_exists(links, (#[trigger] rels[i]).link_id)
        &&& song_id_exists(songs, rels[i].song_id)
    }
}

impl Storage {
    /// Well-formedness: each table sorted by id below its counter, counters
    /// at least 1, and the song-to-link relations referentially sound.
    pub open spec fn wf(self) -> bool {
        &&& song_rows_ok(self.songs@, self.next_song_id)
        &&& link_rows_ok(self.links@, self.next_link_id)
        &&& song_link_rows_ok(self.sources@, self.next_source_id)
        &&& song_link_rows_ok(self.covers@, self.next_cover_id)
        &&& setlist_rows_ok(self.setlists@, self.next_setlist_id)
        &&& setlist_song_rows_ok(
            self.setlist_to_song_relations@,
            self.next_relation_id,
            self.next_setlist_id,
        )
        &&& song_link_refs_ok(self.sources@, self.links@, self.songs@)
        &&& song_link_refs_ok(self.covers@, self.links@, self.songs@)
        &&& 1 <= self.next_song_id
        &&& 1 <= self.next_link_id
        &&& 1 <= self.next_source_id
        &&& 1 <= self.next_cover_id
        &&& 1 <= self.next_setlist_id
        &&& 1 <= self.next_relation_id
    }

    /// An empty store: no rows, every id counter at 1.
    pub fn new() -> (storage: Storage)
        ensures
            storage.wf(),
            storage.songs@ =~= Seq::<SongRow>::empty(),
            storage.links@ =~= Seq::<LinkRow>::empty(),
            storage.sources@ =~= Seq::<SongLinkRow>::empty(),
            storage.covers@ =~= Seq::<SongLinkRow>::empty(),
            storage.setlists@ =~= Seq::<SetlistRow>::empty(),
            storage.setlist_to_song_relations@ =~= Seq::<SetlistSongRow>::empty(),
            storage.next_song_id == 1,
            storage.next_link_id == 1,
            storage.next_source_id == 1,
            storage.next_cover_id == 1,
            storage.next_setlist_id == 1,
            storage.next_relation_id == 1,
    {
        Storage {
            songs: Vec::new(),
            links: Vec::new(),
            sources: Vec::new(),
            covers: Vec::new(),
            setlists: Vec::new(),
            setlist_to_song_relations: Vec::new(),
            next_song_id: 1,
            next_link_id: 1,
            next_source_id: 1,
            next_cover_id: 1,
            next_setlist_id: 1,
            next_relation_id: 1,
        }
    }
}

impl Storage {
    /// The song table (rows and counter) is the same in `post`.
    pub open spec fn songs_unchanged(self, post: Storage) -> bool {
        self.songs@ == post.songs@ && self.next_song_id == post.next_song_id
    }

    /// The link table is the same in `post`.
    pub open spec fn links_unchanged(self, post: Storage) -> bool {
        self.links@ == post.links@ && self.next_link_id == post.next_link_id
    }

    /// The source relation table is the same in `post`.
    pub open spec fn sources_unchanged(self, post: Storage) -> bool {
        self.sources@ == post.sources@ && self.next_source_id == post.next_source_id
    }

    /// The cover relation table is the same in `post`.
    pub open spec fn covers_unchanged(self, post: Storage) -> bool {
        self.covers@ == post.covers@ && self.next_cover_id == post.next_cover_id
    }

    /// The setlist table is the same in `post`.
    pub open spec fn setlists_unchanged(self, post: Storage) -> bool {
        self.setlists@ == post.setlists@ && self.next_setlist_id == post.next_setlist_id
    }

    /// The setlist-to-song relation table is the same in `post`.
    pub open spec fn setlist_relations_unchanged(self, post: Storage) -> bool {
        self.setlist_to_song_relations@ == post.setlist_to_song_relations@
            && self.next_relation_id == post.next_relation_id
    }
}

// ---------------------------------------------------------------------------
// Derived views of the tables
// ---------------------------------------------------------------------------

/// The song rows with no deletion timestamp, in table order.
pub open spec fn active_songs(songs: Seq<SongRow>) -> Seq<SongRow>
    decreases songs.len(),
{
    if songs.len() == 0 {
        Seq::empty()
    } else {
        let rest = active_songs(songs.drop_last());
        if songs.last().deleted_at is None {
            rest.push(songs.last())
        } else {
            rest
        }
    }
}

/// The rows of one song-to-link relation that belong to the given song,
/// in table order (relation insertion order).
pub open spec fn relations_for_song(rels: Seq<SongLinkRow>, song_id: i64) -> Seq<SongLinkRow>
    decreases rels.len(),
{
    if rels.len() == 0 {
        Seq::empty()
    } else {
        let rest = relations_for_song(rels.drop_last(), song_id);
        if rels.last().song_id == song_id {
            rest.push(rels.last())
        } else {
            rest
        }
    }
}

/// Some link row with the given id holds exactly this URL and display title.
pub open spec fn link_resolves_to(
    links: Seq<LinkRow>,
    link_id: i64,
    link: crate::types::YTLink,
) -> bool {
    exists|j: int| {
        &&& 0 <= j < links.len()
        &&& (#[trigger] links[j]).id == link_id
        &&& link.url == links[j].url
        &&& link.display_title == links[j].display_title
    }
}

/// `links_out` is exactly the join of the given song's relation rows with the
/// link table: one entry per relation row, in relation order, each carrying
/// the URL and display title of the linked row.
pub open spec fn links_match(
    links_out: Seq<crate::types::YTLink>,
    rels: Seq<SongLinkRow>,
    links: Seq<LinkRow>,
    song_id: i64,
) -> bool {
    let mine = relations_for_song(rels, song_id);
    &&& links_out.len() == mine.len()
    &&& forall|i: int|
        0 <= i < mine.len() ==> link_resolves_to(links, mine[i].link_id, #[trigger] links_out[i])
}

/// Whether a song row with this id exists and is not soft-deleted.
pub open spec fn has_active_song(songs: Seq<SongRow>, song_id: i64) -> bool {
    exists|i: int| {
        &&& 0 <= i < songs.len()
        &&& (#[trigger] songs[i]).id == song_id
        &&& songs[i].deleted_at is None
    }
}

/// The song table after soft-deleting the given id at time `t`: if an active
/// row with that id exists it gains the deletion timestamp, otherwise the
/// table is unchanged.
pub open spec fn soft_deleted_songs(songs: Seq<SongRow>, song_id: i64, t: i64) -> Seq<SongRow> {
    if has_active_song(songs, song_id) {
        let i = choose|i: int| {
            &&& 0 <= i < songs.len()
            &&& (#[trigger] songs[i]).id == song_id
            &&& songs[i].deleted_at is None
        };
        songs.update(i, SongRow {
            id: songs[i].id,
            name: songs[i].name,
            chords: songs[i].chords,
            deleted_at: Some(t),
        })
    } else {
        songs
    }
}

/// The live join a setlist projects: for each relation row of the given
/// setlist, in relation order, the current song row it names, with relation
/// rows whose song id matches no song row silently omitted. Soft-deleted
/// songs are not filtered out: the join reads the row as it stands.
pub open spec fn setlist_song_entries(
    rels: Seq<SetlistSongRow>,
    songs: Seq<SongRow>,
    setlist_id: i64,
) -> Seq<SongRow>
    decreases rels.len(),
{
    if rels.len() == 0 {
        Seq::empty()
    } else {
        let rest = setlist_song_entries(rels.drop_last(), songs, setlist_id);
        let r = rels.last();
        if r.setlist_id == setlist_id && song_id_exists(songs, r.song_id) {
            rest.push(song_with_id(songs, r.song_id))
        } else {
            rest
        }
    }
}

/// How one joined song row is projected into a setlist entry: the song id,
/// its current name as the display title, and its current chords.
pub open spec fn setlist_song_of(row: SongRow) -> (i64, crate::types::SetlistSong) {
    (row.id, crate::types::SetlistSong { display_title: row.name, chords: row.chords })
}

/// The setlist table with every row of the given id removed.
pub open spec fn setlists_without(setlists: Seq<SetlistRow>, setlist_id: i64) -> Seq<SetlistRow>
    decreases setlists.len(),
{
    if setlists.len() == 0 {
        Seq::empty()
    } else {
        let rest = setlists_without(setlists.drop_last(), setlist_id);
        if setlists.last().id == setlist_id {
            rest
        } else {
            rest.push(setlists.last())
        }
    }
}

/// The setlist-to-song relation with every row of the given setlist removed.
pub open spec fn relations_without(
    rels: Seq<SetlistSongRow>,
    setlist_id: i64,
) -> Seq<SetlistSongRow>
    decreases rels.len(),
{
    if rels.len() == 0 {
        Seq::empty()
    } else {
        let rest = relations_without(rels.drop_last(), setlist_id);
        if rels.last().setlist_id == setlist_id {
            rest
        } else {
            rest.push(rels.last())
        }
    }
}

// ---------------------------------------------------------------------------
// Unfolding lemmas for the recursive views
// ---------------------------------------------------------------------------

/// Referential soundness of a song-to-link relation survives any growth of
/// the link table and any id-preserving growth or update of the song table.
pub proof fn lemma_song_link_refs_ok_monotone(
    rels: Seq<SongLinkRow>,
    links: Seq<LinkRow>,
    links2: Seq<LinkRow>,
    songs: Seq<SongRow>,
    songs2: Seq<SongRow>,
)
    requires
        song_link_refs_ok(rels, links, songs),
        links.len() <= links2.len(),
        forall|i: int| 0 <= i < links.len() ==> #[trigger] links2[i] == links[i],
        songs.len() <= songs2.len(),
        forall|i: int| 0 <= i < songs.len() ==> (#[trigger] songs2[i]).id == songs[i].id,
    ensures
        song_link_refs_ok(rels, links2, songs2),
{
    assert forall|i: int| 0 <= i < rels.len() implies {
        &&& link_id_exists(links2, (#[trigger] rels[i]).link_id)
        &&& song_id_exists(songs2, rels[i].song_id)
    } by {
        let w = choose|w: int| 0 <= w < links.len() && (#[trigger] links[w]).id == rels[i].link_id;
        assert(links2[w].id == rels[i].link_id);
        let v = choose|v: int| 0 <= v < songs.len() && (#[trigger] songs[v]).id == rels[i].song_id;
        assert(songs2[v].id == rels[i].song_id);
    }
}

pub proof fn lemma_active_songs_push(songs: Seq<SongRow>, row: SongRow)
    ensures
        active_songs(songs.push(row)) == if row.deleted_at is None {
            active_songs(songs).push(row)
        } else {
            active_songs(songs)
        },
{
    assert(songs.push(row).drop_last() =~= songs);
    assert(songs.push(row).last() == row);
}

pub proof fn lemma_relations_for_song_push(rels: Seq<SongLinkRow>, row: SongLinkRow, song_id: i64)
    ensures
        relations_for_song(rels.push(row), song_id) == if row.song_id == song_id {
            relations_for_song(rels, song_id).push(row)
        } else {
            relations_for_song(rels, song_id)
        },
{
    assert(rels.push(row).drop_last() =~= rels);
    assert(rels.push(row).last() == row);
}

pub proof fn lemma_setlist_song_entries_push(
    rels: Seq<SetlistSongRow>,
    row: SetlistSongRow,
    songs: Seq<SongRow>,
    setlist_id: i64,
)
    ensures
        setlist_song_entries(rels.push(row), songs, setlist_id)
            == if row.setlist_id == setlist_id && song_id_exists(songs, row.song_id) {
            setlist_song_entries(rels, songs, setlist_id).push(song_with_id(songs, row.song_id))
        } else {
            setlist_song_entries(rels, songs, setlist_id)
        },
{
    assert(rels.push(row).drop_last() =~= rels);
    assert(rels.push(row).last() == row);
}

pub proof fn lemma_setlists_without_push(setlists: Seq<SetlistRow>, row: SetlistRow, setlist_id: i64)
    ensures
        setlists_without(setlists.push(row), setlist_id) == if row.id == setlist_id {
            setlists_without(setlists, setlist_id)
        } else {
            setlists_without(setlists, setlist_id).push(row)
        },
{
    assert(setlists.push(row).drop_last() =~= setlists);
    assert(setlists.push(row).last() == row);
}

pub proof fn lemma_relations_without_push(
    rels: Seq<SetlistSongRow>,
    row: SetlistSongRow,
    setlist_id: i64,
)
    ensures
        relations_without(rels.push(row), setlist_id) == if row.setlist_id == setlist_id {
            relations_without(rels, setlist_id)
        } else {
            relations_without(rels, setlist_id).push(row)
        },
{
    assert(rels.push(row).drop_last() =~= rels);
    assert(rels.push(row).last() == row);
}

/// Every entry of the active listing is a row of the song table, and none
/// of them carries a deletion timestamp.
pub proof fn lemma_active_songs_elements(songs: Seq<SongRow>)
    ensures
        forall|k: int|
            0 <= k < active_songs(songs).len() ==> exists|j: int|
                0 <= j < songs.len() && #[trigger] active_songs(songs)[k] == songs[j],
        forall|k: int|
            0 <= k < active_songs(songs).len() ==> (#[trigger] active_songs(
                songs,
            )[k]).deleted_at is None,
    decreases songs.len(),
{
    if songs.len() == 0 {
    } else {
        let q = songs.drop_last();
        assert(forall|i: int| 0 <= i < q.len() ==> #[trigger] q[i] == songs[i]);
        lemma_active_songs_elements(q);
    }
}

/// The active listing of a sorted song table is itself sorted by id, below
/// the same bound.
pub proof fn lemma_active_songs_sorted(songs: Seq<SongRow>, next_id: i64)
    requires
        song_rows_ok(songs, next_id),
    ensures
        song_rows_ok(active_songs(songs), next_id),
    decreases songs.len(),
{
    if songs.len() == 0 {
    } else {
        let q = songs.drop_last();
        let last = songs.last();
        assert(forall|i: int| 0 <= i < q.len() ==> #[trigger] q[i] == songs[i]);
        lemma_active_songs_sorted(q, next_id);
        lemma_active_songs_elements(q);
        let rest = active_songs(q);
        if last.deleted_at is None {
            assert forall|k: int|
                0 <= k < rest.len() implies (#[trigger] rest[k]).id < last.id by {
                let j = choose|j: int| 0 <= j < q.len() && rest[k] == q[j];
                assert(songs[j].id < last.id);
            }
            assert(active_songs(songs) == rest.push(last));
        }
    }
}

/// Filtering a relation table for one song distributes over concatenation.
pub proof fn lemma_relations_for_song_concat(a: Seq<SongLinkRow>, b: Seq<SongLinkRow>, song_id: i64)
    ensures
        relations_for_song(a + b, song_id) == relations_for_song(a, song_id) + relations_for_song(
            b,
            song_id,
        ),
    decreases b.len(),
{
    if b.len() == 0 {
        assert(a + b =~= a);
        assert(relations_for_song(a, song_id) + relations_for_song(b, song_id)
            =~= relations_for_song(a, song_id));
    } else {
        assert((a + b).drop_last() =~= a + b.drop_last());
        assert((a + b).last() == b.last());
        lemma_relations_for_song_concat(a, b.drop_last(), song_id);
        if b.last().song_id == song_id {
            assert(relations_for_song(a, song_id) + relations_for_song(b, song_id)
                =~= (relations_for_song(a, song_id) + relations_for_song(
                b.drop_last(),
                song_id,
            )).push(b.last()));
        } else {
            assert(relations_for_song(a, song_id) + relations_for_song(b, song_id)
                =~= relations_for_song(a, song_id) + relations_for_song(b.drop_last(), song_id));
        }
    }
}

/// A relation table none of whose rows belong to the song filters to nothing.
pub proof fn lemma_relations_for_song_none(a: Seq<SongLinkRow>, song_id: i64)
    requires
        forall|i: int| 0 <= i < a.len() ==> (#[trigger] a[i]).song_id != song_id,
    ensures
        relations_for_song(a, song_id) == Seq::<SongLinkRow>::empty(),
    decreases a.len(),
{
    if a.len() == 0 {
    } else {
        let q = a.drop_last();
        assert(forall|i: int| 0 <= i < q.len() ==> #[trigger] q[i] == a[i]);
        lemma_relations_for_song_none(q, song_id);
    }
}

/// A relation table all of whose rows belong to the song filters to itself.
pub proof fn lemma_relations_for_song_all(a: Seq<SongLinkRow>, song_id: i64)
    requires
        forall|i: int| 0 <= i < a.len() ==> (#[trigger] a[i]).song_id == song_id,
    ensures
        relations_for_song(a, song_id) == a,
    decreases a.len(),
{
    if a.len() == 0 {
        assert(relations_for_song(a, song_id) =~= a);
    } else {
        let q = a.drop_last();
        assert(forall|i: int| 0 <= i < q.len() ==> #[trigger] q[i] == a[i]);
        lemma_relations_for_song_all(q, song_id);
        assert(q.push(a.last()) =~= a);
    }
}

/// The live join of a setlist distributes over concatenation of its
/// relation table.
pub proof fn lemma_setlist_song_entries_concat(
    a: Seq<SetlistSongRow>,
    b: Seq<SetlistSongRow>,
    songs: Seq<SongRow>,
    setlist_id: i64,
)
    ensures
        setlist_song_entries(a + b, songs, setlist_id) == setlist_song_entries(
            a,
            songs,
            setlist_id,
        ) + setlist_song_entries(b, songs, setlist_id),
    decreases b.len(),
{
    if b.len() == 0 {
        assert(a + b =~= a);
        assert(setlist_song_entries(a, songs, setlist_id) + setlist_song_entries(
            b,
            songs,
            setlist_id,
        ) =~= setlist_song_entries(a, songs, setlist_id));
    } else {
        assert((a + b).drop_last() =~= a + b.drop_last());
        assert((a + b).last() == b.last());
        lemma_setlist_song_entries_concat(a, b.drop_last(), songs, setlist_id);
        let r = b.last();
        if r.setlist_id == setlist_id && song_id_exists(songs, r.song_id) {
            assert(setlist_song_entries(a, songs, setlist_id) + setlist_song_entries(
                b,
                songs,
                setlist_id,
            ) =~= (setlist_song_entries(a, songs, setlist_id) + setlist_song_entries(
                b.drop_last(),
                songs,
                setlist_id,
            )).push(song_with_id(songs, r.song_id)));
        } else {
            assert(setlist_song_entries(a, songs, setlist_id) + setlist_song_entries(
                b,
                songs,
                setlist_id,
            ) =~= setlist_song_entries(a, songs, setlist_id) + setlist_song_entries(
                b.drop_last(),
                songs,
                setlist_id,
            ));
        }
    }
}

/// A relation table none of whose rows belong to the setlist joins to
/// nothing.
pub proof fn lemma_setlist_song_entries_none(
    a: Seq<SetlistSongRow>,
    songs: Seq<SongRow>,
    setlist_id: i64,
)
    requires
        forall|i: int| 0 <= i < a.len() ==> (#[trigger] a[i]).setlist_id != setlist_id,
    ensures
        setlist_song_entries(a, songs, setlist_id) == Seq::<SongRow>::empty(),
    decreases a.len(),
{
    if a.len() == 0 {
    } else {
        let q = a.drop_last();
        assert(forall|i: int| 0 <= i < q.len() ==> #[trigger] q[i] == a[i]);
        lemma_setlist_song_entries_none(q, songs, setlist_id);
    }
}

/// Removing a setlist's rows keeps the remaining setlist table sorted and
/// bounded, keeps only rows of the table it was given, and leaves no row with
/// the removed id.
pub proof fn lemma_setlists_without_props(setlists: Seq<SetlistRow>, setlist_id: i64, next_id: i64)
    requires
        setlist_rows_ok(setlists, next_id),
    ensures
        setlist_rows_ok(setlists_without(setlists, setlist_id), next_id),
        forall|k: int|
            0 <= k < setlists_without(setlists, setlist_id).len() ==> exists|j: int|
                0 <= j < setlists.len() && #[trigger] setlists_without(setlists, setlist_id)[k]
                    == setlists[j],
        forall|k: int|
            0 <= k < setlists_without(setlists, setlist_id).len()
                ==> (#[trigger] setlists_without(setlists, setlist_id)[k]).id != setlist_id,
    decreases setlists.len(),
{
    if setlists.len() == 0 {
    } else {
        let q = setlists.drop_last();
        let last = setlists.last();
        assert(forall|i: int| 0 <= i < q.len() ==> #[trigger] q[i] == setlists[i]);
        lemma_setlists_without_props(q, setlist_id, next_id);
        let rest = setlists_without(q, setlist_id);
        if last.id != setlist_id {
            assert forall|k: int|
                0 <= k < rest.len() implies (#[trigger] rest[k]).id < last.id by {
                let j = choose|j: int| 0 <= j < q.len() && rest[k] == q[j];
                assert(setlists[j].id < last.id);
            }
            assert(setlists_without(setlists, setlist_id) == rest.push(last));
        }
    }
}

/// Removing a setlist's relation rows keeps the remaining relation table
/// sorted and bounded, keeps only rows of the table it was given, and leaves no
/// row of the removed setlist.
pub proof fn lemma_relations_without_props(
    rels: Seq<SetlistSongRow>,
    setlist_id: i64,
    next_id: i64,
    next_setlist_id: i64,
)
    requires
        setlist_song_rows_ok(rels, next_id, next_setlist_id),
    ensures
        setlist_song_rows_ok(relations_without(rels, setlist_id), next_id, next_setlist_id),
        forall|k: int|
            0 <= k < relations_without(rels, setlist_id).len() ==> exists|j: int|
                0 <= j < rels.len() && #[trigger] relations_without(rels, setlist_id)[k]
                    == rels[j],
        forall|k: int|
            0 <= k < relations_without(rels, setlist_id).len()
                ==> (#[trigger] relations_without(rels, setlist_id)[k]).setlist_id != setlist_id,
    decreases rels.len(),
{
    if rels.len() == 0 {
    } else {
        let q = rels.drop_last();
        let last = rels.last();
        assert(forall|i: int| 0 <= i < q.len() ==> #[trigger] q[i] == rels[i]);
        lemma_relations_without_props(q, setlist_id, next_id, next_setlist_id);
        let rest = relations_without(q, setlist_id);
        if last.setlist_id != setlist_id {
            assert forall|k: int|
                0 <= k < rest.len() implies (#[trigger] rest[k]).id < last.id by {
                let j = choose|j: int| 0 <= j < q.len() && rest[k] == q[j];
                assert(rels[j].id < last.id);
            }
            assert(relations_without(rels, setlist_id) == rest.push(last));
        }
    }
}

} // verus!
