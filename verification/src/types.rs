//! Plain data values exchanged between the stores and their callers.

use vstd::prelude::*;

verus! {

/// A video link as submitted by a caller: a URL and an optional display title.
#[derive(Clone, Debug)]
pub struct YTLink {
    pub url: String,
    pub display_title: Option<String>,
}

/// A video link together with the id of its stored row.
#[derive(Clone, Debug)]
pub struct YTLinkDetails {
    pub id: i64,
    pub url: String,
    pub display_title: Option<String>,
}

/// A song as submitted for creation and as returned by the active listing.
///
/// `source` holds the source video links; `cover` the cover video links.
/// A creation request must carry `Some` cover list (possibly empty): `None`
/// is rejected as a validation error.
#[derive(Clone, Debug)]
pub struct Song {
    pub name: String,
    pub source: Vec<YTLink>,
    pub cover: Option<Vec<YTLink>>,
    pub chords: String,
}

/// A song with the ids of its stored rows.
#[derive(Clone, Debug)]
pub struct SongDetails {
    pub id: i64,
    pub name: String,
    pub source: Vec<YTLinkDetails>,
    pub cover: Option<Vec<YTLinkDetails>>,
    pub chords: String,
}

/// The active-song listing: each entry is a song id with the song's data.
#[derive(Debug)]
pub struct SongList {
    pub data: Vec<(i64, Song)>,
}

/// A setlist as projected for a reader: its title and, for each member
/// relation in insertion order, the current data of the referenced song.
#[derive(Debug)]
pub struct Setlist {
    pub display_title: String,
    pub songs: Vec<(i64, SetlistSong)>,
}

/// One song entry of a projected setlist: the song's current name
/// (as the display title) and chords.
#[derive(Clone, Debug)]
pub struct SetlistSong {
    pub display_title: String,
    pub chords: String,
}

/// A request to create a setlist: a title and the member song ids, in order.
#[derive(Clone, Debug)]
pub struct NewSetlist {
    pub display_title: String,
    pub songs: Vec<i64>,
}

/// The setlist listing: each entry is a setlist id with its display title.
#[derive(Debug)]
pub struct SetlistList {
    pub data: Vec<(i64, String)>,
}

/// Why a store operation refused a request.
#[derive(Clone, Copy, Debug, PartialEq, Eq, Structural)]
pub enum StoreError {
    /// No row with the requested id exists.
    NotFound,
    /// A required part of the request was absent.
    Validation,
}

} // verus!
