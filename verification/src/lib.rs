//! A catalogue of songs and setlists over a small relational store.
//!
//! Songs carry source and cover video links; setlists group songs by id.
//! The store keeps six relational tables: songs, links, the two song-to-link
//! join relations (sources and covers), setlists, and the setlist-to-song
//! join relation. Multi-row writes are all-or-nothing, songs are soft-deleted
//! (marked, never removed), and a setlist's song list is a live join against
//! the current song rows.

pub mod types;

pub mod storage;

mod clock;

pub mod repository;

pub mod setlist;

pub mod laws;

pub mod selection;
