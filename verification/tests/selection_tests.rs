use setlistrs::selection::{SongChockboxAction, SongsForSetlist};

#[test]
fn add_appends_the_picked_id() {
    let picked = SongsForSetlist { data: vec![3] };
    let picked = picked.reduce(SongChockboxAction::Add(5));
    assert_eq!(picked.data, vec![3, 5]);
}

#[test]
fn remove_drops_every_occurrence_and_keeps_order() {
    let picked = SongsForSetlist { data: vec![1, 2, 1, 3] };
    let picked = picked.reduce(SongChockboxAction::Remove(1));
    assert_eq!(picked.data, vec![2, 3]);
}
