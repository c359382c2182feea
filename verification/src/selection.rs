//! Picking songs for a new setlist: the id list a caller builds up one
//! checkbox action at a time before submitting a creation request.

use vstd::prelude::*;

verus! {

/// One checkbox action while picking songs for a new setlist.
pub enum SongChockboxAction {
    Add(i64),
    Remove(i64),
}

/// The song ids picked so far, in pick order.
pub struct SongsForSetlist {
    pub data: Vec<i64>,
}

/// The id list with every occurrence of one id removed, order kept.
pub open spec fn ids_without(ids: Seq<i64>, id: i64) -> Seq<i64>
    decreases ids.len(),
{
    if ids.len() == 0 {
        Seq::empty()
    } else {
        let rest = ids_without(ids.drop_last(), id);
        if ids.last() == id {
            rest
        } else {
            rest.push(ids.last())
        }
    }
}

pub proof fn lemma_ids_without_push(ids: Seq<i64>, x: i64, id: i64)
    ensures
        ids_without(ids.push(x), id) == if x == id {
            ids_without(ids, id)
        } else {
            ids_without(ids, id).push(x)
        },
{
    assert(ids.push(x).drop_last() =~= ids);
    assert(ids.push(x).last() == x);
}

impl SongsForSetlist {
    /// Applies one checkbox action: `Add` appends the id to the pick list,
    /// `Remove` drops every occurrence of it and keeps the rest in order.
    pub fn reduce(self, action: SongChockboxAction) -> (res: SongsForSetlist)
        ensures
            match action {
                SongChockboxAction::Add(id) => res.data@ == self.data@.push(id),
                SongChockboxAction::Remove(id) => res.data@ == ids_without(self.data@, id),
            },
    {
        match action {
            SongChockboxAction::Add(value) => {
                let mut list = self.data;
                list.push(value);
                SongsForSetlist { data: list }
            },
            SongChockboxAction::Remove(value) => {
                let mut list: Vec<i64> = Vec::new();
                let mut i: usize = 0;
                while i < self.data.len()
                    invariant
                        i <= self.data@.len(),
                        list@ == ids_without(self.data@.take(i as int), value),
                    decreases self.data@.len() - i,
                {
                    let ghost prefix = self.data@.take(i as int);
                    if self.data[i] != value {
                        list.push(self.data[i]);
                    }
                    proof {
                        assert(self.data@.take(i as int + 1) =~= prefix.push(
                            self.data@[i as int],
                        ));
                        lemma_ids_without_push(prefix, self.data@[i as int], value);
                    }
                    i = i + 1;
                }
                proof {
                    assert(self.data@.take(self.data@.len() as int) =~= self.data@);
                }
                SongsForSetlist { data: list }
            },
        }
    }
}

} // verus!
