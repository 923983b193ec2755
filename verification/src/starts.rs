//! How many files of each task were converted when its run began.

use crate::text::same_text;
use vstd::prelude::*;

verus! {

/// The count of one task.
#[derive(Debug, PartialEq, Eq)]
pub struct StartCount {
    pub task_id: String,
    pub converted: usize,
}

pub open spec fn start_pairs(list: Seq<StartCount>) -> Seq<(Seq<char>, usize)> {
    list.map_values(|c: StartCount| (c.task_id@, c.converted))
}

/// What a list says of each task; the last entry of a task counts.
pub open spec fn start_map(list: Seq<(Seq<char>, usize)>) -> Map<Seq<char>, usize>
    decreases list.len(),
{
    if list.len() == 0 {
        Map::empty()
    } else {
        start_map(list.drop_last()).insert(list.last().0, list.last().1)
    }
}

/// The counts of the tasks that have started.
#[derive(Debug, PartialEq, Eq)]
pub struct StartCounts {
    list: Vec<StartCount>,
}

impl View for StartCounts {
    type V = Map<Seq<char>, usize>;

    closed spec fn view(&self) -> Map<Seq<char>, usize> {
        start_map(start_pairs(self.list@))
    }
}

proof fn lemma_last_entry(list: Seq<(Seq<char>, usize)>, id: Seq<char>, i: int)
    requires
        0 <= i < list.len(),
        list[i].0 == id,
        forall|j: int| i < j < list.len() ==> (#[trigger] list[j]).0 != id,
    ensures
        start_map(list).contains_key(id),
        start_map(list)[id] == list[i].1,
    decreases list.len(),
{
    if i < list.len() - 1 {
        assert(list[list.len() - 1].0 != id);
        assert forall|j: int| i < j < list.drop_last().len() implies (
        #[trigger] list.drop_last()[j]).0 != id by {
            assert(list[j].0 != id);
        }
        lemma_last_entry(list.drop_last(), id, i);
    }
}

proof fn lemma_no_entry(list: Seq<(Seq<char>, usize)>, id: Seq<char>)
    requires
        forall|j: int| 0 <= j < list.len() ==> (#[trigger] list[j]).0 != id,
    ensures
        !start_map(list).contains_key(id),
    decreases list.len(),
{
    if list.len() > 0 {
        assert(list[list.len() - 1].0 != id);
        assert forall|j: int| 0 <= j < list.drop_last().len() implies (
        #[trigger] list.drop_last()[j]).0 != id by {
            assert(list[j].0 != id);
        }
        lemma_no_entry(list.drop_last(), id);
    }
}

impl StartCounts {
    pub fn new() -> (r: Self)
        ensures
            r@ == Map::<Seq<char>, usize>::empty(),
    {
        StartCounts { list: Vec::new() }
    }

    pub fn get(&self, id: &str) -> (r: Option<usize>)
        ensures
            match r {
                Some(n) => self@.contains_key(id@) && self@[id@] == n,
                None => !self@.contains_key(id@),
            },
    {
        let ghost all = start_pairs(self.list@);
        let mut i: usize = self.list.len();
        while i > 0
            invariant
                i <= self.list@.len(),
                all == start_pairs(self.list@),
                forall|j: int| i <= j < all.len() ==> (#[trigger] all[j]).0 != id@,
            decreases i,
        {
            i = i - 1;
            assert(all[i as int] == (
                self.list@[i as int].task_id@,
                self.list@[i as int].converted,
            ));
            if same_text(self.list[i].task_id.as_str(), id) {
                proof {
                    lemma_last_entry(all, id@, i as int);
                }
                return Some(self.list[i].converted);
            }
        }
        proof {
            lemma_no_entry(all, id@);
        }
        None
    }

    /// Records a count for a task that has none.
    pub fn insert_if_absent(&mut self, id: &str, converted: usize)
        ensures
            final(self)@ == if old(self)@.contains_key(id@) {
                old(self)@
            } else {
                old(self)@.insert(id@, converted)
            },
    {
        if self.get(id).is_none() {
            let ghost before = start_pairs(self.list@);
            self.list.push(StartCount { task_id: id.to_owned(), converted });
            assert(start_pairs(self.list@) =~= before.push((id@, converted)));
            assert(before.push((id@, converted)).drop_last() =~= before);
        }
    }

    pub fn remove(&mut self, id: &str)
        ensures
            final(self)@ == old(self)@.remove(id@),
    {
        let ghost all = start_pairs(self.list@);
        let mut kept: Vec<StartCount> = Vec::new();
        let mut i: usize = 0;
        assert(start_map(start_pairs(kept@)) =~= start_map(all.take(0)).remove(id@));
        while i < self.list.len()
            invariant
                i <= self.list@.len(),
                all == start_pairs(self.list@),
                start_map(start_pairs(kept@)) == start_map(all.take(i as int)).remove(id@),
            decreases self.list@.len() - i,
        {
            let ghost entry = all[i as int];
            assert(entry == (self.list@[i as int].task_id@, self.list@[i as int].converted));
            assert(all.take(i + 1).drop_last() =~= all.take(i as int));
            let ghost before = start_pairs(kept@);
            if !same_text(self.list[i].task_id.as_str(), id) {
                kept.push(
                    StartCount {
                        task_id: self.list[i].task_id.clone(),
                        converted: self.list[i].converted,
                    },
                );
                assert(start_pairs(kept@) =~= before.push(entry));
                assert(before.push(entry).drop_last() =~= before);
            }
            assert(start_map(start_pairs(kept@)) =~= start_map(all.take(i + 1)).remove(id@));
            i = i + 1;
        }
        assert(all.take(i as int) =~= all);
        self.list = kept;
    }

    pub fn clear(&mut self)
        ensures
            final(self)@ == Map::<Seq<char>, usize>::empty(),
    {
        self.list = Vec::new();
    }
}

} // verus!
