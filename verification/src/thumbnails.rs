//! Small images that are asked for once and then shown or known to have failed.

use crate::text::{copy_list, same_text, texts};
use vstd::prelude::*;

verus! {

/// What is known of a small image.
#[derive(Debug, Clone, Copy, PartialEq, Eq, Structural)]
pub enum ThumbnailState {
    Requested(u64),
    Shown,
    Failed,
}

/// A small image of one photo, or of the photos of a slide.
#[derive(Debug, PartialEq, Eq)]
pub struct Thumbnail {
    pub paths: Vec<String>,
    pub state: ThumbnailState,
}

pub type ThumbnailMap = Map<Seq<Seq<char>>, ThumbnailState>;

pub open spec fn thumbnail_pair(t: Thumbnail) -> (Seq<Seq<char>>, ThumbnailState) {
    (texts(t.paths@), t.state)
}

pub open spec fn thumbnail_pairs(list: Seq<Thumbnail>) -> Seq<(Seq<Seq<char>>, ThumbnailState)> {
    list.map_values(|t: Thumbnail| thumbnail_pair(t))
}

/// What a list says of each image; the first entry of an image counts.
pub open spec fn listed(list: Seq<(Seq<Seq<char>>, ThumbnailState)>) -> ThumbnailMap
    decreases list.len(),
{
    if list.len() == 0 {
        Map::empty()
    } else {
        let before = listed(list.drop_last());
        if before.contains_key(list.last().0) {
            before
        } else {
            before.insert(list.last().0, list.last().1)
        }
    }
}

/// The small images of a window.
#[derive(Debug, PartialEq, Eq)]
pub struct Thumbnails {
    entries: Vec<Thumbnail>,
}

impl View for Thumbnails {
    type V = ThumbnailMap;

    closed spec fn view(&self) -> ThumbnailMap {
        listed(thumbnail_pairs(self.entries@))
    }
}

spec fn first_for(
    list: Seq<(Seq<Seq<char>>, ThumbnailState)>,
    key: Seq<Seq<char>>,
    i: int,
) -> bool {
    0 <= i < list.len() && list[i].0 == key && forall|j: int|
        0 <= j < i ==> (#[trigger] list[j]).0 != key
}

proof fn lemma_listed_first(
    list: Seq<(Seq<Seq<char>>, ThumbnailState)>,
    key: Seq<Seq<char>>,
    i: int,
)
    requires
        first_for(list, key, i),
    ensures
        listed(list).contains_key(key),
        listed(list)[key] == list[i].1,
    decreases list.len(),
{
    let rest = list.drop_last();
    if i < list.len() - 1 {
        assert forall|j: int| 0 <= j < i implies (#[trigger] rest[j]).0 != key by {
            assert(list[j].0 != key);
        }
        assert(first_for(rest, key, i));
        lemma_listed_first(rest, key, i);
    } else {
        assert forall|j: int| 0 <= j < rest.len() implies (#[trigger] rest[j]).0 != key by {
            assert(list[j].0 != key);
        }
        lemma_not_listed(rest, key);
    }
}

proof fn lemma_not_listed(list: Seq<(Seq<Seq<char>>, ThumbnailState)>, key: Seq<Seq<char>>)
    requires
        forall|j: int| 0 <= j < list.len() ==> (#[trigger] list[j]).0 != key,
    ensures
        !listed(list).contains_key(key),
    decreases list.len(),
{
    if list.len() > 0 {
        let rest = list.drop_last();
        assert forall|j: int| 0 <= j < rest.len() implies (#[trigger] rest[j]).0 != key by {
            assert(list[j].0 != key);
        }
        lemma_not_listed(rest, key);
        assert(list[list.len() - 1].0 != key);
    }
}

proof fn lemma_listed_update(
    list: Seq<(Seq<Seq<char>>, ThumbnailState)>,
    key: Seq<Seq<char>>,
    i: int,
    state: ThumbnailState,
)
    requires
        first_for(list, key, i),
    ensures
        listed(list.update(i, (key, state))) == listed(list).insert(key, state),
    decreases list.len(),
{
    let changed = list.update(i, (key, state));
    let rest = list.drop_last();
    if i < list.len() - 1 {
        assert forall|j: int| 0 <= j < i implies (#[trigger] rest[j]).0 != key by {
            assert(list[j].0 != key);
        }
        assert(first_for(rest, key, i));
        lemma_listed_update(rest, key, i, state);
        lemma_listed_first(rest, key, i);
        assert(changed.drop_last() =~= rest.update(i, (key, state)));
        assert(changed.last() == list.last());
        assert(listed(changed) =~= listed(list).insert(key, state));
    } else {
        assert forall|j: int| 0 <= j < rest.len() implies (#[trigger] rest[j]).0 != key by {
            assert(list[j].0 != key);
        }
        lemma_not_listed(rest, key);
        assert(changed.drop_last() =~= rest);
        assert(listed(changed) =~= listed(list).insert(key, state));
    }
}

/// Whether two lists hold the same texts in the same order.
pub fn same_texts(a: &Vec<String>, b: &Vec<String>) -> (r: bool)
    ensures
        r == (texts(a@) == texts(b@)),
{
    if a.len() != b.len() {
        assert(texts(a@).len() != texts(b@).len());
        return false;
    }
    let mut i: usize = 0;
    while i < a.len()
        invariant
            i <= a@.len(),
            a@.len() == b@.len(),
            forall|j: int| 0 <= j < i ==> texts(a@)[j] == texts(b@)[j],
        decreases a@.len() - i,
    {
        if !same_text(a[i].as_str(), b[i].as_str()) {
            assert(texts(a@)[i as int] != texts(b@)[i as int]);
            return false;
        }
        i = i + 1;
    }
    assert(texts(a@) =~= texts(b@));
    true
}

impl Thumbnails {
    pub fn new() -> (r: Self)
        ensures
            r@ == Map::<Seq<Seq<char>>, ThumbnailState>::empty(),
    {
        Thumbnails { entries: Vec::new() }
    }

    fn find(&self, paths: &Vec<String>) -> (r: Option<usize>)
        ensures
            match r {
                Some(i) => first_for(thumbnail_pairs(self.entries@), texts(paths@), i as int),
                None => forall|j: int|
                    0 <= j < self.entries@.len() ==> (#[trigger] thumbnail_pairs(
                        self.entries@,
                    )[j]).0 != texts(paths@),
            },
    {
        let ghost all = thumbnail_pairs(self.entries@);
        let mut i: usize = 0;
        while i < self.entries.len()
            invariant
                i <= self.entries@.len(),
                all == thumbnail_pairs(self.entries@),
                forall|j: int| 0 <= j < i ==> (#[trigger] all[j]).0 != texts(paths@),
            decreases self.entries@.len() - i,
        {
            assert(all[i as int] == thumbnail_pair(self.entries@[i as int]));
            if same_texts(&self.entries[i].paths, paths) {
                return Some(i);
            }
            i = i + 1;
        }
        None
    }

    /// What is known of an image.
    pub fn state_of(&self, paths: &Vec<String>) -> (r: Option<ThumbnailState>)
        ensures
            match r {
                Some(state) => self@.contains_key(texts(paths@)) && self@[texts(paths@)] == state,
                None => !self@.contains_key(texts(paths@)),
            },
    {
        match self.find(paths) {
            Some(i) => {
                proof {
                    lemma_listed_first(thumbnail_pairs(self.entries@), texts(paths@), i as int);
                }
                Some(self.entries[i].state)
            },
            None => {
                proof {
                    lemma_not_listed(thumbnail_pairs(self.entries@), texts(paths@));
                }
                None
            },
        }
    }

    pub fn set(&mut self, paths: &Vec<String>, state: ThumbnailState)
        ensures
            final(self)@ == old(self)@.insert(texts(paths@), state),
    {
        let ghost before = thumbnail_pairs(self.entries@);
        let ghost key = texts(paths@);
        match self.find(paths) {
            Some(i) => {
                proof {
                    lemma_listed_update(before, key, i as int, state);
                }
                let entry = Thumbnail { paths: copy_list(paths), state };
                self.entries.set(i, entry);
                assert(thumbnail_pairs(self.entries@) =~= before.update(i as int, (key, state)));
            },
            None => {
                proof {
                    lemma_not_listed(before, key);
                }
                let entry = Thumbnail { paths: copy_list(paths), state };
                self.entries.push(entry);
                assert(thumbnail_pairs(self.entries@) =~= before.push((key, state)));
                assert(before.push((key, state)).drop_last() =~= before);
            },
        }
    }

    pub fn clear(&mut self)
        ensures
            final(self)@ == Map::<Seq<Seq<char>>, ThumbnailState>::empty(),
    {
        self.entries = Vec::new();
    }
}

} // verus!
