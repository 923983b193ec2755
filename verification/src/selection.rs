//! Which items of a list are selected, and moving an item to another place in its list.

use crate::queue::moved;
use crate::text::{copy_opt, list_contains, opt_text, same_text, texts};
use vstd::prelude::*;

verus! {

/// The keys held during a click.
#[derive(Debug, Clone, Copy, PartialEq, Eq, Structural)]
pub struct Modifiers {
    pub shift: bool,
    pub command: bool,
}

/// The selected items of a list.
#[derive(Debug, PartialEq, Eq)]
pub struct Selection {
    /// The item whose details are shown.
    pub primary: Option<String>,
    pub ids: Vec<String>,
    /// Where a range of items starts.
    pub anchor: Option<String>,
}

/// The contents of a `Selection`.
#[verifier::ext_equal]
pub struct SelectionView {
    pub primary: Option<Seq<char>>,
    pub ids: Set<Seq<char>>,
    pub anchor: Option<Seq<char>>,
}

impl View for Selection {
    type V = SelectionView;

    open spec fn view(&self) -> SelectionView {
        SelectionView {
            primary: opt_text(self.primary),
            ids: texts(self.ids@).to_set(),
            anchor: opt_text(self.anchor),
        }
    }
}

impl Clone for Selection {
    fn clone(&self) -> (r: Self)
        ensures
            r@ == self@,
    {
        Selection {
            primary: copy_opt(&self.primary),
            ids: crate::text::copy_list(&self.ids),
            anchor: copy_opt(&self.anchor),
        }
    }
}

/// The item stands first at `i`.
pub open spec fn first_at(items: Seq<Seq<char>>, item: Seq<char>, i: int) -> bool {
    0 <= i < items.len() && items[i] == item && forall|j: int| 0 <= j < i ==> items[j] != item
}

/// Where the item first stands.
pub open spec fn place_of(items: Seq<Seq<char>>, item: Seq<char>) -> int {
    choose|i: int| first_at(items, item, i)
}

pub proof fn lemma_place_is_unique(items: Seq<Seq<char>>, item: Seq<char>, i: int)
    requires
        first_at(items, item, i),
    ensures
        place_of(items, item) == i,
        items.contains(item),
{
    let k = place_of(items, item);
    assert(first_at(items, item, k));
    if k < i {
        assert(items[k] != item);
    }
    if i < k {
        assert(items[i] != item);
    }
}

/// Where the item first stands in the list.
pub fn find_place(items: &Vec<String>, item: &str) -> (r: Option<usize>)
    ensures
        match r {
            Some(i) => first_at(texts(items@), item@, i as int) && place_of(texts(items@), item@) == i,
            None => !texts(items@).contains(item@),
        },
{
    let ghost all = texts(items@);
    let mut i: usize = 0;
    while i < items.len()
        invariant
            i <= items@.len(),
            all == texts(items@),
            forall|j: int| 0 <= j < i ==> all[j] != item@,
        decreases items@.len() - i,
    {
        assert(all[i as int] == items@[i as int]@);
        if same_text(items[i].as_str(), item) {
            proof {
                lemma_place_is_unique(all, item@, i as int);
            }
            return Some(i);
        }
        i = i + 1;
    }
    None
}

/// The items from one place to another, whichever comes first.
pub open spec fn between(items: Seq<Seq<char>>, a: int, b: int) -> Set<Seq<char>> {
    Set::new(
        |x: Seq<char>|
            exists|i: int|
                0 <= i < items.len() && #[trigger] items[i] == x && (a <= i <= b || b <= i <= a),
    )
}

/// The first item of the list that is in the set.
pub open spec fn first_in(items: Seq<Seq<char>>, set: Set<Seq<char>>) -> Option<Seq<char>>
    decreases items.len(),
{
    if items.len() == 0 {
        None
    } else if set.contains(items[0]) {
        Some(items[0])
    } else {
        first_in(items.drop_first(), set)
    }
}

/// The selection after a click. With shift held it reaches from the anchor to the clicked item; with
/// the command key held the clicked item is added or taken away; otherwise it alone is selected.
pub open spec fn extended(
    s: SelectionView,
    items: Seq<Seq<char>>,
    id: Seq<char>,
    modifiers: Modifiers,
) -> SelectionView {
    if modifiers.shift && s.anchor is Some && items.contains(s.anchor->0) && items.contains(id) {
        let range = between(items, place_of(items, s.anchor->0), place_of(items, id));
        SelectionView {
            primary: Some(id),
            ids: if modifiers.command {
                s.ids.union(range)
            } else {
                range
            },
            anchor: s.anchor,
        }
    } else if modifiers.command {
        if s.ids.contains(id) {
            SelectionView {
                primary: if s.primary == Some(id) {
                    first_in(items, s.ids.remove(id))
                } else {
                    s.primary
                },
                ids: s.ids.remove(id),
                anchor: Some(id),
            }
        } else {
            SelectionView { primary: Some(id), ids: s.ids.insert(id), anchor: Some(id) }
        }
    } else {
        only(Some(id))
    }
}

/// Only this item is selected, or none.
pub open spec fn only(id: Option<Seq<char>>) -> SelectionView {
    SelectionView {
        primary: id,
        ids: match id {
            Some(id) => set![id],
            None => Set::empty(),
        },
        anchor: id,
    }
}

fn without(list: &Vec<String>, id: &str) -> (r: Vec<String>)
    ensures
        texts(r@).to_set() == texts(list@).to_set().remove(id@),
{
    let ghost all = texts(list@);
    let mut r: Vec<String> = Vec::new();
    let mut i: usize = 0;
    while i < list.len()
        invariant
            i <= list@.len(),
            all == texts(list@),
            forall|x: Seq<char>|
                #![trigger texts(r@).contains(x)]
                texts(r@).contains(x) <==> (all.take(i as int).contains(x) && x != id@),
        decreases list@.len() - i,
    {
        let ghost before = texts(r@);
        let ghost item = list@[i as int]@;
        assert(all.take(i + 1) =~= all.take(i as int).push(item));
        if !same_text(list[i].as_str(), id) {
            r.push(list[i].clone());
            assert(texts(r@) =~= before.push(item));
            assert forall|x: Seq<char>| #![trigger texts(r@).contains(x)]
                texts(r@).contains(x) <==> (all.take(i + 1).contains(x) && x != id@) by {
                crate::targets::lemma_contains_concat(before, seq![item], x);
                crate::targets::lemma_contains_concat(all.take(i as int), seq![item], x);
                assert(before + seq![item] =~= texts(r@));
                assert(all.take(i as int) + seq![item] =~= all.take(i + 1));
                assert(seq![item].contains(x) <==> x == item) by {
                    if x == item {
                        assert(seq![item][0] == x);
                    }
                }
            }
        } else {
            assert forall|x: Seq<char>| #![trigger texts(r@).contains(x)]
                texts(r@).contains(x) <==> (all.take(i + 1).contains(x) && x != id@) by {
                crate::targets::lemma_contains_concat(all.take(i as int), seq![item], x);
                assert(all.take(i as int) + seq![item] =~= all.take(i + 1));
                assert(seq![item].contains(x) <==> x == item) by {
                    if x == item {
                        assert(seq![item][0] == x);
                    }
                }
            }
        }
        i = i + 1;
    }
    assert(all.take(i as int) =~= all);
    assert(texts(r@).to_set() =~= all.to_set().remove(id@)) by {
        assert forall|x: Seq<char>|
            texts(r@).to_set().contains(x) <==> all.to_set().remove(id@).contains(x) by {
            assert(texts(r@).contains(x) <==> (all.contains(x) && x != id@));
        }
    }
    r
}

fn first_selected(items: &Vec<String>, ids: &Vec<String>) -> (r: Option<String>)
    ensures
        opt_text(r) == first_in(texts(items@), texts(ids@).to_set()),
{
    let ghost all = texts(items@);
    let ghost set = texts(ids@).to_set();
    let mut i: usize = 0;
    assert(all.skip(0) =~= all);
    while i < items.len()
        invariant
            i <= items@.len(),
            all == texts(items@),
            set == texts(ids@).to_set(),
            first_in(all, set) == first_in(all.skip(i as int), set),
        decreases items@.len() - i,
    {
        assert(all.skip(i as int)[0] == items@[i as int]@);
        assert(all.skip(i as int).drop_first() =~= all.skip(i + 1));
        if list_contains(ids, items[i].as_str()) {
            return Some(items[i].clone());
        }
        i = i + 1;
    }
    None
}

/// Adds a range of items to a list.
fn add_range(ids: &mut Vec<String>, items: &Vec<String>, from: usize, to: usize)
    requires
        from <= to < items@.len(),
    ensures
        texts(final(ids)@).to_set() == texts(old(ids)@).to_set().union(
            between(texts(items@), from as int, to as int),
        ),
{
    let ghost all = texts(items@);
    let ghost start = texts(ids@);
    let n: usize = items.len();
    let mut i: usize = from;
    assert(all.subrange(from as int, from as int) =~= Seq::<Seq<char>>::empty());
    assert(texts(ids@) =~= start + all.subrange(from as int, from as int));
    while i <= to
        invariant
            from <= i <= to + 1,
            to < n,
            n == items@.len(),
            all == texts(items@),
            texts(ids@) == start + all.subrange(from as int, i as int),
        decreases to + 1 - i,
    {
        let ghost before = texts(ids@);
        ids.push(items[i].clone());
        assert(texts(ids@) =~= before.push(all[i as int]));
        assert(all.subrange(from as int, i + 1) =~= all.subrange(from as int, i as int).push(
            all[i as int],
        ));
        assert(texts(ids@) =~= start + all.subrange(from as int, i + 1));
        i = i + 1;
    }
    proof {
        let part = all.subrange(from as int, to + 1);
        let range = between(all, from as int, to as int);
        assert forall|x: Seq<char>| part.contains(x) <==> range.contains(x) by {
            if part.contains(x) {
                let k = choose|k: int| 0 <= k < part.len() && part[k] == x;
                assert(all[from + k] == x);
            }
            if range.contains(x) {
                let k = choose|k: int|
                    0 <= k < all.len() && #[trigger] all[k] == x && (from <= k <= to || to <= k
                        <= from);
                assert(part[k - from] == x);
            }
        }
        assert(texts(ids@).to_set() =~= start.to_set().union(range)) by {
            assert forall|x: Seq<char>|
                texts(ids@).to_set().contains(x) <==> start.to_set().union(range).contains(x) by {
                crate::targets::lemma_contains_concat(start, part, x);
            }
        }
    }
}

fn one_id(id: &str) -> (r: Vec<String>)
    ensures
        texts(r@).to_set() == set![id@],
{
    let mut ids: Vec<String> = Vec::new();
    ids.push(id.to_owned());
    proof {
        assert(texts(ids@) =~= seq![id@]);
        assert(seq![id@].to_set() =~= set![id@]) by {
            assert(seq![id@][0] == id@);
        }
    }
    ids
}

impl Selection {
    pub fn new() -> (r: Self)
        ensures
            r@ == only(None),
    {
        let ids: Vec<String> = Vec::new();
        assert(texts(ids@).to_set() =~= Set::<Seq<char>>::empty());
        Selection { primary: None, ids, anchor: None }
    }

    /// Selects one item alone, or none.
    pub fn select_only(&mut self, id: Option<String>)
        ensures
            final(self)@ == only(opt_text(id)),
    {
        match &id {
            Some(text) => {
                self.ids = one_id(text.as_str());
            },
            None => {
                self.ids = Vec::new();
                assert(texts(self.ids@).to_set() =~= Set::<Seq<char>>::empty());
            },
        }
        self.primary = copy_opt(&id);
        self.anchor = id;
    }

    pub fn contains(&self, id: &str) -> (r: bool)
        ensures
            r == self@.ids.contains(id@),
    {
        list_contains(&self.ids, id)
    }

    /// The selected items, in the order of the list.
    pub fn selected_in(&self, items: &Vec<String>) -> (r: Vec<String>)
        ensures
            texts(r@) == texts(items@).filter(is_in(self@.ids)),
    {
        let ghost all = texts(items@);
        let ghost wanted = is_in(self@.ids);
        let mut r: Vec<String> = Vec::new();
        let mut i: usize = 0;
        assert(all.take(0) =~= Seq::<Seq<char>>::empty());
        assert(texts(r@) =~= all.take(0).filter(wanted)) by {
            reveal(Seq::filter);
        }
        while i < items.len()
            invariant
                i <= items@.len(),
                all == texts(items@),
                wanted == is_in(self@.ids),
                texts(r@) == all.take(i as int).filter(wanted),
            decreases items@.len() - i,
        {
            let ghost item = items@[i as int]@;
            assert(all.take(i + 1).drop_last() =~= all.take(i as int));
            assert(all.take(i + 1).last() == item);
            let ghost before = texts(r@);
            if self.contains(items[i].as_str()) {
                r.push(items[i].clone());
                assert(texts(r@) =~= before.push(item));
            }
            assert(texts(r@) =~= all.take(i + 1).filter(wanted)) by {
                reveal(Seq::filter);
            }
            i = i + 1;
        }
        assert(all.take(i as int) =~= all);
        r
    }
}

pub open spec fn is_in(set: Set<Seq<char>>) -> spec_fn(Seq<char>) -> bool {
    |x: Seq<char>| set.contains(x)
}

/// Changes a selection by a click on one of the listed items.
pub fn update_extended_selection(
    task_ids: &Vec<String>,
    id: String,
    modifiers: Modifiers,
    selection: &mut Selection,
)
    ensures
        final(selection)@ == extended(old(selection)@, texts(task_ids@), id@, modifiers),
{
    let ghost start = selection@;
    let ghost items = texts(task_ids@);
    if modifiers.shift {
        if let Some(anchor) = copy_opt(&selection.anchor) {
            let from = find_place(task_ids, anchor.as_str());
            let to = find_place(task_ids, id.as_str());
            if let (Some(a), Some(b)) = (from, to) {
                if !modifiers.command {
                    selection.ids = Vec::new();
                    assert(texts(selection.ids@).to_set() =~= Set::<Seq<char>>::empty());
                }
                let ghost kept = texts(selection.ids@).to_set();
                if a <= b {
                    add_range(&mut selection.ids, task_ids, a, b);
                } else {
                    add_range(&mut selection.ids, task_ids, b, a);
                    assert(between(items, a as int, b as int) =~= between(items, b as int, a as int));
                }
                assert(Set::<Seq<char>>::empty().union(between(items, a as int, b as int))
                    =~= between(items, a as int, b as int));
                selection.primary = Some(id);
                return;
            }
        }
    }
    if modifiers.command {
        if selection.contains(id.as_str()) {
            let rest = without(&selection.ids, id.as_str());
            selection.ids = rest;
            let was_primary = match &selection.primary {
                Some(primary) => same_text(primary.as_str(), id.as_str()),
                None => false,
            };
            if was_primary {
                selection.primary = first_selected(task_ids, &selection.ids);
            }
        } else {
            let ghost before = texts(selection.ids@);
            selection.ids.push(id.clone());
            assert(texts(selection.ids@) =~= before.push(id@));
            assert(texts(selection.ids@).to_set() =~= before.to_set().insert(id@)) by {
                assert forall|x: Seq<char>|
                    texts(selection.ids@).to_set().contains(x) <==> before.to_set().insert(
                        id@,
                    ).contains(x) by {
                    crate::targets::lemma_contains_concat(before, seq![id@], x);
                    assert(before + seq![id@] =~= texts(selection.ids@));
                    assert(seq![id@].contains(x) <==> x == id@) by {
                        if x == id@ {
                            assert(seq![id@][0] == x);
                        }
                    }
                }
            }
            selection.primary = Some(id.clone());
        }
        selection.anchor = Some(id);
        return;
    }
    selection.select_only(Some(id));
}

/// Where an item ends up that is moved to the gap before the item at `insertion`.
pub open spec fn landing(source: int, insertion: int) -> int {
    if source < insertion {
        insertion - 1
    } else {
        insertion
    }
}

/// Moves an item to the gap before the item at `insertion`, and says where it then stands.
pub fn move_item_to_insertion<T>(items: &mut Vec<T>, source: usize, insertion: usize) -> (r: Option<
    usize,
>)
    ensures
        match r {
            Some(at) => source < old(items)@.len() && insertion <= old(items)@.len() && at == landing(
                source as int,
                insertion as int,
            ) && final(items)@ == moved(old(items)@, source as int, at as int),
            None => (source >= old(items)@.len() || insertion > old(items)@.len()) && final(items)@
                == old(items)@,
        },
{
    if source >= items.len() || insertion > items.len() {
        return None;
    }
    let item = items.remove(source);
    let destination: usize = if source < insertion {
        insertion - 1
    } else {
        insertion
    };
    items.insert(destination, item);
    Some(destination)
}

/// Moving an item keeps every item, puts it where it was asked for, and leaves the others in their
/// order.
pub proof fn law_moving_keeps_every_item<T>(items: Seq<T>, source: int, insertion: int)
    requires
        0 <= source < items.len(),
        0 <= insertion <= items.len(),
    ensures
        moved(items, source, landing(source, insertion)).to_multiset() == items.to_multiset(),
        moved(items, source, landing(source, insertion))[landing(source, insertion)]
            == items[source],
        moved(items, source, landing(source, insertion)).remove(landing(source, insertion))
            == items.remove(source),
        insertion == source || insertion == source + 1 ==> moved(
            items,
            source,
            landing(source, insertion),
        ) == items,
{
    let to = landing(source, insertion);
    crate::queue::lemma_moved_permutes(items, source, to);
    let rest = items.remove(source);
    assert(moved(items, source, to) =~= rest.insert(to, items[source]));
    assert(rest.insert(to, items[source]).remove(to) =~= rest);
    if insertion == source || insertion == source + 1 {
        assert(moved(items, source, to) =~= items);
    }
}

/// A click without keys selects the clicked item alone; the same click with the command key takes it
/// away again.
pub proof fn law_clicks(s: SelectionView, items: Seq<Seq<char>>, id: Seq<char>)
    ensures
        extended(s, items, id, Modifiers { shift: false, command: false }) == only(Some(id)),
        !s.ids.contains(id) ==> extended(
            extended(s, items, id, Modifiers { shift: false, command: true }),
            items,
            id,
            Modifiers { shift: false, command: true },
        ).ids == s.ids,
        items.contains(id) && s.anchor is Some && items.contains(s.anchor->0) ==> extended(
            s,
            items,
            id,
            Modifiers { shift: true, command: false },
        ).ids.contains(id),
{
    if !s.ids.contains(id) {
        assert(s.ids.insert(id).remove(id) =~= s.ids);
    }
    if items.contains(id) && s.anchor is Some && items.contains(s.anchor->0) {
        lemma_first_exists(items, id);
        assert(items[place_of(items, id)] == id);
    }
}

/// An item of a list has a first place.
pub proof fn lemma_first_exists(items: Seq<Seq<char>>, id: Seq<char>)
    requires
        items.contains(id),
    ensures
        first_at(items, id, place_of(items, id)),
    decreases items.len(),
{
    let rest = items.drop_last();
    if rest.contains(id) {
        lemma_first_exists(rest, id);
        let i = place_of(rest, id);
        assert forall|j: int| 0 <= j < i implies items[j] != id by {
            assert(rest[j] != id);
        }
        assert(first_at(items, id, i));
    } else {
        let k = choose|k: int| 0 <= k < items.len() && items[k] == id;
        if k < items.len() - 1 {
            assert(rest[k] == id);
        }
        assert forall|j: int| 0 <= j < k implies items[j] != id by {
            assert(rest[j] == items[j]);
        }
        assert(first_at(items, id, k));
    }
}

} // verus!
