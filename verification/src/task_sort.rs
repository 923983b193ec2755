//! The files of a task in the order of a column of their table.

use crate::natural::{
    key_views, law_sorting_keeps_every_item, lemma_sorted_is_picked, part_views, sorted_by_keys,
    stable_order, NaturalPart, PartView,
};
use crate::task_files::{pick_files, task_file_views, FileView, SlintTaskFileSnapshot};
use crate::text::{
    parse_unsigned, parsed_unsigned, same_text, split_on, split_text, texts, unicode_lower,
    unicode_lowercase,
};
use vstd::prelude::*;

verus! {

/// The column by which the files are sorted, and which way.
#[derive(Debug, Clone, Copy, PartialEq, Eq, Structural)]
pub struct TaskFileSort {
    pub column: usize,
    pub descending: bool,
}

impl Default for TaskFileSort {
    fn default() -> (r: Self)
        ensures
            r == (TaskFileSort { column: 0, descending: false }),
    {
        TaskFileSort { column: 0, descending: false }
    }
}

/// The text of a file in a column; nothing in the column of the paths and outside the table.
pub open spec fn cell(f: FileView, column: nat) -> Seq<char> {
    if column == 1 {
        f.status
    } else if column == 2 {
        f.started_time
    } else if column == 3 {
        f.completed_time
    } else if column == 4 {
        f.conversion_time
    } else if column == 5 {
        f.original_size
    } else if column == 6 {
        f.new_size
    } else if column == 7 {
        f.original_fps
    } else if column == 8 {
        f.new_fps
    } else if column == 9 {
        f.codec
    } else if column == 10 {
        f.duration
    } else {
        Seq::empty()
    }
}

/// The text of a file in a column.
pub fn task_file_cell(file: &SlintTaskFileSnapshot, column: usize) -> (r: String)
    ensures
        r@ == cell(file@, column as nat),
{
    match column {
        1 => file.status.clone(),
        2 => file.started_time.clone(),
        3 => file.completed_time.clone(),
        4 => file.conversion_time.clone(),
        5 => file.original_size.clone(),
        6 => file.new_size.clone(),
        7 => file.original_fps.clone(),
        8 => file.new_fps.clone(),
        9 => file.codec.clone(),
        10 => file.duration.clone(),
        _ => {
            let none = String::new();
            assert(none@ =~= Seq::<char>::empty());
            none
        },
    }
}

/// Whether a column holds numbers.
pub open spec fn holds_numbers(column: nat) -> bool {
    4 <= column <= 8
}

/// The seconds of a time of which some parts are read: each part counts sixty times the next.
pub open spec fn seconds_of(parts: Seq<Seq<char>>) -> Option<nat>
    decreases parts.len(),
{
    if parts.len() == 0 {
        Some(0)
    } else {
        match (seconds_of(parts.drop_last()), parsed_unsigned(parts.last(), u64::MAX as nat)) {
            (Some(total), Some(part)) => if total * 60 + part <= u64::MAX {
                Some(total * 60 + part)
            } else {
                None
            },
            _ => None,
        }
    }
}

/// The seconds of a time written with colons.
pub open spec fn duration_seconds(value: Seq<char>) -> Option<nat> {
    seconds_of(split_text(value, ':'))
}

pub fn task_file_duration_seconds(value: &str) -> (r: Option<u64>)
    ensures
        match r {
            Some(n) => duration_seconds(value@) == Some(n as nat),
            None => duration_seconds(value@) is None,
        },
{
    let parts = split_on(value, ':');
    let ghost all = texts(parts@);
    let mut total: Option<u64> = Some(0);
    let mut i: usize = 0;
    while i < parts.len()
        invariant
            i <= parts@.len(),
            all == texts(parts@),
            match total {
                Some(n) => seconds_of(all.take(i as int)) == Some(n as nat),
                None => seconds_of(all.take(i as int)) is None,
            },
        decreases parts@.len() - i,
    {
        assert(all.take(i + 1).drop_last() =~= all.take(i as int));
        assert(all.take(i + 1).last() == parts@[i as int]@);
        total =
        match (total, parse_unsigned(parts[i].as_str(), 18_446_744_073_709_551_615)) {
            (Some(sum), Some(part)) => {
                let next: u128 = sum as u128 * 60 + part;
                if next <= 18_446_744_073_709_551_615 {
                    Some(next as u64)
                } else {
                    None
                }
            },
            _ => None,
        };
        i = i + 1;
    }
    assert(all.take(i as int) =~= all);
    total
}

/// The place of a number among all numbers, by the bits of its double-precision form: numbers below
/// zero in the reverse order of their bits, then the others in the order of theirs.
pub open spec fn number_place(bits: nat) -> nat {
    if bits >= 0x8000_0000_0000_0000 {
        (0xffff_ffff_ffff_ffff - bits) as nat
    } else {
        bits + 0x8000_0000_0000_0000
    }
}

/// A key after the keys of everything that has a value.
pub open spec fn last_key() -> Seq<PartView> {
    seq![PartView::Number(1, 0)]
}

pub open spec fn number_key(n: nat) -> Seq<PartView> {
    seq![PartView::Number(0, 0), PartView::Number(n, 0)]
}

/// The key of a file in a column: texts without regard to case, numbers and times by their value,
/// and what has none behind the rest.
pub open spec fn sort_key(f: FileView, column: nat, number: Option<u64>) -> Seq<PartView> {
    if holds_numbers(column) {
        match number {
            Some(bits) => number_key(number_place(bits as nat)),
            None => last_key(),
        }
    } else if column == 10 {
        match duration_seconds(f.duration) {
            Some(n) => number_key(n),
            None => last_key(),
        }
    } else if cell(f, column) == "-"@ {
        last_key()
    } else {
        seq![PartView::Number(0, 0), PartView::Text(unicode_lower(cell(f, column)))]
    }
}

/// The number of a file, where one is listed.
pub open spec fn number_at(numbers: Seq<Option<u64>>, i: int) -> Option<u64> {
    if 0 <= i < numbers.len() {
        numbers[i]
    } else {
        None
    }
}

pub open spec fn sort_keys(files: Seq<FileView>, column: nat, numbers: Seq<Option<u64>>) -> Seq<
    Seq<PartView>,
> {
    Seq::new(files.len(), |i: int| sort_key(files[i], column, number_at(numbers, i)))
}

/// The files in ascending order of a column.
pub open spec fn ascending(files: Seq<FileView>, column: nat, numbers: Seq<Option<u64>>) -> Seq<
    FileView,
> {
    sorted_by_keys(files, sort_keys(files, column, numbers))
}

/// The numbers of the files that stand in reverse order.
pub open spec fn numbers_reversed(numbers: Seq<Option<u64>>, n: nat) -> Seq<Option<u64>> {
    Seq::new(n, |i: int| number_at(numbers, n - 1 - i))
}

/// The files in the order of a column; files that are equal there stay in their order, also where
/// the order descends. The column of the paths has the order that the files come in.
pub open spec fn in_order(files: Seq<FileView>, sort: TaskFileSort, numbers: Seq<Option<u64>>) -> Seq<
    FileView,
> {
    if sort.column == 0 {
        if sort.descending {
            files.reverse()
        } else {
            files
        }
    } else if sort.column > 10 {
        files
    } else if sort.descending {
        ascending(
            files.reverse(),
            sort.column as nat,
            numbers_reversed(numbers, files.len()),
        ).reverse()
    } else {
        ascending(files, sort.column as nat, numbers)
    }
}

fn number_rank(bits: u64) -> (r: u64)
    ensures
        r == number_place(bits as nat),
{
    if bits >= 0x8000_0000_0000_0000 {
        0xffff_ffff_ffff_ffff - bits
    } else {
        bits + 0x8000_0000_0000_0000
    }
}

fn key_at_end() -> (r: Vec<NaturalPart>)
    ensures
        part_views(r@) == last_key(),
{
    let mut r: Vec<NaturalPart> = Vec::new();
    r.push(NaturalPart::Number(1, 0));
    assert(part_views(r@) =~= last_key());
    r
}

fn key_of_number(n: u64) -> (r: Vec<NaturalPart>)
    ensures
        part_views(r@) == number_key(n as nat),
{
    let mut r: Vec<NaturalPart> = Vec::new();
    r.push(NaturalPart::Number(0, 0));
    r.push(NaturalPart::Number(n as u128, 0));
    assert(part_views(r@) =~= number_key(n as nat));
    r
}

fn task_file_key(file: &SlintTaskFileSnapshot, column: usize, number: Option<u64>) -> (r: Vec<
    NaturalPart,
>)
    ensures
        part_views(r@) == sort_key(file@, column as nat, number),
{
    if 4 <= column && column <= 8 {
        return match number {
            Some(bits) => key_of_number(number_rank(bits)),
            None => key_at_end(),
        };
    }
    if column == 10 {
        return match task_file_duration_seconds(file.duration.as_str()) {
            Some(n) => key_of_number(n),
            None => key_at_end(),
        };
    }
    let text = task_file_cell(file, column);
    if same_text(text.as_str(), "-") {
        return key_at_end();
    }
    let mut r: Vec<NaturalPart> = Vec::new();
    r.push(NaturalPart::Number(0, 0));
    r.push(NaturalPart::Text(unicode_lowercase(text.as_str())));
    assert(part_views(r@) =~= sort_key(file@, column as nat, number));
    r
}

fn listed_number(numbers: &Vec<Option<u64>>, i: usize) -> (r: Option<u64>)
    ensures
        r == number_at(numbers@, i as int),
{
    if i < numbers.len() {
        numbers[i]
    } else {
        None
    }
}

fn files_ascending(files: &Vec<SlintTaskFileSnapshot>, column: usize, numbers: &Vec<Option<u64>>) -> (r: Vec<
    SlintTaskFileSnapshot,
>)
    ensures
        task_file_views(r@) == ascending(task_file_views(files@), column as nat, numbers@),
        task_file_views(r@).to_multiset() == task_file_views(files@).to_multiset(),
{
    let ghost views = task_file_views(files@);
    let ghost wanted = sort_keys(views, column as nat, numbers@);
    let mut keys: Vec<Vec<NaturalPart>> = Vec::new();
    let mut i: usize = 0;
    while i < files.len()
        invariant
            i <= files@.len(),
            views == task_file_views(files@),
            wanted == sort_keys(views, column as nat, numbers@),
            key_views(keys@) == wanted.take(i as int),
        decreases files@.len() - i,
    {
        let ghost before = key_views(keys@);
        assert(views[i as int] == files@[i as int]@);
        keys.push(task_file_key(&files[i], column, listed_number(numbers, i)));
        assert(key_views(keys@) =~= before.push(wanted[i as int]));
        i = i + 1;
        assert(key_views(keys@) =~= wanted.take(i as int));
    }
    assert(key_views(keys@) =~= wanted);
    let order = stable_order(&keys);
    let r = pick_files(files, &order);
    proof {
        lemma_sorted_is_picked(task_file_views(r@), views, wanted, order@);
        law_sorting_keeps_every_item(task_file_views(r@), views, wanted);
    }
    r
}

fn files_reversed(files: &Vec<SlintTaskFileSnapshot>) -> (r: Vec<SlintTaskFileSnapshot>)
    ensures
        task_file_views(r@) == task_file_views(files@).reverse(),
        task_file_views(r@).to_multiset() == task_file_views(files@).to_multiset(),
{
    let ghost all = task_file_views(files@).reverse();
    let n: usize = files.len();
    let mut r: Vec<SlintTaskFileSnapshot> = Vec::new();
    let mut i: usize = 0;
    while i < n
        invariant
            i <= n,
            n == files@.len(),
            all == task_file_views(files@).reverse(),
            task_file_views(r@) == all.take(i as int),
        decreases n - i,
    {
        let ghost before = task_file_views(r@);
        r.push(files[n - 1 - i].clone());
        assert(task_file_views(r@) =~= before.push(all[i as int]));
        i = i + 1;
        assert(task_file_views(r@) =~= all.take(i as int));
    }
    assert(all.take(n as int) =~= all);
    proof {
        lemma_reverse_keeps_items(task_file_views(files@));
    }
    r
}

proof fn lemma_reverse_keeps_items<A>(s: Seq<A>)
    ensures
        s.reverse().to_multiset() == s.to_multiset(),
    decreases s.len(),
{
    broadcast use vstd::seq_lib::group_to_multiset_ensures;

    if s.len() > 0 {
        let rest = s.drop_last();
        lemma_reverse_keeps_items(rest);
        assert(s =~= rest.push(s.last()));
        assert(s.reverse() =~= seq![s.last()] + rest.reverse());
        vstd::seq_lib::lemma_multiset_commutative(seq![s.last()], rest.reverse());
        assert(seq![s.last()] =~= Seq::<A>::empty().push(s.last()));
        assert(s.reverse().to_multiset() =~= s.to_multiset());
    } else {
        assert(s.reverse() =~= s);
    }
}

fn reverse_numbers(numbers: &Vec<Option<u64>>, n: usize) -> (r: Vec<Option<u64>>)
    ensures
        r@ == numbers_reversed(numbers@, n as nat),
{
    let mut r: Vec<Option<u64>> = Vec::new();
    let mut i: usize = 0;
    while i < n
        invariant
            i <= n,
            r@ == numbers_reversed(numbers@, n as nat).take(i as int),
        decreases n - i,
    {
        r.push(listed_number(numbers, n - 1 - i));
        i = i + 1;
        assert(r@ =~= numbers_reversed(numbers@, n as nat).take(i as int));
    }
    assert(r@ =~= numbers_reversed(numbers@, n as nat));
    r
}

/// The files in the order of a column.
///
/// `numbers` has, where the column holds numbers, the bits of the double-precision form of each
/// file's number; a file without one comes behind the rest.
pub fn sorted_task_files(
    files: &Vec<SlintTaskFileSnapshot>,
    sort: TaskFileSort,
    numbers: &Vec<Option<u64>>,
) -> (r: Vec<SlintTaskFileSnapshot>)
    ensures
        task_file_views(r@) == in_order(task_file_views(files@), sort, numbers@),
        task_file_views(r@).to_multiset() == task_file_views(files@).to_multiset(),
{
    if sort.column == 0 || sort.column > 10 {
        let back = files_reversed(files);
        if sort.column == 0 && sort.descending {
            return back;
        }
        let r = files_reversed(&back);
        assert(task_file_views(r@) =~= task_file_views(files@));
        return r;
    }
    if sort.descending {
        assert(task_file_views(files@).len() == files@.len());
        let back = files_reversed(files);
        let order = reverse_numbers(numbers, files.len());
        let up = files_ascending(&back, sort.column, &order);
        return files_reversed(&up);
    }
    files_ascending(files, sort.column, numbers)
}

} // verus!
