//! The orders in which files are worked through and listed.

use crate::clock::{short_clock_text, whole_secs};
use crate::natural::{
    compare_keys, compare_parts, compare_texts, full_path_keys, is_stable_order, lemma_keys_same,
    lemma_stable_order_exists, natural_parts, naturally_sorted, part_of_run, photos_sorted, runs,
    slideshow_keys, slideshow_parts, sorted_by_keys, sorted_positions, without_neighbours, Order, PartView,
};
use crate::paths::plain;
use crate::renaming::{depth, depth_key};
use crate::task_files::FileView;
use crate::task_sort::{
    ascending, cell, duration_seconds, in_order, number_at, seconds_of, sort_key, sort_keys,
    TaskFileSort,
};
use crate::text::{
    all_digits, decimal, is_digit, lemma_decimal_round_trip, lemma_padded_two_round_trip,
    lemma_split_append, lemma_split_single, padded_two, parsed_unsigned, unicode_lower,
};
use crate::time::Duration;
use vstd::prelude::*;

verus! {

/// The runs of a text make it up, none is empty, each is of digits or of other characters only, and runs of the
/// two kinds take turns.
pub proof fn law_runs_make_up_the_text(s: Seq<char>)
    ensures
        runs(s).flatten() == s,
        forall|i: int| 0 <= i < runs(s).len() ==> (#[trigger] runs(s)[i]).len() > 0,
        forall|i: int, k: int|
            0 <= i < runs(s).len() && 0 <= k < runs(s)[i].len() ==> is_digit(#[trigger] runs(s)[i][k])
                == is_digit(runs(s)[i].last()),
        forall|i: int, j: int|
            0 <= i && j == i + 1 && j < runs(s).len() ==> is_digit((#[trigger] runs(s)[i]).last())
                != is_digit((#[trigger] runs(s)[j]).last()),
        s.len() > 0 ==> runs(s).len() > 0 && runs(s).last().last() == s.last(),
    decreases s.len(),
{
    if s.len() > 0 {
        let rest = s.drop_last();
        law_runs_make_up_the_text(rest);
        let before = runs(rest);
        let all = runs(s);
        if before.len() > 0 && is_digit(before.last().last()) == is_digit(s.last()) {
            let kept = before.drop_last();
            let grown = before.last().push(s.last());
            kept.lemma_flatten_push(before.last());
            kept.lemma_flatten_push(grown);
            assert(kept.push(before.last()) =~= before);
            assert(all.flatten() =~= rest.push(s.last()));
            assert(rest.push(s.last()) =~= s);
            assert forall|i: int, k: int| 0 <= i < all.len() && 0 <= k < all[i].len() implies is_digit(
                #[trigger] all[i][k],
            ) == is_digit(all[i].last()) by {
                if i < kept.len() {
                    assert(all[i] == before[i]);
                    assert(is_digit(before[i][k]) == is_digit(before[i].last()));
                } else if k < before.last().len() {
                    assert(before[before.len() - 1] == before.last());
                    assert(is_digit(before[before.len() - 1][k]) == is_digit(before.last().last()));
                }
            }
            assert forall|i: int, j: int| 0 <= i && j == i + 1 && j < all.len() implies is_digit(
                (#[trigger] all[i]).last(),
            ) != is_digit((#[trigger] all[j]).last()) by {
                assert(is_digit(before[i].last()) != is_digit(before[j].last()));
            }
        } else {
            before.lemma_flatten_push(seq![s.last()]);
            assert(all.flatten() =~= rest + seq![s.last()]);
            assert(rest + seq![s.last()] =~= s);
            assert forall|i: int, k: int| 0 <= i < all.len() && 0 <= k < all[i].len() implies is_digit(
                #[trigger] all[i][k],
            ) == is_digit(all[i].last()) by {
                if i < before.len() {
                    assert(all[i] == before[i]);
                    assert(is_digit(before[i][k]) == is_digit(before[i].last()));
                }
            }
            assert forall|i: int, j: int| 0 <= i && j == i + 1 && j < all.len() implies is_digit(
                (#[trigger] all[i]).last(),
            ) != is_digit((#[trigger] all[j]).last()) by {
                if j < before.len() {
                    assert(is_digit(before[i].last()) != is_digit(before[j].last()));
                }
            }
        }
    }
}

/// Numbers in names compare by their value, not by their digits, and come before other text.
pub proof fn law_numbers_in_names_compare_by_value(n: nat, m: nat, text: Seq<char>)
    requires
        n < m <= u128::MAX,
        text.len() > 0,
        !is_digit(text.last()),
    ensures
        compare_parts(part_of_run(decimal(n)), part_of_run(decimal(m))) == Order::Less,
        compare_parts(part_of_run(decimal(m)), part_of_run(decimal(n))) == Order::More,
        compare_parts(part_of_run(decimal(n)), part_of_run(text)) == Order::Less,
{
    lemma_decimal_round_trip(n);
    lemma_decimal_round_trip(m);
    assert(is_digit(decimal(n)[decimal(n).len() - 1]));
    assert(is_digit(decimal(m)[decimal(m).len() - 1]));
    assert(parsed_unsigned(decimal(n), u128::MAX as nat) == Some(n));
    assert(parsed_unsigned(decimal(m), u128::MAX as nat) == Some(m));
}

/// The first difference decides between two keys.
pub proof fn law_first_difference_decides(head: Seq<PartView>, a: Seq<PartView>, b: Seq<PartView>)
    requires
        a.len() > 0,
        b.len() > 0,
        compare_parts(a[0], b[0]) != Order::Same,
    ensures
        compare_keys(head + a, head + b) == compare_parts(a[0], b[0]),
    decreases head.len(),
{
    if head.len() == 0 {
        assert(head + a =~= a);
        assert(head + b =~= b);
    } else {
        law_first_difference_decides(head.drop_first(), a, b);
        assert((head + a).drop_first() =~= head.drop_first() + a);
        assert((head + b).drop_first() =~= head.drop_first() + b);
        lemma_keys_same(seq![head[0]], seq![head[0]]);
        assert(compare_keys(seq![head[0]], seq![head[0]]) == Order::Same);
        assert(seq![head[0]].drop_first() =~= Seq::<PartView>::empty());
        assert(compare_parts(head[0], head[0]) == Order::Same);
    }
}

proof fn lemma_sorted_pairs<A>(items: Seq<A>, keys: Seq<Seq<PartView>>, i: int, j: int)
    requires
        items.len() == keys.len(),
        keys.len() <= usize::MAX,
        0 <= i < j < items.len(),
    ensures
        ({
            let order = sorted_positions(keys);
            let out = sorted_by_keys(items, keys);
            &&& out.len() == items.len()
            &&& 0 <= order[i] < items.len() && 0 <= order[j] < items.len()
            &&& out[i] == items[order[i] as int] && out[j] == items[order[j] as int]
            &&& compare_keys(keys[order[i] as int], keys[order[j] as int]) != Order::More
            &&& compare_keys(keys[order[i] as int], keys[order[j] as int]) == Order::Same ==> order[i]
                < order[j]
        }),
{
    lemma_stable_order_exists(keys);
    let order = sorted_positions(keys);
    assert(is_stable_order(order, keys));
    assert(crate::natural::comes_before(keys, order[i] as int, order[j] as int));
}

/// Files are worked through in the natural order of their whole paths.
pub proof fn law_files_are_in_natural_order(paths: Seq<Seq<char>>, i: int, j: int)
    requires
        0 <= i < j < paths.len(),
        paths.len() <= usize::MAX,
    ensures
        naturally_sorted(paths).len() == paths.len(),
        compare_keys(
            natural_parts(naturally_sorted(paths)[i]),
            natural_parts(naturally_sorted(paths)[j]),
        ) != Order::More,
{
    lemma_sorted_pairs(paths, full_path_keys(paths), i, j);
}

/// Photos are shown in the natural order of their names, and of their paths where the names are equal.
pub proof fn law_photos_are_in_the_order_of_their_names(paths: Seq<Seq<char>>, i: int, j: int)
    requires
        0 <= i < j < paths.len(),
        paths.len() <= usize::MAX,
    ensures
        photos_sorted(paths).len() == paths.len(),
        compare_keys(slideshow_parts(photos_sorted(paths)[i]), slideshow_parts(photos_sorted(paths)[j]))
            != Order::More,
{
    lemma_sorted_pairs(paths, slideshow_keys(paths), i, j);
}

/// The columns of a task's files: sizes and rates of the original come before those of the result.
pub proof fn law_columns_of_files(f: FileView)
    ensures
        cell(f, 1) == f.status,
        cell(f, 2) == f.started_time,
        cell(f, 3) == f.completed_time,
        cell(f, 4) == f.conversion_time,
        cell(f, 5) == f.original_size,
        cell(f, 6) == f.new_size,
        cell(f, 7) == f.original_fps,
        cell(f, 8) == f.new_fps,
        cell(f, 9) == f.codec,
        cell(f, 10) == f.duration,
        cell(f, 0).len() == 0,
        forall|c: nat| c > 10 ==> (#[trigger] cell(f, c)).len() == 0,
{
}

/// Of two files, the one with the smaller number comes first; one without a number comes after both. The columns
/// with numbers are those of the conversion time, the sizes, and the rates.
pub proof fn law_files_sort_by_number(f: FileView, g: FileView, column: nat, a: u64, b: u64)
    requires
        4 <= column <= 8,
    ensures
        a < b < 0x8000_0000_0000_0000 ==> compare_keys(
            sort_key(f, column, Some(a)),
            sort_key(g, column, Some(b)),
        ) == Order::Less,
        0x8000_0000_0000_0000 <= a < b ==> compare_keys(
            sort_key(f, column, Some(b)),
            sort_key(g, column, Some(a)),
        ) == Order::Less,
        a < 0x8000_0000_0000_0000 <= b ==> compare_keys(
            sort_key(f, column, Some(b)),
            sort_key(g, column, Some(a)),
        ) == Order::Less,
        compare_keys(sort_key(f, column, Some(a)), sort_key(g, column, None)) == Order::Less,
        compare_keys(sort_key(f, column, None), sort_key(g, column, None)) == Order::Same,
{
    reveal_with_fuel(compare_keys, 3);
}

/// Files sort by the length of their video in seconds, and those without a length come last.
pub proof fn law_files_sort_by_length(f: FileView, g: FileView, a: nat, b: nat)
    requires
        duration_seconds(f.duration) == Some(a),
    ensures
        duration_seconds(g.duration) == Some(b) && a < b ==> compare_keys(
            sort_key(f, 10, None),
            sort_key(g, 10, None),
        ) == Order::Less,
        duration_seconds(g.duration) is None ==> compare_keys(sort_key(f, 10, None), sort_key(g, 10, None))
            == Order::Less,
{
    reveal_with_fuel(compare_keys, 3);
}

/// In the other columns files sort by their text without regard to case, and a dash comes last.
pub proof fn law_files_sort_by_text(f: FileView, g: FileView, column: nat)
    requires
        column == 1 || column == 2 || column == 3 || column == 9,
        cell(f, column) != "-"@,
    ensures
        cell(g, column) == "-"@ ==> compare_keys(sort_key(f, column, None), sort_key(g, column, None))
            == Order::Less,
        cell(g, column) != "-"@ && compare_texts(
            unicode_lower(cell(f, column)),
            unicode_lower(cell(g, column)),
        ) == Order::Less ==> compare_keys(sort_key(f, column, None), sort_key(g, column, None)) == Order::Less,
{
    reveal_with_fuel(compare_keys, 3);
}

/// The length shown of a video sorts by the seconds that it shows.
pub proof fn law_shown_lengths_sort_by_seconds(d: Duration)
    ensures
        duration_seconds(short_clock_text(whole_secs(d))) == Some(whole_secs(d)),
        duration_seconds("-"@) is None,
{
    let secs = whole_secs(d);
    reveal_strlit(":");
    reveal_strlit("-");
    let colon = ":"@;
    assert(colon =~= seq![':']);
    let h = decimal(secs / 3600);
    let m = padded_two(secs % 3600 / 60);
    let s = padded_two(secs % 60);
    lemma_decimal_round_trip(secs / 3600);
    lemma_padded_two_round_trip(secs % 3600 / 60, u64::MAX as nat);
    lemma_padded_two_round_trip(secs % 60, u64::MAX as nat);
    assert(parsed_unsigned(h, u64::MAX as nat) == Some(secs / 3600));
    assert(secs == secs / 3600 * 3600 + secs % 3600 / 60 * 60 + secs % 60) by (nonlinear_arith);
    assert(!h.contains(':')) by {
        assert forall|i: int| 0 <= i < h.len() implies h[i] != ':' by {
            assert(is_digit(h[i]));
        }
    }
    reveal_with_fuel(seconds_of, 4);
    if secs / 3600 > 0 {
        lemma_split_single(h, ':');
        lemma_split_append(h, ':', m);
        lemma_split_append(h + seq![':'] + m, ':', s);
        assert(short_clock_text(secs) =~= h + seq![':'] + m + seq![':'] + s);
        let parts = seq![h].push(m).push(s);
        assert(parts.drop_last() =~= seq![h].push(m));
        assert(parts.drop_last().drop_last() =~= seq![h]);
        assert(seq![h].drop_last() =~= Seq::<Seq<char>>::empty());
        assert(seconds_of(seq![h]) == Some(secs / 3600));
        assert(seconds_of(seq![h].push(m)) == Some(secs / 3600 * 60 + secs % 3600 / 60));
    } else {
        lemma_split_single(m, ':');
        lemma_split_append(m, ':', s);
        assert(short_clock_text(secs) =~= m + seq![':'] + s);
        let parts = seq![m].push(s);
        assert(parts.drop_last() =~= seq![m]);
        assert(seq![m].drop_last() =~= Seq::<Seq<char>>::empty());
        assert(seconds_of(seq![m]) == Some(secs % 3600 / 60));
    }
    let dash = "-"@;
    assert(!dash.contains(':'));
    lemma_split_single(dash, ':');
    assert(!is_digit(dash[0]));
    assert(seq![dash].last() == dash);
    assert(parsed_unsigned(dash, u64::MAX as nat) is None) by {
        assert(!all_digits(dash));
        assert(!all_digits(crate::text::unsigned_digits(dash)));
    }
}

/// A list in ascending order has no file before one that its column puts first.
pub proof fn law_listed_files_are_in_order(
    files: Seq<FileView>,
    column: nat,
    numbers: Seq<Option<u64>>,
    i: int,
    j: int,
)
    requires
        0 <= i < j < files.len(),
        files.len() <= usize::MAX,
    ensures
        ascending(files, column, numbers).len() == files.len(),
        exists|a: int, b: int|
            0 <= a < files.len() && 0 <= b < files.len() && ascending(files, column, numbers)[i]
                == #[trigger] files[a] && ascending(files, column, numbers)[j] == #[trigger] files[b]
                && compare_keys(
                sort_key(files[a], column, number_at(numbers, a)),
                sort_key(files[b], column, number_at(numbers, b)),
            ) != Order::More,
{
    let keys = sort_keys(files, column, numbers);
    lemma_sorted_pairs(files, keys, i, j);
    let order = sorted_positions(keys);
    let a = order[i] as int;
    let b = order[j] as int;
    assert(ascending(files, column, numbers)[i] == files[a]);
    assert(ascending(files, column, numbers)[j] == files[b]);
}

/// A list in descending order by path is the list in reverse; by any other column it reverses an ascending one.
pub proof fn law_descending_is_reversed(
    files: Seq<FileView>,
    sort: TaskFileSort,
    numbers: Seq<Option<u64>>,
)
    ensures
        sort.column == 0 && !sort.descending ==> in_order(files, sort, numbers) == files,
        sort.column == 0 && sort.descending ==> in_order(files, sort, numbers) == files.reverse(),
        sort.column > 10 ==> in_order(files, sort, numbers) == files,
        1 <= sort.column <= 10 && !sort.descending ==> in_order(files, sort, numbers) == ascending(
            files,
            sort.column as nat,
            numbers,
        ),
{
}

/// Folders that get new names come deepest first, so that no rename takes away the path of a later one.
pub proof fn law_deeper_folders_are_renamed_first(p: Seq<char>, q: Seq<char>)
    requires
        depth(q) < depth(p) <= u128::MAX,
    ensures
        compare_keys(depth_key(p), depth_key(q)) == Order::Less,
{
    reveal_with_fuel(compare_keys, 2);
}

/// Of neighbours that are the same path one stays, and no path is lost.
pub proof fn law_equal_neighbours_are_listed_once(s: Seq<Seq<char>>, a: Seq<char>)
    requires
        s.len() > 0,
    ensures
        plain(s.last()) == plain(a) ==> without_neighbours(s.push(a)) == without_neighbours(s),
        plain(s.last()) != plain(a) ==> without_neighbours(s.push(a)) == without_neighbours(s).push(a),
{
    assert(s.push(a).drop_last() =~= s);
    assert(s.push(a)[s.push(a).len() - 2] == s.last());
}

} // verus!
