//! Natural ordering: runs of digits compare as numbers, other runs as text without regard to case.

use crate::paths::{file_name, path_file_name, plain, same_path};
use crate::text::{
    ascii_lower, ascii_lowercase, is_digit, parse_unsigned, parsed_unsigned, push_char, texts,
    to_chars, unicode_lower, unicode_lowercase,
};
use vstd::prelude::*;

verus! {

/// The outcome of a comparison.
#[derive(Debug, Clone, Copy, PartialEq, Eq, Structural)]
pub enum Order {
    Less,
    Same,
    More,
}

/// One run of a natural key.
#[derive(Debug, PartialEq, Eq)]
pub enum NaturalPart {
    /// The value of a run of digits and its length.
    Number(u128, usize),
    Text(String),
}

/// The contents of a `NaturalPart`.
pub enum PartView {
    Number(nat, nat),
    Text(Seq<char>),
}

impl View for NaturalPart {
    type V = PartView;

    open spec fn view(&self) -> PartView {
        match *self {
            NaturalPart::Number(value, length) => PartView::Number(value as nat, length as nat),
            NaturalPart::Text(text) => PartView::Text(text@),
        }
    }
}

/// The contents of a natural key.
pub open spec fn part_views(key: Seq<NaturalPart>) -> Seq<PartView> {
    key.map_values(|p: NaturalPart| p@)
}

pub open spec fn key_views(keys: Seq<Vec<NaturalPart>>) -> Seq<Seq<PartView>> {
    keys.map_values(|k: Vec<NaturalPart>| part_views(k@))
}

/// The maximal runs of digits and of other characters.
pub open spec fn runs(s: Seq<char>) -> Seq<Seq<char>>
    decreases s.len(),
{
    if s.len() == 0 {
        Seq::empty()
    } else {
        let before = runs(s.drop_last());
        if before.len() > 0 && is_digit(before.last().last()) == is_digit(s.last()) {
            before.drop_last().push(before.last().push(s.last()))
        } else {
            before.push(seq![s.last()])
        }
    }
}

/// A run of digits counts by its value, as far as that fits in 128 bits, and then by its length.
pub open spec fn part_of_run(run: Seq<char>) -> PartView {
    if is_digit(run.last()) {
        PartView::Number(
            match parsed_unsigned(run, u128::MAX as nat) {
                Some(n) => n,
                None => u128::MAX as nat,
            },
            run.len(),
        )
    } else {
        PartView::Text(run)
    }
}

/// The natural key of a text, without regard to case.
pub open spec fn natural_parts(s: Seq<char>) -> Seq<PartView> {
    runs(unicode_lower(s)).map_values(|r: Seq<char>| part_of_run(r))
}

/// Photos order by their names, and then by their whole paths.
pub open spec fn slideshow_parts(path: Seq<char>) -> Seq<PartView> {
    natural_parts(
        match file_name(path) {
            Some(name) => name,
            None => Seq::empty(),
        },
    ).push(PartView::Text(ascii_lower(path)))
}

pub open spec fn compare_numbers(a: nat, b: nat) -> Order {
    if a < b {
        Order::Less
    } else if a > b {
        Order::More
    } else {
        Order::Same
    }
}

/// Texts compare by their first differing character; a prefix comes first.
pub open spec fn compare_texts(a: Seq<char>, b: Seq<char>) -> Order
    decreases a.len(),
{
    if a.len() == 0 && b.len() == 0 {
        Order::Same
    } else if a.len() == 0 {
        Order::Less
    } else if b.len() == 0 {
        Order::More
    } else if a[0] < b[0] {
        Order::Less
    } else if a[0] > b[0] {
        Order::More
    } else {
        compare_texts(a.drop_first(), b.drop_first())
    }
}

/// Numbers come before texts.
pub open spec fn compare_parts(a: PartView, b: PartView) -> Order {
    match (a, b) {
        (PartView::Number(x, m), PartView::Number(y, n)) => if x == y {
            compare_numbers(m, n)
        } else {
            compare_numbers(x, y)
        },
        (PartView::Number(_, _), PartView::Text(_)) => Order::Less,
        (PartView::Text(_), PartView::Number(_, _)) => Order::More,
        (PartView::Text(x), PartView::Text(y)) => compare_texts(x, y),
    }
}

/// Keys compare by their first differing part; a prefix comes first.
pub open spec fn compare_keys(a: Seq<PartView>, b: Seq<PartView>) -> Order
    decreases a.len(),
{
    if a.len() == 0 && b.len() == 0 {
        Order::Same
    } else if a.len() == 0 {
        Order::Less
    } else if b.len() == 0 {
        Order::More
    } else if compare_parts(a[0], b[0]) != Order::Same {
        compare_parts(a[0], b[0])
    } else {
        compare_keys(a.drop_first(), b.drop_first())
    }
}

/// The opposite outcome.
pub open spec fn reversed(o: Order) -> Order {
    match o {
        Order::Less => Order::More,
        Order::Same => Order::Same,
        Order::More => Order::Less,
    }
}

proof fn lemma_texts_antisymmetric(a: Seq<char>, b: Seq<char>)
    ensures
        compare_texts(b, a) == reversed(compare_texts(a, b)),
    decreases a.len(),
{
    if a.len() > 0 && b.len() > 0 {
        lemma_texts_antisymmetric(a.drop_first(), b.drop_first());
    }
}

proof fn lemma_texts_same(a: Seq<char>, b: Seq<char>)
    ensures
        compare_texts(a, b) == Order::Same <==> a == b,
    decreases a.len(),
{
    if a.len() > 0 && b.len() > 0 {
        lemma_texts_same(a.drop_first(), b.drop_first());
        if a[0] == b[0] && a.drop_first() == b.drop_first() {
            assert(a =~= seq![a[0]] + a.drop_first());
            assert(b =~= seq![b[0]] + b.drop_first());
        }
    } else if a.len() == 0 && b.len() == 0 {
        assert(a =~= b);
    }
}

proof fn lemma_texts_transitive(a: Seq<char>, b: Seq<char>, c: Seq<char>)
    requires
        compare_texts(a, b) == Order::Less,
        compare_texts(b, c) == Order::Less,
    ensures
        compare_texts(a, c) == Order::Less,
    decreases a.len(),
{
    if a.len() > 0 && b.len() > 0 && c.len() > 0 && a[0] == b[0] && b[0] == c[0] {
        lemma_texts_transitive(a.drop_first(), b.drop_first(), c.drop_first());
    }
}

proof fn lemma_parts_order(a: PartView, b: PartView, c: PartView)
    ensures
        compare_parts(b, a) == reversed(compare_parts(a, b)),
        compare_parts(a, b) == Order::Same <==> a == b,
        compare_parts(a, b) == Order::Less && compare_parts(b, c) == Order::Less ==> compare_parts(
            a,
            c,
        ) == Order::Less,
{
    if let (PartView::Text(x), PartView::Text(y)) = (a, b) {
        lemma_texts_antisymmetric(x, y);
        lemma_texts_same(x, y);
        if let PartView::Text(z) = c {
            if compare_texts(x, y) == Order::Less && compare_texts(y, z) == Order::Less {
                lemma_texts_transitive(x, y, z);
            }
        }
    }
}

/// Comparing keys the other way round gives the opposite outcome.
pub proof fn lemma_keys_antisymmetric(a: Seq<PartView>, b: Seq<PartView>)
    ensures
        compare_keys(b, a) == reversed(compare_keys(a, b)),
    decreases a.len(),
{
    if a.len() > 0 && b.len() > 0 {
        lemma_parts_order(a[0], b[0], b[0]);
        lemma_parts_order(b[0], a[0], a[0]);
        lemma_keys_antisymmetric(a.drop_first(), b.drop_first());
    }
}

/// Keys compare as the same exactly when they are equal.
pub proof fn lemma_keys_same(a: Seq<PartView>, b: Seq<PartView>)
    ensures
        compare_keys(a, b) == Order::Same <==> a == b,
    decreases a.len(),
{
    if a.len() > 0 && b.len() > 0 {
        lemma_parts_order(a[0], b[0], b[0]);
        lemma_keys_same(a.drop_first(), b.drop_first());
        if a[0] == b[0] && a.drop_first() == b.drop_first() {
            assert(a =~= seq![a[0]] + a.drop_first());
            assert(b =~= seq![b[0]] + b.drop_first());
        }
    } else if a.len() == 0 && b.len() == 0 {
        assert(a =~= b);
    }
}

/// The order of keys is transitive.
pub proof fn lemma_keys_transitive(a: Seq<PartView>, b: Seq<PartView>, c: Seq<PartView>)
    requires
        compare_keys(a, b) == Order::Less,
        compare_keys(b, c) == Order::Less,
    ensures
        compare_keys(a, c) == Order::Less,
    decreases a.len(),
{
    if a.len() > 0 && b.len() > 0 && c.len() > 0 {
        lemma_parts_order(a[0], b[0], c[0]);
        lemma_parts_order(b[0], c[0], c[0]);
        lemma_parts_order(a[0], c[0], c[0]);
        if a[0] == b[0] && b[0] == c[0] {
            lemma_keys_transitive(a.drop_first(), b.drop_first(), c.drop_first());
        }
    }
}

/// The natural order is a strict total order on keys.
pub proof fn law_natural_order_is_total(a: Seq<PartView>, b: Seq<PartView>, c: Seq<PartView>)
    ensures
        compare_keys(b, a) == reversed(compare_keys(a, b)),
        compare_keys(a, b) == Order::Same <==> a == b,
        compare_keys(a, b) == Order::Less && compare_keys(b, c) == Order::Less ==> compare_keys(a, c)
            == Order::Less,
{
    lemma_keys_antisymmetric(a, b);
    lemma_keys_same(a, b);
    if compare_keys(a, b) == Order::Less && compare_keys(b, c) == Order::Less {
        lemma_keys_transitive(a, b, c);
    }
}

fn number_order(a: u128, b: u128) -> (r: Order)
    ensures
        r == compare_numbers(a as nat, b as nat),
{
    if a < b {
        Order::Less
    } else if a > b {
        Order::More
    } else {
        Order::Same
    }
}

/// Compares two texts character by character.
pub fn text_order(a: &str, b: &str) -> (r: Order)
    ensures
        r == compare_texts(a@, b@),
{
    let left = to_chars(a);
    let right = to_chars(b);
    let mut i: usize = 0;
    assert(a@.skip(0) =~= a@);
    assert(b@.skip(0) =~= b@);
    while i < left.len() && i < right.len()
        invariant
            i <= left@.len(),
            i <= right@.len(),
            left@ == a@,
            right@ == b@,
            compare_texts(a@, b@) == compare_texts(a@.skip(i as int), b@.skip(i as int)),
        decreases left@.len() - i,
    {
        assert(a@.skip(i as int)[0] == left@[i as int]);
        assert(b@.skip(i as int)[0] == right@[i as int]);
        if left[i] < right[i] {
            return Order::Less;
        }
        if left[i] > right[i] {
            return Order::More;
        }
        assert(a@.skip(i as int).drop_first() =~= a@.skip(i + 1));
        assert(b@.skip(i as int).drop_first() =~= b@.skip(i + 1));
        i = i + 1;
    }
    number_order(left.len() as u128, right.len() as u128)
}

fn part_order(a: &NaturalPart, b: &NaturalPart) -> (r: Order)
    ensures
        r == compare_parts(a@, b@),
{
    match (a, b) {
        (NaturalPart::Number(x, m), NaturalPart::Number(y, n)) => {
            if *x == *y {
                number_order(*m as u128, *n as u128)
            } else {
                number_order(*x, *y)
            }
        },
        (NaturalPart::Number(_, _), NaturalPart::Text(_)) => Order::Less,
        (NaturalPart::Text(_), NaturalPart::Number(_, _)) => Order::More,
        (NaturalPart::Text(x), NaturalPart::Text(y)) => text_order(x.as_str(), y.as_str()),
    }
}

/// Compares two natural keys.
pub fn key_order(a: &Vec<NaturalPart>, b: &Vec<NaturalPart>) -> (r: Order)
    ensures
        r == compare_keys(part_views(a@), part_views(b@)),
{
    let ghost left = part_views(a@);
    let ghost right = part_views(b@);
    let mut i: usize = 0;
    assert(left.skip(0) =~= left);
    assert(right.skip(0) =~= right);
    while i < a.len() && i < b.len()
        invariant
            i <= a@.len(),
            i <= b@.len(),
            left == part_views(a@),
            right == part_views(b@),
            compare_keys(left, right) == compare_keys(left.skip(i as int), right.skip(i as int)),
        decreases a@.len() - i,
    {
        assert(left.skip(i as int)[0] == a@[i as int]@);
        assert(right.skip(i as int)[0] == b@[i as int]@);
        let o = part_order(&a[i], &b[i]);
        if o != Order::Same {
            return o;
        }
        assert(left.skip(i as int).drop_first() =~= left.skip(i + 1));
        assert(right.skip(i as int).drop_first() =~= right.skip(i + 1));
        i = i + 1;
    }
    number_order(a.len() as u128, b.len() as u128)
}

fn natural_part(run: &String, digits: bool) -> (r: NaturalPart)
    requires
        run@.len() > 0,
        digits == is_digit(run@.last()),
    ensures
        r@ == part_of_run(run@),
{
    if digits {
        let value: u128 = match parse_unsigned(
            run.as_str(),
            340_282_366_920_938_463_463_374_607_431_768_211_455,
        ) {
            Some(n) => n,
            None => 340_282_366_920_938_463_463_374_607_431_768_211_455,
        };
        NaturalPart::Number(value, run.as_str().unicode_len())
    } else {
        NaturalPart::Text(run.clone())
    }
}

/// The natural key of a text.
pub fn natural_key(value: &str) -> (r: Vec<NaturalPart>)
    ensures
        part_views(r@) == natural_parts(value@),
{
    let lowered = unicode_lowercase(value);
    let chars = to_chars(lowered.as_str());
    let ghost s = lowered@;
    let ghost to_part = |r: Seq<char>| part_of_run(r);
    let mut parts: Vec<NaturalPart> = Vec::new();
    let mut current = String::new();
    let mut digits: bool = false;
    let mut i: usize = 0;
    assert(s.take(0) =~= Seq::<char>::empty());
    assert(part_views(parts@) =~= runs(s.take(0)).map_values(to_part));
    while i < chars.len()
        invariant
            i <= chars@.len(),
            chars@ == s,
            to_part == (|r: Seq<char>| part_of_run(r)),
            i == 0 ==> current@.len() == 0 && runs(s.take(0)).len() == 0 && part_views(parts@)
                == Seq::<PartView>::empty(),
            i > 0 ==> {
                let all = runs(s.take(i as int));
                &&& all.len() > 0
                &&& all.last() == current@
                &&& current@.len() > 0
                &&& digits == is_digit(current@.last())
                &&& part_views(parts@) == all.drop_last().map_values(to_part)
            },
        decreases chars@.len() - i,
    {
        let c = chars[i];
        let c_digit = c >= '0' && c <= '9';
        let ghost before = part_views(parts@);
        let ghost all = runs(s.take(i as int));
        let ghost run = current@;
        proof {
            assert(s.take(i + 1).drop_last() =~= s.take(i as int));
            assert(s.take(i + 1).last() == c);
        }
        if i > 0 && digits != c_digit {
            parts.push(natural_part(&current, digits));
            assert(part_views(parts@) =~= before.push(part_of_run(run)));
            assert(all.map_values(to_part) =~= all.drop_last().map_values(to_part).push(
                part_of_run(run),
            ));
            current = String::new();
        }
        push_char(&mut current, c);
        digits = c_digit;
        i = i + 1;
        proof {
            let now = runs(s.take(i as int));
            if run.len() == 0 {
                assert(current@ =~= seq![c]);
                assert(now =~= seq![seq![c]]);
                assert(now.drop_last().map_values(to_part) =~= Seq::<PartView>::empty());
            } else if is_digit(run.last()) == is_digit(c) {
                assert(now =~= all.drop_last().push(run.push(c)));
                assert(now.drop_last() =~= all.drop_last());
            } else {
                assert(current@ =~= seq![c]);
                assert(now =~= all.push(seq![c]));
                assert(now.drop_last() =~= all);
            }
        }
    }
    assert(s.take(i as int) =~= s);
    if i > 0 {
        let ghost before = part_views(parts@);
        let ghost run = current@;
        let ghost all = runs(s);
        parts.push(natural_part(&current, digits));
        assert(part_views(parts@) =~= before.push(part_of_run(run)));
        assert(all.map_values(to_part) =~= all.drop_last().map_values(to_part).push(
            part_of_run(run),
        ));
    } else {
        assert(runs(s).map_values(to_part) =~= Seq::<PartView>::empty());
    }
    parts
}

/// The key by which photos are ordered.
pub fn slideshow_natural_key(path: &str) -> (r: Vec<NaturalPart>)
    ensures
        part_views(r@) == slideshow_parts(path@),
{
    let mut parts = match path_file_name(path) {
        Some(name) => natural_key(name.as_str()),
        None => {
            let empty = String::new();
            assert(empty@ =~= Seq::<char>::empty());
            natural_key(empty.as_str())
        },
    };
    let ghost before = part_views(parts@);
    let lowered = ascii_lowercase(path);
    let ghost text = lowered@;
    parts.push(NaturalPart::Text(lowered));
    assert(part_views(parts@) =~= before.push(PartView::Text(text)));
    parts
}

/// The key by which videos are ordered: that of the whole path.
pub fn full_path_natural_key(path: &str) -> (r: Vec<NaturalPart>)
    ensures
        part_views(r@) == natural_parts(path@),
{
    natural_key(path)
}

/// The item at `i` comes before the item at `j`: by its key, and for equal keys by its position.
pub open spec fn comes_before(keys: Seq<Seq<PartView>>, i: int, j: int) -> bool {
    compare_keys(keys[i], keys[j]) == Order::Less || (compare_keys(keys[i], keys[j]) == Order::Same
        && i < j)
}

/// The positions of a list in the order of their keys.
pub open spec fn is_stable_order(order: Seq<usize>, keys: Seq<Seq<PartView>>) -> bool {
    &&& order.len() == keys.len()
    &&& forall|i: int| 0 <= i < order.len() ==> 0 <= (#[trigger] order[i]) < keys.len()
    &&& forall|i: int, j: int|
        0 <= i < j < order.len() ==> comes_before(
            keys,
            #[trigger] order[i] as int,
            #[trigger] order[j] as int,
        )
}

proof fn lemma_before_transitive(keys: Seq<Seq<PartView>>, i: int, j: int, k: int)
    requires
        comes_before(keys, i, j),
        comes_before(keys, j, k),
    ensures
        comes_before(keys, i, k),
{
    lemma_keys_same(keys[i], keys[j]);
    lemma_keys_same(keys[j], keys[k]);
    lemma_keys_same(keys[i], keys[k]);
    if compare_keys(keys[i], keys[j]) == Order::Less && compare_keys(keys[j], keys[k])
        == Order::Less {
        lemma_keys_transitive(keys[i], keys[j], keys[k]);
    }
}

proof fn lemma_before_total(keys: Seq<Seq<PartView>>, i: int, j: int)
    requires
        i != j,
    ensures
        comes_before(keys, i, j) <==> !comes_before(keys, j, i),
{
    lemma_keys_antisymmetric(keys[i], keys[j]);
}

/// The positions of `keys` in the order of their keys, equal keys in the order of the list.
///
/// Each position is put behind every earlier one that it does not come before.
pub fn stable_order(keys: &Vec<Vec<NaturalPart>>) -> (r: Vec<usize>)
    ensures
        is_stable_order(r@, key_views(keys@)),
{
    let ghost views = key_views(keys@);
    let mut order: Vec<usize> = Vec::new();
    let mut n: usize = 0;
    while n < keys.len()
        invariant
            n <= keys@.len(),
            views == key_views(keys@),
            order@.len() == n,
            forall|i: int| 0 <= i < n ==> 0 <= (#[trigger] order@[i]) < n,
            forall|i: int, j: int|
                0 <= i < j < n ==> comes_before(
                    views,
                    #[trigger] order@[i] as int,
                    #[trigger] order@[j] as int,
                ),
        decreases keys@.len() - n,
    {
        let mut low: usize = 0;
        let mut high: usize = n;
        while low < high
            invariant
                low <= high <= n,
                n < keys@.len(),
                views == key_views(keys@),
                order@.len() == n,
                forall|i: int| 0 <= i < n ==> 0 <= (#[trigger] order@[i]) < n,
                forall|i: int, j: int|
                    0 <= i < j < n ==> comes_before(
                        views,
                        #[trigger] order@[i] as int,
                        #[trigger] order@[j] as int,
                    ),
                forall|i: int|
                    0 <= i < low ==> comes_before(views, #[trigger] order@[i] as int, n as int),
                forall|i: int|
                    high <= i < n ==> comes_before(views, n as int, #[trigger] order@[i] as int),
            decreases high - low,
        {
            let middle: usize = low + (high - low) / 2;
            let at: usize = order[middle];
            let o = key_order(&keys[n], &keys[at]);
            assert(views[n as int] == part_views(keys@[n as int]@));
            assert(views[at as int] == part_views(keys@[at as int]@));
            if o == Order::Less {
                proof {
                    assert(comes_before(views, n as int, at as int));
                    assert forall|i: int| middle <= i < n implies comes_before(
                        views,
                        n as int,
                        #[trigger] order@[i] as int,
                    ) by {
                        if i > middle {
                            lemma_before_transitive(
                                views,
                                n as int,
                                at as int,
                                order@[i] as int,
                            );
                        }
                    }
                }
                high = middle;
            } else {
                proof {
                    lemma_before_total(views, at as int, n as int);
                    assert(comes_before(views, at as int, n as int));
                    assert forall|i: int| 0 <= i <= middle implies comes_before(
                        views,
                        #[trigger] order@[i] as int,
                        n as int,
                    ) by {
                        if i < middle {
                            lemma_before_transitive(
                                views,
                                order@[i] as int,
                                at as int,
                                n as int,
                            );
                        }
                    }
                }
                low = middle + 1;
            }
        }
        let ghost before = order@;
        order.insert(low, n);
        proof {
            let after = order@;
            assert forall|i: int| 0 <= i < n + 1 implies 0 <= (#[trigger] after[i]) < n + 1 by {
                if i < low {
                    assert(after[i] == before[i]);
                } else if i > low {
                    assert(after[i] == before[i - 1]);
                }
            }
            assert forall|i: int, j: int| 0 <= i < j < n + 1 implies comes_before(
                views,
                #[trigger] after[i] as int,
                #[trigger] after[j] as int,
            ) by {
                let bi = if i < low {
                    i
                } else {
                    i - 1
                };
                let bj = if j < low {
                    j
                } else {
                    j - 1
                };
                if i != low {
                    assert(after[i] == before[bi]);
                }
                if j != low {
                    assert(after[j] == before[bj]);
                }
            }
        }
        n = n + 1;
    }
    order
}

/// A stable order holds each position exactly once.
pub proof fn lemma_order_has_no_repeats(order: Seq<usize>, keys: Seq<Seq<PartView>>)
    requires
        is_stable_order(order, keys),
    ensures
        order.no_duplicates(),
{
    assert forall|i: int, j: int| 0 <= i < order.len() && 0 <= j < order.len() && i != j implies
        order[i] != order[j] by {
        if i < j {
            assert(comes_before(keys, order[i] as int, order[j] as int));
        } else {
            assert(comes_before(keys, order[j] as int, order[i] as int));
        }
        lemma_keys_same(keys[order[i] as int], keys[order[j] as int]);
    }
}

/// `out` holds the items of `items` in the stable order of their keys.
pub open spec fn is_sorted_by<A>(out: Seq<A>, items: Seq<A>, keys: Seq<Seq<PartView>>) -> bool {
    exists|order: Seq<usize>| #[trigger]
        is_stable_order(order, keys) && picks(out, items, order)
}

/// `out` holds the items at these positions.
pub open spec fn picks<A>(out: Seq<A>, items: Seq<A>, order: Seq<usize>) -> bool {
    out.len() == order.len() && forall|i: int|
        0 <= i < out.len() ==> #[trigger] out[i] == items[order[i] as int]
}

/// The positions of a list in the order of their keys.
pub open spec fn sorted_positions(keys: Seq<Seq<PartView>>) -> Seq<usize> {
    choose|order: Seq<usize>| is_stable_order(order, keys)
}

/// The items of a list in the stable order of their keys.
pub open spec fn sorted_by_keys<A>(items: Seq<A>, keys: Seq<Seq<PartView>>) -> Seq<A> {
    let order = sorted_positions(keys);
    Seq::new(order.len(), |i: int| items[order[i] as int])
}

spec fn position_leq(keys: Seq<Seq<PartView>>) -> spec_fn(usize, usize) -> bool {
    |x: usize, y: usize| x == y || comes_before(keys, x as int, y as int)
}

proof fn lemma_positions_are_ordered(keys: Seq<Seq<PartView>>)
    ensures
        vstd::relations::total_ordering(position_leq(keys)),
{
    let leq = position_leq(keys);
    assert forall|x: usize, y: usize| #[trigger] leq(x, y) && #[trigger] leq(y, x) implies x == y by {
        if x != y {
            lemma_before_total(keys, x as int, y as int);
        }
    }
    assert forall|x: usize, y: usize, z: usize| #[trigger]
        leq(x, y) && #[trigger] leq(y, z) implies leq(x, z) by {
        if x != y && y != z {
            lemma_before_transitive(keys, x as int, y as int, z as int);
        }
    }
    assert forall|x: usize, y: usize| #[trigger] leq(x, y) || leq(y, x) by {
        if x != y {
            lemma_before_total(keys, x as int, y as int);
        }
    }
}

/// A list has only one stable order.
pub proof fn lemma_stable_order_is_unique(
    a: Seq<usize>,
    b: Seq<usize>,
    keys: Seq<Seq<PartView>>,
)
    requires
        is_stable_order(a, keys),
        is_stable_order(b, keys),
    ensures
        a == b,
{
    let leq = position_leq(keys);
    lemma_order_is_a_permutation(a, keys);
    lemma_order_is_a_permutation(b, keys);
    lemma_positions_are_ordered(keys);
    assert forall|i: int, j: int| 0 <= i < j < a.len() implies #[trigger] leq(a[i], a[j]) by {
        assert(comes_before(keys, a[i] as int, a[j] as int));
    }
    assert forall|i: int, j: int| 0 <= i < j < b.len() implies #[trigger] leq(b[i], b[j]) by {
        assert(comes_before(keys, b[i] as int, b[j] as int));
    }
    vstd::seq_lib::lemma_sorted_unique(a, b, leq);
}

/// A list that fits in memory has a stable order.
pub proof fn lemma_stable_order_exists(keys: Seq<Seq<PartView>>)
    requires
        keys.len() <= usize::MAX,
    ensures
        is_stable_order(sorted_positions(keys), keys),
{
    broadcast use vstd::seq_lib::group_to_multiset_ensures;

    let leq = position_leq(keys);
    let places = Seq::new(keys.len(), |i: int| i as usize);
    let order = places.sort_by(leq);
    lemma_positions_are_ordered(keys);
    places.lemma_sort_by_ensures(leq);
    assert(order.len() == places.to_multiset().len());
    assert(order.len() == keys.len());
    assert forall|i: int| 0 <= i < order.len() implies 0 <= (#[trigger] order[i]) < keys.len() by {
        assert(order.contains(order[i]));
        assert(places.contains(order[i]));
    }
    assert(places.no_duplicates());
    places.lemma_multiset_has_no_duplicates();
    order.lemma_multiset_has_no_duplicates_conv();
    assert forall|i: int, j: int| 0 <= i < j < order.len() implies comes_before(
        keys,
        #[trigger] order[i] as int,
        #[trigger] order[j] as int,
    ) by {
        assert(leq(order[i], order[j]));
        assert(order[i] != order[j]);
    }
    assert(is_stable_order(order, keys));
}

/// A stable order holds the positions of the list.
proof fn lemma_order_is_a_permutation(order: Seq<usize>, keys: Seq<Seq<PartView>>)
    requires
        is_stable_order(order, keys),
    ensures
        order.to_multiset() == Seq::new(keys.len(), |i: int| i as usize).to_multiset(),
{
    let all = Seq::new(keys.len(), |i: int| i as usize);
    lemma_order_has_no_repeats(order, keys);
    if order.len() > 0 {
        lemma_position_found(order, order.len() - 1);
    }
    assert forall|i: int| 0 <= i < order.len() implies #[trigger] order[i] == all[order[i] as int] by {
        assert(order[i] < keys.len());
    }
    lemma_positions_permute(order, all, order);
}

pub proof fn lemma_sorted_is_picked<A>(
    out: Seq<A>,
    items: Seq<A>,
    keys: Seq<Seq<PartView>>,
    order: Seq<usize>,
)
    requires
        is_stable_order(order, keys),
        picks(out, items, order),
    ensures
        out == sorted_by_keys(items, keys),
        is_sorted_by(out, items, keys),
{
    lemma_stable_order_is_unique(order, sorted_positions(keys), keys);
    assert(out =~= sorted_by_keys(items, keys));
}

/// A sorted list holds exactly the items of the list, and its keys never decrease.
pub proof fn law_sorting_keeps_every_item<A>(out: Seq<A>, items: Seq<A>, keys: Seq<Seq<PartView>>)
    requires
        items.len() == keys.len(),
        is_sorted_by(out, items, keys),
    ensures
        out.len() == items.len(),
        forall|x: A| #[trigger] out.contains(x) <==> items.contains(x),
        out.to_multiset() == items.to_multiset(),
{
    let order = choose|order: Seq<usize>| #[trigger]
        is_stable_order(order, keys) && picks(out, items, order);
    lemma_order_has_no_repeats(order, keys);
    lemma_positions_permute(out, items, order);
    broadcast use vstd::seq_lib::group_to_multiset_ensures;

    assert forall|x: A| #[trigger] out.contains(x) <==> items.contains(x) by {
        assert(out.to_multiset().count(x) == items.to_multiset().count(x));
    }
}

/// Picking every position once keeps the items.
pub proof fn lemma_positions_permute<A>(out: Seq<A>, items: Seq<A>, order: Seq<usize>)
    requires
        order.len() == items.len(),
        order.no_duplicates(),
        forall|i: int| 0 <= i < order.len() ==> 0 <= (#[trigger] order[i]) < items.len(),
        picks(out, items, order),
    ensures
        out.to_multiset() == items.to_multiset(),
    decreases items.len(),
{
    broadcast use vstd::seq_lib::group_to_multiset_ensures;

    if items.len() == 0 {
        assert(out =~= items);
    } else {
        let last = (items.len() - 1) as int;
        lemma_position_found(order, last);
        let at = choose|at: int| 0 <= at < order.len() && order[at] == last;
        let rest_order = order.remove(at);
        let rest_items = items.drop_last();
        let rest_out = out.remove(at);
        assert forall|i: int| 0 <= i < rest_order.len() implies 0 <= (#[trigger] rest_order[i])
            < rest_items.len() by {
            let k = if i < at {
                i
            } else {
                i + 1
            };
            assert(rest_order[i] == order[k]);
            assert(order[k] != order[at]);
        }
        assert(rest_order.no_duplicates()) by {
            assert forall|i: int, j: int|
                0 <= i < rest_order.len() && 0 <= j < rest_order.len() && i
                    != j implies rest_order[i] != rest_order[j] by {
                let a = if i < at {
                    i
                } else {
                    i + 1
                };
                let b = if j < at {
                    j
                } else {
                    j + 1
                };
                assert(rest_order[i] == order[a] && rest_order[j] == order[b]);
            }
        }
        assert(picks(rest_out, rest_items, rest_order)) by {
            assert forall|i: int| 0 <= i < rest_out.len() implies #[trigger] rest_out[i]
                == rest_items[rest_order[i] as int] by {
                let k = if i < at {
                    i
                } else {
                    i + 1
                };
                assert(rest_out[i] == out[k]);
                assert(rest_order[i] == order[k]);
            }
        }
        lemma_positions_permute(rest_out, rest_items, rest_order);
        assert(out[at] == items[last]);
        assert(out.to_multiset().remove(out[at]) =~= rest_out.to_multiset());
        assert(items =~= rest_items.push(items[last]));
        assert(out.to_multiset().count(out[at]) > 0) by {
            assert(out.contains(out[at]));
        }
        assert(out.to_multiset() =~= rest_out.to_multiset().insert(out[at]));
        assert(items.to_multiset() =~= rest_items.to_multiset().insert(items[last]));
    }
}

/// As many different positions as there are hold every position.
proof fn lemma_position_found(order: Seq<usize>, p: int)
    requires
        order.no_duplicates(),
        forall|i: int| 0 <= i < order.len() ==> 0 <= (#[trigger] order[i]) < order.len(),
        0 <= p < order.len(),
    ensures
        exists|at: int| 0 <= at < order.len() && order[at] == p,
{
    if forall|at: int| 0 <= at < order.len() ==> order[at] != p {
        let all = vstd::set_lib::set_int_range(0, order.len() as int);
        let values = order.map_values(|u: usize| u as int);
        assert(values.no_duplicates());
        values.unique_seq_to_set();
        vstd::set_lib::lemma_int_range(0, order.len() as int);
        let missing = all.remove(p);
        assert(values.to_set().subset_of(missing)) by {
            assert forall|v: int| values.to_set().contains(v) implies missing.contains(v) by {
                let i = choose|i: int| 0 <= i < values.len() && values[i] == v;
                assert(order[i] as int == v);
            }
        }
        vstd::set_lib::lemma_len_subset(values.to_set(), missing);
        assert(false);
    }
}

/// The keys of a list of paths.
pub open spec fn full_path_keys(paths: Seq<Seq<char>>) -> Seq<Seq<PartView>> {
    paths.map_values(|p: Seq<char>| natural_parts(p))
}

pub open spec fn slideshow_keys(paths: Seq<Seq<char>>) -> Seq<Seq<PartView>> {
    paths.map_values(|p: Seq<char>| slideshow_parts(p))
}

/// Paths in the natural order of the whole path.
pub open spec fn naturally_sorted(paths: Seq<Seq<char>>) -> Seq<Seq<char>> {
    sorted_by_keys(paths, full_path_keys(paths))
}

/// Photos in the natural order of their names.
pub open spec fn photos_sorted(paths: Seq<Seq<char>>) -> Seq<Seq<char>> {
    sorted_by_keys(paths, slideshow_keys(paths))
}

/// The strings at these positions.
fn pick_texts(items: &Vec<String>, order: &Vec<usize>) -> (r: Vec<String>)
    requires
        forall|i: int| 0 <= i < order@.len() ==> 0 <= (#[trigger] order@[i]) < items@.len(),
    ensures
        picks(texts(r@), texts(items@), order@),
{
    let mut r: Vec<String> = Vec::new();
    let mut i: usize = 0;
    while i < order.len()
        invariant
            i <= order@.len(),
            r@.len() == i,
            forall|k: int| 0 <= k < order@.len() ==> 0 <= (#[trigger] order@[k]) < items@.len(),
            forall|k: int| 0 <= k < i ==> #[trigger] r@[k]@ == items@[order@[k] as int]@,
        decreases order@.len() - i,
    {
        r.push(items[order[i]].clone());
        i = i + 1;
    }
    assert forall|k: int| 0 <= k < texts(r@).len() implies #[trigger] texts(r@)[k] == texts(
        items@,
    )[order@[k] as int] by {
        assert(r@[k]@ == items@[order@[k] as int]@);
    }
    r
}

/// Puts texts in the stable order of their keys.
pub fn sort_by_keys(items: &Vec<String>, keys: &Vec<Vec<NaturalPart>>) -> (r: Vec<String>)
    requires
        items@.len() == keys@.len(),
    ensures
        texts(r@) == sorted_by_keys(texts(items@), key_views(keys@)),
        is_sorted_by(texts(r@), texts(items@), key_views(keys@)),
{
    let order = stable_order(keys);
    let r = pick_texts(items, &order);
    proof {
        lemma_sorted_is_picked(texts(r@), texts(items@), key_views(keys@), order@);
    }
    r
}

/// Sorts paths by the natural order of the whole path.
pub fn sort_by_full_path(paths: &Vec<String>) -> (r: Vec<String>)
    ensures
        texts(r@) == naturally_sorted(texts(paths@)),
        is_sorted_by(texts(r@), texts(paths@), full_path_keys(texts(paths@))),
{
    let mut keys: Vec<Vec<NaturalPart>> = Vec::new();
    let ghost wanted = full_path_keys(texts(paths@));
    let mut i: usize = 0;
    while i < paths.len()
        invariant
            i <= paths@.len(),
            wanted == full_path_keys(texts(paths@)),
            key_views(keys@) == wanted.take(i as int),
        decreases paths@.len() - i,
    {
        let ghost before = key_views(keys@);
        keys.push(full_path_natural_key(paths[i].as_str()));
        assert(key_views(keys@) =~= before.push(wanted[i as int]));
        i = i + 1;
        assert(key_views(keys@) =~= wanted.take(i as int));
    }
    assert(key_views(keys@) =~= wanted);
    sort_by_keys(paths, &keys)
}

/// Sorts photos by the natural order of their names.
pub fn sort_photos(paths: &Vec<String>) -> (r: Vec<String>)
    ensures
        texts(r@) == photos_sorted(texts(paths@)),
        is_sorted_by(texts(r@), texts(paths@), slideshow_keys(texts(paths@))),
{
    let mut keys: Vec<Vec<NaturalPart>> = Vec::new();
    let ghost wanted = slideshow_keys(texts(paths@));
    let mut i: usize = 0;
    while i < paths.len()
        invariant
            i <= paths@.len(),
            wanted == slideshow_keys(texts(paths@)),
            key_views(keys@) == wanted.take(i as int),
        decreases paths@.len() - i,
    {
        let ghost before = key_views(keys@);
        keys.push(slideshow_natural_key(paths[i].as_str()));
        assert(key_views(keys@) =~= before.push(wanted[i as int]));
        i = i + 1;
        assert(key_views(keys@) =~= wanted.take(i as int));
    }
    assert(key_views(keys@) =~= wanted);
    sort_by_keys(paths, &keys)
}

/// The list without items equal to the item before them.
pub open spec fn without_neighbours(s: Seq<Seq<char>>) -> Seq<Seq<char>>
    decreases s.len(),
{
    if s.len() <= 1 {
        s
    } else {
        let before = without_neighbours(s.drop_last());
        if plain(s[s.len() - 2]) == plain(s.last()) {
            before
        } else {
            before.push(s.last())
        }
    }
}

/// Drops each path that is the path before it.
pub fn drop_equal_neighbours(items: &Vec<String>) -> (r: Vec<String>)
    ensures
        texts(r@) == without_neighbours(texts(items@)),
{
    let ghost all = texts(items@);
    let mut r: Vec<String> = Vec::new();
    let mut i: usize = 0;
    assert(texts(r@) =~= without_neighbours(all.take(0)));
    while i < items.len()
        invariant
            i <= items@.len(),
            all == texts(items@),
            texts(r@) == without_neighbours(all.take(i as int)),
        decreases items@.len() - i,
    {
        let ghost before = texts(r@);
        assert(all.take(i + 1).drop_last() =~= all.take(i as int));
        assert(all.take(i + 1).last() == items@[i as int]@);
        let repeated = i > 0 && same_path(items[i - 1].as_str(), items[i].as_str());
        if !repeated {
            r.push(items[i].clone());
            assert(texts(r@) =~= before.push(all[i as int]));
        }
        if i == 0 {
            assert(all.take(0) =~= Seq::<Seq<char>>::empty());
            assert(texts(r@) =~= all.take(1));
        } else {
            assert(all.take(i + 1)[i - 1] == items@[i - 1]@);
        }
        i = i + 1;
    }
    assert(all.take(i as int) =~= all);
    r
}

} // verus!
