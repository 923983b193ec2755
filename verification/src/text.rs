//! Text helpers: decimal numbers, ASCII case folding, searching, and splitting.
//!
//! Every function is described over the character sequence of its arguments.

use vstd::prelude::*;

verus! {

/// The character for one decimal digit.
pub open spec fn digit_char(d: int) -> char {
    (48 + d) as char
}

pub open spec fn is_digit(c: char) -> bool {
    '0' <= c && c <= '9'
}

/// The value of a decimal digit character.
pub open spec fn digit_value(c: char) -> nat {
    (c as int - 48) as nat
}

/// The shortest decimal notation of `n`.
pub open spec fn decimal(n: nat) -> Seq<char>
    decreases n,
{
    if n < 10 {
        seq![digit_char(n as int)]
    } else {
        decimal(n / 10).push(digit_char((n % 10) as int))
    }
}

/// Decimal notation padded with zeros to at least two digits.
pub open spec fn padded_two(n: nat) -> Seq<char> {
    if n < 10 {
        seq!['0'] + decimal(n)
    } else {
        decimal(n)
    }
}

pub open spec fn all_digits(s: Seq<char>) -> bool {
    forall|i: int| 0 <= i < s.len() ==> is_digit(#[trigger] s[i])
}

/// The number that a digit sequence denotes.
pub open spec fn digits_value(s: Seq<char>) -> nat
    decreases s.len(),
{
    if s.len() == 0 {
        0
    } else {
        10 * digits_value(s.drop_last()) + digit_value(s.last())
    }
}

/// The digits of an unsigned number's notation, after an optional plus sign.
pub open spec fn unsigned_digits(s: Seq<char>) -> Seq<char> {
    if s.len() > 0 && s[0] == '+' {
        s.drop_first()
    } else {
        s
    }
}

/// The value of an unsigned number's notation, when it is one and is at most `limit`.
pub open spec fn parsed_unsigned(s: Seq<char>, limit: nat) -> Option<nat> {
    let digits = unsigned_digits(s);
    if digits.len() > 0 && all_digits(digits) && digits_value(digits) <= limit {
        Some(digits_value(digits))
    } else {
        None
    }
}

/// The lowercase form of an ASCII letter; any other character unchanged.
pub open spec fn ascii_lower_char(c: char) -> char {
    if 'A' <= c && c <= 'Z' {
        (c as int + 32) as char
    } else {
        c
    }
}

pub open spec fn ascii_lower(s: Seq<char>) -> Seq<char> {
    s.map_values(|c: char| ascii_lower_char(c))
}

/// Whether `part` stands in `s` at position `at`.
pub open spec fn occurs_at(s: Seq<char>, part: Seq<char>, at: int) -> bool {
    0 <= at && at + part.len() <= s.len() && s.subrange(at, at + part.len()) == part
}

pub open spec fn contains_text(s: Seq<char>, part: Seq<char>) -> bool {
    exists|at: int| occurs_at(s, part, at)
}

pub open spec fn has_prefix(s: Seq<char>, prefix: Seq<char>) -> bool {
    occurs_at(s, prefix, 0)
}

pub open spec fn has_suffix(s: Seq<char>, suffix: Seq<char>) -> bool {
    occurs_at(s, suffix, s.len() - suffix.len())
}

/// The pieces of `s` between occurrences of `separator`, empty pieces included.
pub open spec fn split_text(s: Seq<char>, separator: char) -> Seq<Seq<char>>
    decreases s.len(),
{
    if s.len() == 0 {
        seq![Seq::empty()]
    } else {
        let pieces = split_text(s.drop_last(), separator);
        if s.last() == separator {
            pieces.push(Seq::empty())
        } else {
            pieces.drop_last().push(pieces.last().push(s.last()))
        }
    }
}

/// The position after the last `separator` in `s`, or 0 when there is none.
pub open spec fn after_last(s: Seq<char>, separator: char) -> nat
    decreases s.len(),
{
    if s.len() == 0 {
        0
    } else if s.last() == separator {
        s.len()
    } else {
        after_last(s.drop_last(), separator)
    }
}

/// The character sequences of a list of strings.
pub open spec fn texts(v: Seq<String>) -> Seq<Seq<char>> {
    v.map_values(|s: String| s@)
}

/// The character sequence of an optional string.
pub open spec fn opt_text(o: Option<String>) -> Option<Seq<char>> {
    match o {
        Some(s) => Some(s@),
        None => None,
    }
}

/// The pieces joined with `separator` between neighbours.
pub open spec fn join_texts(pieces: Seq<Seq<char>>, separator: Seq<char>) -> Seq<char>
    decreases pieces.len(),
{
    if pieces.len() == 0 {
        Seq::empty()
    } else if pieces.len() == 1 {
        pieces[0]
    } else {
        join_texts(pieces.drop_last(), separator) + separator + pieces.last()
    }
}

/// Whether two texts have the same characters.
pub fn same_text(a: &str, b: &str) -> (r: bool)
    ensures
        r == (a@ == b@),
{
    let mut rest = b.chars();
    for c in it: a.chars()
        invariant
            it.seq() == a@,
            it.index() <= b@.len(),
            vstd::std_specs::iter::IteratorSpec::remaining(&rest) == b@.skip(it.index()),
            a@.take(it.index()) == b@.take(it.index()),
    {
        let ghost i = it.index();
        assert(c == a@[i]);
        match rest.next() {
            Some(d) => {
                assert(d == b@[i]);
                if c != d {
                    return false;
                }
            },
            None => {
                return false;
            },
        }
        assert(b@.skip(i).drop_first() =~= b@.skip(i + 1));
        assert(a@.take(i + 1) =~= a@.take(i).push(c));
        assert(b@.take(i + 1) =~= b@.take(i).push(c));
    }
    assert(a@.take(a@.len() as int) =~= a@);
    let r = rest.next().is_none();
    assert(r ==> b@.take(a@.len() as int) =~= b@);
    r
}

/// Calls `String::push`: appends one character.
#[verifier::external_body]
pub(crate) fn push_char(s: &mut String, c: char)
    ensures
        final(s)@ == old(s)@.push(c),
{
    s.push(c)
}

/// The characters of `s` as a vector.
pub fn to_chars(s: &str) -> (r: Vec<char>)
    ensures
        r@ == s@,
{
    let mut r: Vec<char> = Vec::new();
    for c in it: s.chars()
        invariant
            it.seq() == s@,
            r@ == s@.take(it.index()),
    {
        r.push(c);
    }
    r
}

/// The string made of `chars[from..to]`.
pub fn chars_to_string(chars: &Vec<char>, from: usize, to: usize) -> (r: String)
    requires
        from <= to <= chars@.len(),
    ensures
        r@ == chars@.subrange(from as int, to as int),
{
    let mut r = String::new();
    let mut i: usize = from;
    while i < to
        invariant
            from <= i <= to <= chars@.len(),
            r@ == chars@.subrange(from as int, i as int),
        decreases to - i,
    {
        push_char(&mut r, chars[i]);
        i = i + 1;
    }
    r
}

/// Concatenates two pieces of text.
pub fn concat2(a: &str, b: &str) -> (r: String)
    ensures
        r@ == a@ + b@,
{
    let mut r = a.to_owned();
    r.append(b);
    r
}

/// Concatenates three pieces of text.
pub fn concat3(a: &str, b: &str, c: &str) -> (r: String)
    ensures
        r@ == a@ + b@ + c@,
{
    let mut r = a.to_owned();
    r.append(b);
    r.append(c);
    r
}

/// Writes `n` in decimal notation.
pub fn decimal_text(n: u128) -> (r: String)
    ensures
        r@ == decimal(n as nat),
    decreases n,
{
    if n < 10 {
        let mut r = String::new();
        push_char(&mut r, digit_to_char(n as u8));
        assert(r@ =~= decimal(n as nat));
        r
    } else {
        let mut r = decimal_text(n / 10);
        push_char(&mut r, digit_to_char((n % 10) as u8));
        r
    }
}

fn digit_to_char(d: u8) -> (r: char)
    requires
        d < 10,
    ensures
        r == digit_char(d as int),
{
    (48 + d) as char
}

/// Writes `n` in decimal notation, with a leading zero below ten.
pub fn padded_two_text(n: u128) -> (r: String)
    ensures
        r@ == padded_two(n as nat),
{
    if n < 10 {
        let digits = decimal_text(n);
        let mut r = String::new();
        push_char(&mut r, '0');
        assert(r@ =~= seq!['0']);
        r.append(digits.as_str());
        r
    } else {
        decimal_text(n)
    }
}

/// Reads an unsigned number of at most `limit`: an optional plus sign, then only digits.
pub fn parse_unsigned(s: &str, limit: u128) -> (r: Option<u128>)
    ensures
        match r {
            Some(n) => parsed_unsigned(s@, limit as nat) == Some(n as nat),
            None => parsed_unsigned(s@, limit as nat) is None,
        },
{
    let chars = to_chars(s);
    let mut start: usize = 0;
    if chars.len() > 0 && chars[0] == '+' {
        start = 1;
    }
    let ghost digits = unsigned_digits(s@);
    assert(digits =~= chars@.subrange(start as int, chars@.len() as int));
    if start == chars.len() {
        return None;
    }
    let mut value: u128 = 0;
    let mut i: usize = start;
    let mut fits: bool = true;
    while i < chars.len()
        invariant
            start <= i <= chars@.len(),
            start < chars@.len(),
            digits == unsigned_digits(s@),
            digits == chars@.subrange(start as int, chars@.len() as int),
            all_digits(digits.take(i - start)),
            fits ==> value == digits_value(digits.take(i - start)) && value <= limit,
            !fits ==> digits_value(digits.take(i - start)) > limit,
        decreases chars@.len() - i,
    {
        let c = chars[i];
        let ghost before = digits.take(i - start);
        let ghost after = digits.take(i - start + 1);
        assert(after.drop_last() =~= before);
        assert(after.last() == c);
        if !(c >= '0' && c <= '9') {
            assert(!is_digit(digits[i - start]));
            return None;
        }
        let d: u128 = (c as u128) - 48;
        assert(digits_value(after) == 10 * digits_value(before) + d);
        assert(all_digits(after)) by {
            assert forall|k: int| 0 <= k < after.len() implies is_digit(#[trigger] after[k]) by {
                if k < before.len() {
                    assert(after[k] == before[k]);
                }
            }
        }
        if fits {
            if value > limit / 10 {
                assert(10 * value > limit);
                fits = false;
            } else {
                let ten: u128 = value * 10;
                if ten > limit || d > limit - ten {
                    fits = false;
                } else {
                    value = ten + d;
                }
            }
        }
        i = i + 1;
    }
    assert(digits.take(i - start) =~= digits);
    if fits {
        Some(value)
    } else {
        None
    }
}

/// The lowercase form of an ASCII letter; any other character unchanged.
pub fn lower_ascii_char(c: char) -> (r: char)
    ensures
        r == ascii_lower_char(c),
{
    if c >= 'A' && c <= 'Z' {
        ((c as u8) + 32) as char
    } else {
        c
    }
}

/// Folds the ASCII letters of `s` to lowercase.
pub fn ascii_lowercase(s: &str) -> (r: String)
    ensures
        r@ == ascii_lower(s@),
{
    let chars = to_chars(s);
    let mut r = String::new();
    let mut i: usize = 0;
    while i < chars.len()
        invariant
            i <= chars@.len(),
            chars@ == s@,
            r@ == ascii_lower(s@.take(i as int)),
        decreases chars@.len() - i,
    {
        push_char(&mut r, lower_ascii_char(chars[i]));
        i = i + 1;
        assert(r@ =~= ascii_lower(s@.take(i as int)));
    }
    assert(s@.take(i as int) =~= s@);
    r
}

/// Whether two texts are equal up to the case of ASCII letters.
pub fn eq_ignoring_ascii_case(a: &str, b: &str) -> (r: bool)
    ensures
        r == (ascii_lower(a@) == ascii_lower(b@)),
{
    let left = ascii_lowercase(a);
    let right = ascii_lowercase(b);
    same_text(left.as_str(), right.as_str())
}

/// Whether `part` stands in `s` at position `at`.
pub fn chars_occur_at(s: &Vec<char>, part: &Vec<char>, at: usize) -> (r: bool)
    ensures
        r == occurs_at(s@, part@, at as int),
{
    if at > s.len() || part.len() > s.len() - at {
        return false;
    }
    let mut i: usize = 0;
    while i < part.len()
        invariant
            i <= part@.len(),
            at + part.len() <= s.len(),
            forall|k: int| 0 <= k < i ==> s@[at + k] == part@[k],
        decreases part@.len() - i,
    {
        let c = s[at + i];
        if c != part[i] {
            assert(s@.subrange(at as int, at + part@.len())[i as int] != part@[i as int]);
            return false;
        }
        i = i + 1;
    }
    assert(s@.subrange(at as int, at + part@.len()) =~= part@);
    true
}

/// The first position at which `part` stands in `s`.
pub fn find_text(s: &str, part: &str) -> (r: Option<usize>)
    ensures
        match r {
            Some(at) => occurs_at(s@, part@, at as int) && (forall|k: int|
                0 <= k < at ==> !#[trigger] occurs_at(s@, part@, k)),
            None => !contains_text(s@, part@),
        },
{
    let chars = to_chars(s);
    let wanted = to_chars(part);
    if wanted.len() > chars.len() {
        return None;
    }
    let last: usize = chars.len() - wanted.len();
    let mut at: usize = 0;
    while at <= last
        invariant
            at <= last + 1,
            last == chars@.len() - wanted@.len(),
            chars@ == s@,
            wanted@ == part@,
            forall|k: int| 0 <= k < at ==> !#[trigger] occurs_at(s@, part@, k),
        decreases last + 1 - at,
    {
        if chars_occur_at(&chars, &wanted, at) {
            return Some(at);
        }
        if at == last {
            return None;
        }
        at = at + 1;
    }
    None
}

pub fn text_contains(s: &str, part: &str) -> (r: bool)
    ensures
        r == contains_text(s@, part@),
{
    find_text(s, part).is_some()
}

pub fn text_starts_with(s: &str, prefix: &str) -> (r: bool)
    ensures
        r == has_prefix(s@, prefix@),
{
    let chars = to_chars(s);
    let wanted = to_chars(prefix);
    chars_occur_at(&chars, &wanted, 0)
}

pub fn text_ends_with(s: &str, suffix: &str) -> (r: bool)
    ensures
        r == has_suffix(s@, suffix@),
{
    let chars = to_chars(s);
    let wanted = to_chars(suffix);
    if wanted.len() > chars.len() {
        return false;
    }
    chars_occur_at(&chars, &wanted, chars.len() - wanted.len())
}

/// The pieces of `s` between occurrences of `separator`.
pub fn split_on(s: &str, separator: char) -> (r: Vec<String>)
    ensures
        texts(r@) == split_text(s@, separator),
{
    let chars = to_chars(s);
    let mut done: Vec<String> = Vec::new();
    let mut current = String::new();
    let mut i: usize = 0;
    assert(s@.take(0) =~= Seq::<char>::empty());
    assert(texts(done@).push(current@) =~= split_text(s@.take(0), separator));
    while i < chars.len()
        invariant
            i <= chars@.len(),
            chars@ == s@,
            texts(done@).push(current@) == split_text(s@.take(i as int), separator),
        decreases chars@.len() - i,
    {
        let c = chars[i];
        let ghost before = texts(done@);
        let ghost piece = current@;
        assert(s@.take(i + 1).drop_last() =~= s@.take(i as int));
        assert(before.push(piece).drop_last() =~= before);
        if c == separator {
            done.push(current);
            current = String::new();
            assert(texts(done@) =~= before.push(piece));
        } else {
            push_char(&mut current, c);
        }
        i = i + 1;
        assert(texts(done@).push(current@) =~= split_text(s@.take(i as int), separator));
    }
    assert(s@.take(i as int) =~= s@);
    let ghost before = texts(done@);
    let ghost piece = current@;
    done.push(current);
    assert(texts(done@) =~= before.push(piece));
    done
}

/// The position after the last `separator`, or 0 when there is none.
pub fn position_after_last(s: &Vec<char>, separator: char) -> (r: usize)
    ensures
        r == after_last(s@, separator),
        r <= s@.len(),
{
    let mut i: usize = s.len();
    assert(s@.take(i as int) =~= s@);
    while i > 0
        invariant
            i <= s@.len(),
            after_last(s@.take(i as int), separator) == after_last(s@, separator),
        decreases i,
    {
        assert(s@.take(i as int).drop_last() =~= s@.take(i - 1));
        if s[i - 1] == separator {
            return i;
        }
        i = i - 1;
    }
    0
}

/// White space: the control characters from tab to carriage return, and every Unicode space, line,
/// or paragraph separator.
pub open spec fn is_white_space(c: char) -> bool {
    let n = c as u32;
    ||| 0x9 <= n <= 0xD
    ||| n == 0x20 || n == 0x85 || n == 0xA0 || n == 0x1680
    ||| 0x2000 <= n <= 0x200A
    ||| n == 0x2028 || n == 0x2029 || n == 0x202F || n == 0x205F || n == 0x3000
}

fn char_is_white_space(c: char) -> (r: bool)
    ensures
        r == is_white_space(c),
{
    let n: u32 = c as u32;
    (n >= 0x9 && n <= 0xD) || n == 0x20 || n == 0x85 || n == 0xA0 || n == 0x1680 || (n >= 0x2000
        && n <= 0x200A) || n == 0x2028 || n == 0x2029 || n == 0x202F || n == 0x205F || n == 0x3000
}

/// `t` is `s` without its leading and trailing white space.
pub open spec fn is_trimmed(s: Seq<char>, t: Seq<char>) -> bool {
    exists|from: int, to: int| #[trigger] trimmed_at(s, t, from, to)
}

/// `t` stands in `s` from `from` to `to`, with only white space around it and none at its ends.
pub open spec fn trimmed_at(s: Seq<char>, t: Seq<char>, from: int, to: int) -> bool {
    &&& 0 <= from <= to <= s.len()
    &&& t == s.subrange(from, to)
    &&& forall|i: int| 0 <= i < from ==> is_white_space(#[trigger] s[i])
    &&& forall|i: int| to <= i < s.len() ==> is_white_space(#[trigger] s[i])
    &&& from < to ==> !is_white_space(s[from]) && !is_white_space(s[to - 1])
}

/// The text of `s` without its leading and trailing white space.
pub open spec fn trimmed(s: Seq<char>) -> Seq<char> {
    choose|t: Seq<char>| is_trimmed(s, t)
}

/// White space can be trimmed from a text in one way only.
pub proof fn lemma_trimmed_unique(s: Seq<char>, t: Seq<char>)
    requires
        is_trimmed(s, t),
    ensures
        trimmed(s) == t,
{
    let u = trimmed(s);
    let (a, b) = choose|from: int, to: int| #[trigger] trimmed_at(s, t, from, to);
    let (c, d) = choose|from: int, to: int| #[trigger] trimmed_at(s, u, from, to);
    if a < b {
        assert(!is_white_space(s[a]));
        assert(!is_white_space(s[b - 1]));
        assert(c <= a && b <= d);
        assert(c < d);
        assert(!is_white_space(s[c]));
        assert(!is_white_space(s[d - 1]));
        assert(c == a && d == b);
    } else {
        if c < d {
            assert(!is_white_space(s[c]));
            assert(is_white_space(s[c]));
        }
        assert(t =~= u);
    }
}

/// Removes leading and trailing white space.
pub fn trim_text(s: &str) -> (r: String)
    ensures
        is_trimmed(s@, r@),
        r@ == trimmed(s@),
{
    let chars = to_chars(s);
    let mut from: usize = 0;
    while from < chars.len() && char_is_white_space(chars[from])
        invariant
            from <= chars@.len(),
            forall|i: int| 0 <= i < from ==> is_white_space(#[trigger] chars@[i]),
        decreases chars@.len() - from,
    {
        from = from + 1;
    }
    assert(from < chars@.len() ==> !is_white_space(chars@[from as int]));
    let mut to: usize = chars.len();
    while to > from && char_is_white_space(chars[to - 1])
        invariant
            from <= to <= chars@.len(),
            from < chars@.len() ==> !is_white_space(chars@[from as int]),
            forall|i: int| to <= i < chars@.len() ==> is_white_space(#[trigger] chars@[i]),
        decreases to,
    {
        to = to - 1;
    }
    let r = chars_to_string(&chars, from, to);
    assert(trimmed_at(s@, r@, from as int, to as int));
    proof {
        lemma_trimmed_unique(s@, r@);
    }
    r
}

/// The Unicode lowercase form of a text.
pub uninterp spec fn unicode_lower(s: Seq<char>) -> Seq<char>;

/// Calls `str::to_lowercase`; the contract names the result, which depends on the text alone. It says
/// further that the letters of an ASCII text become their lowercase forms, and that nothing else of it
/// changes.
#[verifier::external_body]
pub(crate) fn unicode_lowercase(s: &str) -> (r: String)
    ensures
        r@ == unicode_lower(s@),
        (forall|i: int| 0 <= i < s@.len() ==> (#[trigger] s@[i] as int) < 128) ==> r@ == ascii_lower(
            s@,
        ),
{
    s.to_lowercase()
}

/// Joins the pieces with `separator` between neighbours.
pub fn join_with(pieces: &Vec<String>, separator: &str) -> (r: String)
    ensures
        r@ == join_texts(texts(pieces@), separator@),
{
    let mut r = String::new();
    let mut i: usize = 0;
    while i < pieces.len()
        invariant
            i <= pieces@.len(),
            r@ == join_texts(texts(pieces@).take(i as int), separator@),
        decreases pieces@.len() - i,
    {
        let ghost head = texts(pieces@).take(i + 1);
        assert(head.drop_last() =~= texts(pieces@).take(i as int));
        if i > 0 {
            r.append(separator);
        }
        r.append(pieces[i].as_str());
        assert(r@ =~= join_texts(head, separator@));
        i = i + 1;
    }
    assert(texts(pieces@).take(i as int) =~= texts(pieces@));
    r
}

/// Whether `list` holds a string with the characters of `item`.
pub fn list_contains(list: &Vec<String>, item: &str) -> (r: bool)
    ensures
        r == texts(list@).contains(item@),
{
    let mut i: usize = 0;
    while i < list.len()
        invariant
            i <= list@.len(),
            forall|k: int| 0 <= k < i ==> texts(list@)[k] != item@,
        decreases list@.len() - i,
    {
        if same_text(list[i].as_str(), item) {
            assert(texts(list@)[i as int] == item@);
            return true;
        }
        i = i + 1;
    }
    false
}

/// A copy of a list of strings.
pub fn copy_list(list: &Vec<String>) -> (r: Vec<String>)
    ensures
        texts(r@) == texts(list@),
        r@ == list@,
{
    let mut r: Vec<String> = Vec::new();
    let mut i: usize = 0;
    while i < list.len()
        invariant
            i <= list@.len(),
            r@ == list@.take(i as int),
        decreases list@.len() - i,
    {
        r.push(list[i].clone());
        i = i + 1;
    }
    assert(r@ =~= list@);
    r
}

/// A copy of an optional string.
pub fn copy_opt(o: &Option<String>) -> (r: Option<String>)
    ensures
        r == *o,
        opt_text(r) == opt_text(*o),
{
    match o {
        Some(s) => Some(s.clone()),
        None => None,
    }
}

pub proof fn lemma_digit_char(d: int)
    requires
        0 <= d < 10,
    ensures
        is_digit(digit_char(d)),
        digit_value(digit_char(d)) == d,
{
}

/// Reading back a number's decimal notation gives the number.
pub proof fn lemma_decimal_round_trip(n: nat)
    ensures
        decimal(n).len() > 0,
        all_digits(decimal(n)),
        digits_value(decimal(n)) == n,
        parsed_unsigned(decimal(n), n) == Some(n),
    decreases n,
{
    if n < 10 {
        assert(decimal(n).drop_last() =~= Seq::<char>::empty());
        assert(digits_value(Seq::<char>::empty()) == 0);
    } else {
        lemma_decimal_round_trip(n / 10);
        assert(decimal(n).drop_last() =~= decimal(n / 10));
    }
    assert(is_digit(decimal(n)[0]));
    assert(unsigned_digits(decimal(n)) == decimal(n));
}

/// A piece without the separator splits into itself.
pub proof fn lemma_split_single(s: Seq<char>, separator: char)
    requires
        !s.contains(separator),
    ensures
        split_text(s, separator) == seq![s],
    decreases s.len(),
{
    if s.len() == 0 {
        assert(s =~= Seq::<char>::empty());
    } else {
        assert forall|i: int| 0 <= i < s.drop_last().len() implies s.drop_last()[i] != separator by {
            assert(s[i] != separator);
        }
        lemma_split_single(s.drop_last(), separator);
        assert(s.last() != separator);
        let pieces = split_text(s.drop_last(), separator);
        assert(pieces.drop_last() =~= Seq::<Seq<char>>::empty());
        assert(s.drop_last().push(s.last()) =~= s);
        assert(split_text(s, separator) =~= seq![s]);
    }
}

/// The last piece is what follows the last separator.
pub proof fn lemma_split_append(head: Seq<char>, separator: char, tail: Seq<char>)
    requires
        !tail.contains(separator),
    ensures
        split_text(head + seq![separator] + tail, separator) == split_text(head, separator).push(
            tail,
        ),
    decreases tail.len(),
{
    let s = head + seq![separator] + tail;
    if tail.len() == 0 {
        assert(s.drop_last() =~= head);
        assert(s.last() == separator);
        assert(tail =~= Seq::<char>::empty());
    } else {
        let rest = tail.drop_last();
        assert forall|i: int| 0 <= i < rest.len() implies rest[i] != separator by {
            assert(tail[i] != separator);
        }
        lemma_split_append(head, separator, rest);
        assert(s.drop_last() =~= head + seq![separator] + rest);
        assert(s.last() == tail.last());
        assert(tail.last() != separator);
        let pieces = split_text(s.drop_last(), separator);
        assert(pieces.drop_last() =~= split_text(head, separator));
        assert(rest.push(tail.last()) =~= tail);
    }
}

/// Numbers padded to two digits read back as themselves.
pub proof fn lemma_padded_two_round_trip(n: nat, limit: nat)
    requires
        n <= limit,
    ensures
        all_digits(padded_two(n)),
        padded_two(n).len() >= 2,
        n < 100 ==> padded_two(n).len() == 2,
        digits_value(padded_two(n)) == n,
        parsed_unsigned(padded_two(n), limit) == Some(n),
        !padded_two(n).contains(':'),
{
    lemma_decimal_round_trip(n);
    let s = padded_two(n);
    if n < 10 {
        assert(s =~= seq!['0', digit_char(n as int)]);
        assert(s.drop_last() =~= seq!['0']);
        assert(seq!['0'].drop_last() =~= Seq::<char>::empty());
        assert(digits_value(Seq::<char>::empty()) == 0);
        assert(digits_value(seq!['0']) == 0);
        lemma_digit_char(n as int);
    } else {
        lemma_decimal_round_trip(n / 10);
        if n < 100 {
            assert(decimal(n / 10).len() == 1);
        }
    }
    assert(is_digit(s[0]));
    assert(unsigned_digits(s) == s);
    assert forall|i: int| 0 <= i < s.len() implies s[i] != ':' by {
        assert(is_digit(s[i]));
    }
}

} // verus!
