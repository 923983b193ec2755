//! Times and sizes as text.

use crate::text::{
    all_digits, concat3, decimal, decimal_text, digit_value, digits_value, is_digit, is_trimmed,
    lemma_padded_two_round_trip, lemma_split_append, lemma_split_single, lemma_trimmed_unique,
    padded_two, padded_two_text, parse_unsigned, parsed_unsigned, split_on, split_text, texts,
    to_chars, trim_text, trimmed, trimmed_at,
};
use crate::time::{smaller, Duration};
use vstd::prelude::*;

verus! {

/// The whole seconds of a span.
pub open spec fn whole_secs(d: Duration) -> nat {
    smaller(d.nanos as int / 1_000_000_000, u64::MAX as int) as nat
}

/// `MM:SS` below an hour, `HH:MM:SS` from there on, each part with at least two digits.
pub open spec fn clock_text(secs: nat) -> Seq<char> {
    let tail = padded_two(secs % 3600 / 60) + ":"@ + padded_two(secs % 60);
    if secs / 3600 > 0 {
        padded_two(secs / 3600) + ":"@ + tail
    } else {
        tail
    }
}

/// As `clock_text`, with the hours unpadded.
pub open spec fn short_clock_text(secs: nat) -> Seq<char> {
    let tail = padded_two(secs % 3600 / 60) + ":"@ + padded_two(secs % 60);
    if secs / 3600 > 0 {
        decimal(secs / 3600) + ":"@ + tail
    } else {
        tail
    }
}

/// `HH:MM:SS.CC`, down to hundredths of a second.
pub open spec fn fine_clock_text(d: Duration) -> Seq<char> {
    let hundredths = d.nanos as nat / 1_000_000 / 10;
    let secs = hundredths / 100;
    padded_two(secs / 3600) + ":"@ + padded_two(secs % 3600 / 60) + ":"@ + padded_two(secs % 60)
        + "."@ + padded_two(hundredths % 100)
}

fn minutes_and_seconds(total: u64) -> (r: String)
    ensures
        r@ == padded_two(total as nat % 3600 / 60) + ":"@ + padded_two(total as nat % 60),
{
    let minutes = padded_two_text((total % 3600 / 60) as u128);
    let seconds = padded_two_text((total % 60) as u128);
    concat3(minutes.as_str(), ":", seconds.as_str())
}

/// The text of a trim time.
pub fn format_trim_time(duration: Duration) -> (r: String)
    ensures
        r@ == clock_text(whole_secs(duration)),
{
    let total: u64 = duration.as_secs();
    let tail = minutes_and_seconds(total);
    if total / 3600 == 0 {
        tail
    } else {
        let hours = padded_two_text((total / 3600) as u128);
        let r = concat3(hours.as_str(), ":", tail.as_str());
        r
    }
}

/// The text of a stored trim time.
pub fn format_duration(duration: Duration) -> (r: String)
    ensures
        r@ == clock_text(whole_secs(duration)),
{
    format_trim_time(duration)
}

/// The text of a playing time.
pub fn format_clock(duration: Duration) -> (r: String)
    ensures
        r@ == short_clock_text(whole_secs(duration)),
{
    let total: u64 = duration.as_secs();
    let tail = minutes_and_seconds(total);
    if total / 3600 > 0 {
        let hours = decimal_text((total / 3600) as u128);
        concat3(hours.as_str(), ":", tail.as_str())
    } else {
        tail
    }
}

/// The text of a position in the running pass.
pub fn format_ffmpeg_progress_clock(duration: Duration) -> (r: String)
    ensures
        r@ == fine_clock_text(duration),
{
    let hundredths: u128 = duration.as_millis() / 10;
    let secs: u128 = hundredths / 100;
    let mut r = padded_two_text(secs / 3600);
    r.append(":");
    r.append(padded_two_text(secs % 3600 / 60).as_str());
    r.append(":");
    r.append(padded_two_text(secs % 60).as_str());
    r.append(".");
    r.append(padded_two_text(hundredths % 100).as_str());
    r
}

/// Why a trim time is not one.
#[derive(Debug, Clone, Copy, PartialEq, Eq, Structural)]
pub enum TrimTimeError {
    Format,
    OutOfRange,
}

pub open spec fn trim_time_error_text(e: TrimTimeError) -> Seq<char> {
    match e {
        TrimTimeError::Format => "use MM:SS or HH:MM:SS"@,
        TrimTimeError::OutOfRange => "minutes and seconds must be between 00 and 59"@,
    }
}

impl TrimTimeError {
    pub fn message(self) -> (r: &'static str)
        ensures
            r@ == trim_time_error_text(self),
    {
        match self {
            TrimTimeError::Format => "use MM:SS or HH:MM:SS",
            TrimTimeError::OutOfRange => "minutes and seconds must be between 00 and 59",
        }
    }
}

/// Exactly two digits.
pub open spec fn is_two_digits(s: Seq<char>) -> bool {
    s.len() == 2 && all_digits(s)
}

/// Two or three parts of two digits each.
pub open spec fn has_trim_shape(parts: Seq<Seq<char>>) -> bool {
    (parts.len() == 2 || parts.len() == 3) && forall|i: int|
        0 <= i < parts.len() ==> is_two_digits(#[trigger] parts[i])
}

/// What a trim time entry means, in seconds.
pub open spec fn trim_seconds(entry: Seq<char>) -> Result<nat, TrimTimeError> {
    let parts = split_text(trimmed(entry), ':');
    if !has_trim_shape(parts) {
        Err(TrimTimeError::Format)
    } else {
        let n = parts.len();
        let hours = if n == 3 {
            digits_value(parts[0])
        } else {
            0
        };
        let minutes = digits_value(parts[n - 2]);
        let seconds = digits_value(parts[n - 1]);
        if minutes >= 60 || seconds >= 60 {
            Err(TrimTimeError::OutOfRange)
        } else {
            Ok(hours * 3600 + minutes * 60 + seconds)
        }
    }
}

/// Reads two digits.
fn two_digits(s: &str) -> (r: Option<u64>)
    ensures
        match r {
            Some(n) => is_two_digits(s@) && n == digits_value(s@) && n < 100,
            None => !is_two_digits(s@),
        },
{
    let chars = to_chars(s);
    if chars.len() != 2 {
        return None;
    }
    let a = chars[0];
    let b = chars[1];
    if !(a >= '0' && a <= '9') {
        assert(!is_digit(s@[0]));
        return None;
    }
    if !(b >= '0' && b <= '9') {
        assert(!is_digit(s@[1]));
        return None;
    }
    proof {
        assert(s@.drop_last().drop_last() =~= Seq::<char>::empty());
        assert(digits_value(s@.drop_last().drop_last()) == 0);
        assert(digits_value(s@.drop_last()) == a as int - 48);
    }
    Some(((a as u64) - 48) * 10 + ((b as u64) - 48))
}

/// Reads a trim time entry: `MM:SS` or `HH:MM:SS`, with white space around it ignored.
pub fn parse_trim_time(value: &str) -> (r: Result<Duration, TrimTimeError>)
    ensures
        match trim_seconds(value@) {
            Ok(secs) => r == Ok::<Duration, TrimTimeError>(
                (Duration { nanos: (secs * 1_000_000_000) as u128 }),
            ),
            Err(e) => r == Err::<Duration, TrimTimeError>(e),
        },
{
    let entry = trim_text(value);
    let parts = split_on(entry.as_str(), ':');
    let ghost pieces = split_text(trimmed(value@), ':');
    assert(texts(parts@) == pieces);
    let count: usize = parts.len();
    assert(count == pieces.len());
    if count != 2 && count != 3 {
        return Err(TrimTimeError::Format);
    }
    assert(forall|i: int| 0 <= i < count ==> pieces[i] == (#[trigger] parts@[i])@);
    let mut hours: u64 = 0;
    if count == 3 {
        match two_digits(parts[0].as_str()) {
            Some(n) => {
                hours = n;
            },
            None => {
                assert(!is_two_digits(pieces[0]));
                return Err(TrimTimeError::Format);
            },
        }
    }
    let minutes: u64 = match two_digits(parts[count - 2].as_str()) {
        Some(n) => n,
        None => {
            assert(!is_two_digits(pieces[count - 2]));
            return Err(TrimTimeError::Format);
        },
    };
    let seconds: u64 = match two_digits(parts[count - 1].as_str()) {
        Some(n) => n,
        None => {
            assert(!is_two_digits(pieces[count - 1]));
            return Err(TrimTimeError::Format);
        },
    };
    assert(has_trim_shape(pieces));
    if minutes >= 60 || seconds >= 60 {
        return Err(TrimTimeError::OutOfRange);
    }
    Ok(Duration::from_secs(hours * 3600 + minutes * 60 + seconds))
}

/// The parts of a stored time, each an unsigned number.
pub open spec fn stored_parts(s: Seq<char>) -> Seq<Option<nat>> {
    split_text(s, ':').map_values(|p: Seq<char>| parsed_unsigned(p, u64::MAX as nat))
}

/// What a stored time means, in seconds: seconds, minutes and seconds, or hours, minutes, and
/// seconds, where only the first part may be 60 or more.
pub open spec fn stored_seconds(s: Seq<char>) -> Option<nat> {
    let p = stored_parts(s);
    if s.len() == 0 {
        None
    } else if p.len() == 1 && p[0] is Some {
        p[0]
    } else if p.len() == 2 && p[0] is Some && p[1] is Some && p[1]->0 < 60 {
        fitting(p[0]->0 * 60 + p[1]->0)
    } else if p.len() == 3 && p[0] is Some && p[1] is Some && p[2] is Some && p[1]->0 < 60
        && p[2]->0 < 60 {
        fitting(p[0]->0 * 3600 + p[1]->0 * 60 + p[2]->0)
    } else {
        None
    }
}

/// A count of seconds that fits in 64 bits.
pub open spec fn fitting(secs: nat) -> Option<nat> {
    if secs <= u64::MAX {
        Some(secs)
    } else {
        None
    }
}

/// Reads a stored time.
pub fn parse_duration(value: &str) -> (r: Option<Duration>)
    ensures
        match stored_seconds(value@) {
            Some(secs) => r == Some(Duration { nanos: (secs * 1_000_000_000) as u128 }),
            None => r is None,
        },
{
    if value.unicode_len() == 0 {
        return None;
    }
    let parts = split_on(value, ':');
    let ghost pieces = split_text(value@, ':');
    assert(texts(parts@) == pieces);
    let count: usize = parts.len();
    assert(count == pieces.len());
    if count < 1 || count > 3 {
        return None;
    }
    let limit: u128 = 18_446_744_073_709_551_615;
    let mut values: Vec<u128> = Vec::new();
    let mut i: usize = 0;
    while i < count
        invariant
            i <= count,
            count == parts@.len(),
            count == pieces.len(),
            limit == u64::MAX,
            values@.len() == i,
            texts(parts@) == pieces,
            pieces == split_text(value@, ':'),
            value@.len() > 0,
            count <= 3,
            forall|k: int|
                0 <= k < i ==> (#[trigger] stored_parts(value@)[k]) == Some(values@[k] as nat)
                    && values@[k] <= u64::MAX,
        decreases count - i,
    {
        assert(pieces[i as int] == parts@[i as int]@);
        match parse_unsigned(parts[i].as_str(), limit) {
            Some(n) => {
                values.push(n);
            },
            None => {
                assert(stored_parts(value@)[i as int] is None);
                return None;
            },
        }
        i = i + 1;
    }
    assert(stored_parts(value@).len() == count);
    let secs: u128 = if count == 1 {
        assert(stored_parts(value@)[0] is Some);
        values[0]
    } else if count == 2 {
        assert(stored_parts(value@)[0] is Some && stored_parts(value@)[1] is Some);
        if values[1] >= 60 {
            return None;
        }
        values[0] * 60 + values[1]
    } else {
        assert(stored_parts(value@)[0] is Some && stored_parts(value@)[1] is Some
            && stored_parts(value@)[2] is Some);
        if values[1] >= 60 || values[2] >= 60 {
            return None;
        }
        values[0] * 3600 + values[1] * 60 + values[2]
    };
    if secs <= limit {
        Some(Duration::from_secs(secs as u64))
    } else {
        None
    }
}

proof fn lemma_clock_pieces(secs: nat)
    requires
        secs <= u64::MAX,
    ensures
        split_text(clock_text(secs), ':') == if secs / 3600 > 0 {
            seq![padded_two(secs / 3600), padded_two(secs % 3600 / 60), padded_two(secs % 60)]
        } else {
            seq![padded_two(secs % 3600 / 60), padded_two(secs % 60)]
        },
{
    reveal_strlit(":");
    let colon = ":"@;
    assert(colon =~= seq![':']);
    let h = padded_two(secs / 3600);
    let m = padded_two(secs % 3600 / 60);
    let s = padded_two(secs % 60);
    lemma_padded_two_round_trip(secs / 3600, u64::MAX as nat);
    lemma_padded_two_round_trip(secs % 3600 / 60, u64::MAX as nat);
    lemma_padded_two_round_trip(secs % 60, u64::MAX as nat);
    if secs / 3600 > 0 {
        lemma_split_single(h, ':');
        lemma_split_append(h, ':', m);
        lemma_split_append(h + seq![':'] + m, ':', s);
        assert(clock_text(secs) =~= h + seq![':'] + m + seq![':'] + s);
        assert(seq![h].push(m).push(s) =~= seq![h, m, s]);
    } else {
        lemma_split_single(m, ':');
        lemma_split_append(m, ':', s);
        assert(clock_text(secs) =~= m + seq![':'] + s);
        assert(seq![m].push(s) =~= seq![m, s]);
    }
}

/// A stored time reads back as the whole seconds that were written.
pub proof fn law_stored_time_round_trip(secs: nat)
    requires
        secs <= u64::MAX,
    ensures
        stored_seconds(clock_text(secs)) == Some(secs),
{
    lemma_clock_pieces(secs);
    let text = clock_text(secs);
    lemma_padded_two_round_trip(secs / 3600, u64::MAX as nat);
    lemma_padded_two_round_trip(secs % 3600 / 60, u64::MAX as nat);
    lemma_padded_two_round_trip(secs % 60, u64::MAX as nat);
    lemma_clock_arithmetic(secs);
    let p = stored_parts(text);
    assert(text.len() > 0);
    if secs / 3600 > 0 {
        assert(p.len() == 3);
        assert(p[0] == Some(secs / 3600));
        assert(p[1] == Some(secs % 3600 / 60));
        assert(p[2] == Some(secs % 60));
    } else {
        assert(p.len() == 2);
        assert(p[0] == Some(secs % 3600 / 60));
        assert(p[1] == Some(secs % 60));
    }
}

proof fn lemma_clock_is_trimmed(secs: nat)
    requires
        secs <= u64::MAX,
    ensures
        is_trimmed(clock_text(secs), clock_text(secs)),
{
    let text = clock_text(secs);
    let h = padded_two(secs / 3600);
    let m = padded_two(secs % 3600 / 60);
    let s = padded_two(secs % 60);
    lemma_padded_two_round_trip(secs / 3600, u64::MAX as nat);
    lemma_padded_two_round_trip(secs % 3600 / 60, u64::MAX as nat);
    lemma_padded_two_round_trip(secs % 60, u64::MAX as nat);
    assert(text.subrange(0, text.len() as int) =~= text);
    assert(text[text.len() - 1] == s[s.len() - 1]);
    assert(is_digit(s[s.len() - 1]));
    assert(text[0] == if secs / 3600 > 0 {
        h[0]
    } else {
        m[0]
    });
    assert(is_digit(h[0]) && is_digit(m[0]));
    assert(trimmed_at(text, text, 0, text.len() as int));
}

proof fn lemma_two_digits(n: nat)
    requires
        n < 100,
    ensures
        is_two_digits(padded_two(n)),
        digits_value(padded_two(n)) == n,
{
    lemma_padded_two_round_trip(n, 100);
}

/// What an entry means whose parts are known.
proof fn lemma_trim_value(entry: Seq<char>, parts: Seq<Seq<char>>, hours: nat, minutes: nat, seconds: nat)
    requires
        split_text(trimmed(entry), ':') == parts,
        parts.len() == 3 || (parts.len() == 2 && hours == 0),
        forall|i: int| 0 <= i < parts.len() ==> is_two_digits(#[trigger] parts[i]),
        parts.len() == 3 ==> digits_value(parts[0]) == hours,
        digits_value(parts[parts.len() - 2]) == minutes,
        digits_value(parts[parts.len() - 1]) == seconds,
        minutes < 60,
        seconds < 60,
    ensures
        trim_seconds(entry) == Ok::<nat, TrimTimeError>(hours * 3600 + minutes * 60 + seconds),
{
    assert(has_trim_shape(parts));
}

/// A trim time below a hundred hours reads back as the whole seconds that were shown.
#[verifier::spinoff_prover]
pub proof fn law_trim_time_round_trip(secs: nat)
    requires
        secs < 360_000,
    ensures
        trim_seconds(clock_text(secs)) == Ok::<nat, TrimTimeError>(secs),
{
    let text = clock_text(secs);
    let hours = secs / 3600;
    let minutes = secs % 3600 / 60;
    let seconds = secs % 60;
    let parts = if hours > 0 {
        seq![padded_two(hours), padded_two(minutes), padded_two(seconds)]
    } else {
        seq![padded_two(minutes), padded_two(seconds)]
    };
    assert(split_text(trimmed(text), ':') == parts) by {
        lemma_clock_is_trimmed(secs);
        lemma_trimmed_unique(text, text);
        lemma_clock_pieces(secs);
    }
    lemma_clock_arithmetic(secs);
    lemma_two_digits(hours);
    lemma_two_digits(minutes);
    lemma_two_digits(seconds);
    lemma_trim_value(text, parts, hours, minutes, seconds);
}

/// An entry whose first part has not two digits is refused.
proof fn lemma_trim_refused(entry: Seq<char>, parts: Seq<Seq<char>>)
    requires
        split_text(trimmed(entry), ':') == parts,
        parts.len() > 0,
        !is_two_digits(parts[0]),
    ensures
        trim_seconds(entry) == Err::<nat, TrimTimeError>(TrimTimeError::Format),
{
}

proof fn lemma_more_than_two_digits(n: nat)
    requires
        n >= 100,
    ensures
        !is_two_digits(padded_two(n)),
{
    let s = padded_two(n);
    lemma_padded_two_round_trip(n, n);
    if s.len() == 2 {
        assert(is_digit(s[0]) && is_digit(s[1]));
        assert(digits_value(s.drop_last().drop_last()) == 0);
        assert(digits_value(s.drop_last()) == digit_value(s[0]));
        assert(digits_value(s) == 10 * digit_value(s[0]) + digit_value(s[1]));
    }
}

/// A trim time of a hundred hours or more is shown with three digits or more for its hours, and is
/// refused when it is entered.
#[verifier::spinoff_prover]
pub proof fn law_long_trim_times_are_refused(secs: nat)
    requires
        360_000 <= secs <= u64::MAX,
    ensures
        trim_seconds(clock_text(secs)) == Err::<nat, TrimTimeError>(TrimTimeError::Format),
{
    let text = clock_text(secs);
    let hours = secs / 3600;
    let parts = seq![padded_two(hours), padded_two(secs % 3600 / 60), padded_two(secs % 60)];
    assert(hours >= 100);
    assert(split_text(trimmed(text), ':') == parts) by {
        lemma_clock_is_trimmed(secs);
        lemma_trimmed_unique(text, text);
        lemma_clock_pieces(secs);
    }
    lemma_more_than_two_digits(hours);
    lemma_trim_refused(text, parts);
}

proof fn lemma_clock_arithmetic(secs: nat)
    ensures
        secs / 3600 * 3600 + secs % 3600 / 60 * 60 + secs % 60 == secs,
        secs % 3600 / 60 < 60,
{
    let rest = secs % 3600;
    assert(secs == secs / 3600 * 3600 + rest);
    assert(rest == rest / 60 * 60 + rest % 60);
    assert(rest % 60 == secs % 60) by {
        assert(secs == 60 * (60 * (secs / 3600)) + rest);
        vstd::arithmetic::div_mod::lemma_mod_multiples_vanish(
            60 * (secs / 3600) as int,
            rest as int,
            60,
        );
    }
}

/// Hundredths of a mebibyte, rounded to the nearest, ties to even.
pub open spec fn size_hundredths(bytes: nat) -> nat {
    let whole = bytes * 100 / 1_048_576;
    let rest = bytes * 100 % 1_048_576;
    if rest * 2 > 1_048_576 || (rest * 2 == 1_048_576 && whole % 2 == 1) {
        whole + 1
    } else {
        whole
    }
}

/// A size in mebibytes with two decimals, or a dash for an unknown size.
pub open spec fn size_text(size: Option<u64>) -> Seq<char> {
    match size {
        Some(bytes) => {
            let h = size_hundredths(bytes as nat);
            decimal(h / 100) + "."@ + padded_two(h % 100) + " MB"@
        },
        None => "-"@,
    }
}

pub fn format_size_mb(size: Option<u64>) -> (r: String)
    ensures
        r@ == size_text(size),
{
    match size {
        Some(bytes) => {
            let scaled: u128 = (bytes as u128) * 100;
            let mut hundredths: u128 = scaled / 1_048_576;
            let rest: u128 = scaled % 1_048_576;
            if rest * 2 > 1_048_576 || (rest * 2 == 1_048_576 && hundredths % 2 == 1) {
                hundredths = hundredths + 1;
            }
            let whole = decimal_text(hundredths / 100);
            let part = padded_two_text(hundredths % 100);
            let mut r = concat3(whole.as_str(), ".", part.as_str());
            r.append(" MB");
            r
        },
        None => "-".to_owned(),
    }
}

/// The rounded size is off by at most half of a hundredth.
pub proof fn law_size_is_rounded_to_nearest(bytes: nat)
    ensures
        2 * (size_hundredths(bytes) * 1_048_576) <= 2 * (bytes * 100) + 1_048_576,
        2 * (bytes * 100) <= 2 * (size_hundredths(bytes) * 1_048_576) + 1_048_576,
{
}

pub open spec fn resolution_text(width: Option<u32>, height: Option<u32>) -> Seq<char> {
    match (width, height) {
        (Some(w), Some(h)) => if w > 0 && h > 0 {
            decimal(w as nat) + "x"@ + decimal(h as nat)
        } else {
            "-"@
        },
        _ => "-"@,
    }
}

pub fn format_resolution(width: Option<u32>, height: Option<u32>) -> (r: String)
    ensures
        r@ == resolution_text(width, height),
{
    match (width, height) {
        (Some(w), Some(h)) => {
            if w > 0 && h > 0 {
                let left = decimal_text(w as u128);
                let right = decimal_text(h as u128);
                concat3(left.as_str(), "x", right.as_str())
            } else {
                "-".to_owned()
            }
        },
        _ => "-".to_owned(),
    }
}

/// `noun` with its count, and an `s` for any count but one.
pub open spec fn counted(count: nat, noun: Seq<char>) -> Seq<char> {
    decimal(count) + " "@ + noun + if count == 1 {
        Seq::empty()
    } else {
        "s"@
    }
}

pub fn counted_text(count: usize, noun: &str) -> (r: String)
    ensures
        r@ == counted(count as nat, noun@),
{
    let number = decimal_text(count as u128);
    let mut r = concat3(number.as_str(), " ", noun);
    if count != 1 {
        r.append("s");
        r
    } else {
        assert(r@ =~= counted(count as nat, noun@));
        r
    }
}

} // verus!
