//! Rules on the names of files and folders.

use crate::encoding::slice_texts;
use crate::output_naming::{lemma_name_parts, stabilized_path, text_or};
use crate::paths::{
    extension, file_name, file_stem, lemma_after_last_of_tail, lemma_new_name_is_last, path_extension,
    path_file_name, path_file_stem,
};
use crate::text::{
    after_last, all_digits, ascii_lower, chars_occur_at, chars_to_string, concat3, contains_text,
    decimal, decimal_text, eq_ignoring_ascii_case, find_text, has_prefix, has_suffix, is_digit,
    lemma_decimal_round_trip, occurs_at, parse_unsigned, parsed_unsigned, same_text, text_ends_with,
    text_starts_with, to_chars,
};
use vstd::prelude::*;

verus! {

/// Whether a text is one of the names, up to the case of ASCII letters.
pub open spec fn is_one_of(s: Seq<char>, names: Seq<Seq<char>>) -> bool {
    exists|i: int| 0 <= i < names.len() && ascii_lower(#[trigger] names[i]) == ascii_lower(s)
}

pub open spec fn video_extensions() -> Seq<Seq<char>> {
    seq!["mkv"@, "mp4"@, "mov"@, "avi"@, "wmv"@, "flv"@, "rm"@, "rmvb"@]
}

pub open spec fn photo_extensions() -> Seq<Seq<char>> {
    seq!["jpg"@, "jpeg"@, "png"@, "webp"@, "bmp"@, "tif"@, "tiff"@]
}

/// A video by its name; names that start with `._` hold metadata of other files.
pub open spec fn is_video_name(p: Seq<char>) -> bool {
    &&& !(file_name(p) matches Some(name) && has_prefix(name, "._"@))
    &&& extension(p) matches Some(ext) && is_one_of(ext, video_extensions())
}

/// A photo by its name.
pub open spec fn is_photo_name(p: Seq<char>) -> bool {
    extension(p) matches Some(ext) && is_one_of(ext, photo_extensions())
}

/// The suffixes that mark folders of converted files.
pub open spec fn converted_suffixes() -> Seq<Seq<char>> {
    seq![
        "(x265)"@,
        "(x264)"@,
        "(libsvtav1)"@,
        "(hevc_nvenc)"@,
        "(av1_nvenc)"@,
        "(h264_nvenc)"@,
        "(h264_videotoolbox)"@,
        "(hevc_videotoolbox)"@,
        "(av1_videotoolbox)"@,
    ]
}

/// A folder that holds originals, subtitles, or converted files.
pub open spec fn is_skipped_folder(p: Seq<char>) -> bool {
    match file_name(p) {
        Some(name) => name == "original"@ || name == "chs"@ || exists|i: int|
            0 <= i < converted_suffixes().len() && has_suffix(
                name,
                #[trigger] converted_suffixes()[i],
            ),
        None => false,
    }
}

/// A file that stabilization made: its stem ends in `_stabilized`, with or without a number.
pub open spec fn is_stabilized_name(p: Seq<char>) -> bool {
    match file_stem(p) {
        Some(stem) => has_suffix(stem, "_stabilized"@) || exists|k: int| #[trigger]
            is_numbered_export(stem, k),
        None => false,
    }
}

/// Behind `k` characters stand `_stabilized_` and a number.
pub open spec fn is_numbered_export(stem: Seq<char>, k: int) -> bool {
    let end = k + "_stabilized_"@.len();
    k > 0 && occurs_at(stem, "_stabilized_"@, k) && end < stem.len() && all_digits(stem.skip(end))
}

/// Whether a text is one of the names, up to the case of ASCII letters.
fn one_of(s: &str, names: &[&str]) -> (r: bool)
    ensures
        r == is_one_of(s@, slice_texts(names@)),
{
    let mut i: usize = 0;
    while i < names.len()
        invariant
            i <= names@.len(),
            forall|k: int|
                0 <= k < i ==> ascii_lower(
                    #[trigger] slice_texts(names@)[k],
                ) != ascii_lower(s@),
        decreases names@.len() - i,
    {
        if eq_ignoring_ascii_case(names[i], s) {
            assert(slice_texts(names@)[i as int] == names@[i as int]@);
            return true;
        }
        i = i + 1;
    }
    false
}

/// Whether a path names a video.
pub fn has_video_filename(path: &str) -> (r: bool)
    ensures
        r == is_video_name(path@),
{
    if let Some(name) = path_file_name(path) {
        if text_starts_with(name.as_str(), "._") {
            return false;
        }
    }
    match path_extension(path) {
        Some(ext) => {
            let names: [&str; 8] = ["mkv", "mp4", "mov", "avi", "wmv", "flv", "rm", "rmvb"];
            assert(slice_texts(names@) =~= video_extensions());
            one_of(ext.as_str(), names.as_slice())
        },
        None => false,
    }
}

/// Whether a path names a photo.
pub fn has_photo_filename(path: &str) -> (r: bool)
    ensures
        r == is_photo_name(path@),
{
    match path_extension(path) {
        Some(ext) => {
            let names: [&str; 7] = ["jpg", "jpeg", "png", "webp", "bmp", "tif", "tiff"];
            assert(slice_texts(names@) =~= photo_extensions());
            one_of(ext.as_str(), names.as_slice())
        },
        None => false,
    }
}

/// The suffixes that mark folders of converted files.
pub fn converted_directory_suffixes() -> (r: [&'static str; 9])
    ensures
        slice_texts(r@) == converted_suffixes(),
{
    let r: [&'static str; 9] = [
        "(x265)",
        "(x264)",
        "(libsvtav1)",
        "(hevc_nvenc)",
        "(av1_nvenc)",
        "(h264_nvenc)",
        "(h264_videotoolbox)",
        "(hevc_videotoolbox)",
        "(av1_videotoolbox)",
    ];
    assert(slice_texts(r@) =~= converted_suffixes());
    r
}

/// Whether a folder holds originals, subtitles, or converted files.
pub fn is_skipped_conversion_directory(path: &str) -> (r: bool)
    ensures
        r == is_skipped_folder(path@),
{
    let name = match path_file_name(path) {
        Some(name) => name,
        None => {
            return false;
        },
    };
    if same_text(name.as_str(), "original") || same_text(name.as_str(), "chs") {
        return true;
    }
    let suffixes = converted_directory_suffixes();
    let mut i: usize = 0;
    while i < 9
        invariant
            i <= 9,
            file_name(path@) == Some(name@),
            slice_texts(suffixes@) == converted_suffixes(),
            forall|k: int| 0 <= k < i ==> !has_suffix(name@, #[trigger] converted_suffixes()[k]),
        decreases 9 - i,
    {
        assert(suffixes@[i as int]@ == slice_texts(suffixes@)[i as int]);
        if text_ends_with(name.as_str(), suffixes[i]) {
            assert(has_suffix(name@, converted_suffixes()[i as int]));
            return true;
        }
        i = i + 1;
    }
    false
}

/// Whether stabilization made a file, by its name.
pub fn is_stabilized_export(path: &str) -> (r: bool)
    ensures
        r == is_stabilized_name(path@),
{
    let stem = match path_file_stem(path) {
        Some(stem) => stem,
        None => {
            return false;
        },
    };
    if text_ends_with(stem.as_str(), "_stabilized") {
        return true;
    }
    let chars = to_chars(stem.as_str());
    let marker = to_chars("_stabilized_");
    let mut start: usize = chars.len();
    while start > 0 && chars[start - 1] >= '0' && chars[start - 1] <= '9'
        invariant
            start <= chars@.len(),
            chars@ == stem@,
            forall|i: int| start <= i < chars@.len() ==> is_digit(#[trigger] chars@[i]),
        decreases start,
    {
        start = start - 1;
    }
    let found = start < chars.len() && start > marker.len() && chars_occur_at(
        &chars,
        &marker,
        start - marker.len(),
    );
    proof {
        let n = "_stabilized_"@.len();
        if found {
            let k = start - n;
            assert forall|i: int| 0 <= i < stem@.skip(start as int).len() implies is_digit(
                #[trigger] stem@.skip(start as int)[i],
            ) by {
                assert(is_digit(chars@[start + i]));
            }
            assert(is_numbered_export(stem@, k));
        } else if exists|k: int| #[trigger] is_numbered_export(stem@, k) {
            let k = choose|k: int| #[trigger] is_numbered_export(stem@, k);
            reveal_strlit("_stabilized_");
            assert(n == 12);
            let end = k + 12;
            let tail = stem@.skip(end);
            assert(is_digit(tail[0]));
            if start > end {
                assert(is_digit(tail[start - 1 - end]));
                assert(tail[start - 1 - end] == chars@[start - 1]);
            }
            if start < end {
                assert(is_digit(chars@[end - 1]));
                assert(stem@.subrange(k, end)[11] == "_stabilized_"@[11]);
                assert("_stabilized_"@[11] == '_');
            }
            assert(start == end);
        }
    }
    found
}

/// The marker of unfinished output files.
pub open spec fn temporary_markers() -> Seq<Seq<char>> {
    seq![".videoferry-stage-"@, ".videoferry-previous-"@, ".videoferry-partial-"@]
}

/// The first place where `part` stands in `s`.
pub open spec fn is_first_occurrence(s: Seq<char>, part: Seq<char>, at: int) -> bool {
    occurs_at(s, part, at) && forall|k: int| 0 <= k < at ==> !#[trigger] occurs_at(s, part, k)
}

/// The text before the first dash.
pub open spec fn before_dash(s: Seq<char>) -> Seq<char>
    decreases s.len(),
{
    if s.len() == 0 || s[0] == '-' {
        Seq::empty()
    } else {
        seq![s[0]] + before_dash(s.drop_first())
    }
}

/// The process number behind the first place of a marker.
pub open spec fn process_after(name: Seq<char>, marker: Seq<char>) -> Option<nat> {
    if contains_text(name, marker) {
        let at = choose|at: int| is_first_occurrence(name, marker, at);
        parsed_unsigned(before_dash(name.skip(at + marker.len())), u32::MAX as nat)
    } else {
        None
    }
}

/// The process that an unfinished file belongs to, by its name.
pub open spec fn temporary_owner(name: Seq<char>) -> Option<nat> {
    let m = temporary_markers();
    if process_after(name, m[0]) is Some {
        process_after(name, m[0])
    } else if process_after(name, m[1]) is Some {
        process_after(name, m[1])
    } else {
        process_after(name, m[2])
    }
}

fn dash_position(chars: &Vec<char>, from: usize) -> (r: usize)
    requires
        from <= chars@.len(),
    ensures
        from <= r <= chars@.len(),
        chars@.subrange(from as int, r as int) == before_dash(chars@.skip(from as int)),
{
    let mut r: usize = from;
    assert(chars@.subrange(from as int, r as int) + before_dash(chars@.skip(r as int))
        =~= before_dash(chars@.skip(from as int)));
    while r < chars.len() && chars[r] != '-'
        invariant
            from <= r <= chars@.len(),
            chars@.subrange(from as int, r as int) + before_dash(chars@.skip(r as int))
                == before_dash(chars@.skip(from as int)),
        decreases chars@.len() - r,
    {
        proof {
            let rest = chars@.skip(r as int);
            assert(rest[0] == chars@[r as int]);
            assert(rest.drop_first() =~= chars@.skip(r + 1));
            assert(chars@.subrange(from as int, r + 1) =~= chars@.subrange(from as int, r as int)
                + seq![chars@[r as int]]);
            assert(chars@.subrange(from as int, r + 1) + before_dash(chars@.skip(r + 1))
                =~= chars@.subrange(from as int, r as int) + before_dash(rest));
        }
        r = r + 1;
    }
    assert(before_dash(chars@.skip(r as int)) =~= Seq::<char>::empty());
    assert(chars@.subrange(from as int, r as int) =~= before_dash(chars@.skip(from as int)));
    r
}

fn process_behind(name: &str, marker: &str) -> (r: Option<u32>)
    ensures
        match r {
            Some(n) => process_after(name@, marker@) == Some(n as nat),
            None => process_after(name@, marker@) is None,
        },
{
    let at: usize = match find_text(name, marker) {
        Some(at) => at,
        None => {
            return None;
        },
    };
    let chars = to_chars(name);
    let length: usize = to_chars(marker).len();
    proof {
        assert(is_first_occurrence(name@, marker@, at as int));
        assert(contains_text(name@, marker@));
        let other = choose|k: int| is_first_occurrence(name@, marker@, k);
        assert(is_first_occurrence(name@, marker@, other));
        assert(other == at) by {
            if other < at {
                assert(!occurs_at(name@, marker@, other));
            }
            if at < other {
                assert(!occurs_at(name@, marker@, at as int));
            }
        }
    }
    assert(at + length <= chars.len());
    let from: usize = at + length;
    let to: usize = dash_position(&chars, from);
    let head = chars_to_string(&chars, from, to);
    match parse_unsigned(head.as_str(), 4_294_967_295) {
        Some(n) => Some(n as u32),
        None => None,
    }
}

/// The process that an unfinished file belongs to, by its name.
pub fn temporary_file_process_id(name: &str) -> (r: Option<u32>)
    ensures
        match r {
            Some(n) => temporary_owner(name@) == Some(n as nat),
            None => temporary_owner(name@) is None,
        },
{
    match process_behind(name, ".videoferry-stage-") {
        Some(n) => Some(n),
        None => match process_behind(name, ".videoferry-previous-") {
            Some(n) => Some(n),
            None => process_behind(name, ".videoferry-partial-"),
        },
    }
}

/// Whether cleaning up removes a file. `owner_is_running` tells of the process in its name.
pub fn is_stale_temporary_file(name: &str, current: u32, owner_is_running: bool) -> (r: bool)
    ensures
        r == match temporary_owner(name@) {
            Some(owner) => owner == current || !owner_is_running,
            None => false,
        },
{
    match temporary_file_process_id(name) {
        Some(owner) => owner == current || !owner_is_running,
        None => false,
    }
}

/// The name of an unfinished output file.
pub open spec fn staging_name(
    stem: Seq<char>,
    process: u32,
    task_id: Seq<char>,
    ext: Seq<char>,
) -> Seq<char> {
    stem + ".videoferry-stage-"@ + decimal(process as nat) + "-"@ + task_id + "."@ + ext
}

/// The name under which a replaced output waits.
pub open spec fn previous_name(name: Seq<char>, process: u32, task_id: Seq<char>) -> Seq<char> {
    name + ".videoferry-previous-"@ + decimal(process as nat) + "-"@ + task_id
}

pub fn staging_file_name(stem: &str, process: u32, task_id: &str, ext: &str) -> (r: String)
    ensures
        r@ == staging_name(stem@, process, task_id@, ext@),
{
    let number = decimal_text(process as u128);
    let mut r = concat3(stem, ".videoferry-stage-", number.as_str());
    r.append("-");
    r.append(task_id);
    r.append(".");
    r.append(ext);
    r
}

pub fn previous_file_name(name: &str, process: u32, task_id: &str) -> (r: String)
    ensures
        r@ == previous_name(name@, process, task_id@),
{
    let number = decimal_text(process as u128);
    let mut r = concat3(name, ".videoferry-previous-", number.as_str());
    r.append("-");
    r.append(task_id);
    r
}

proof fn lemma_before_dash(digits: Seq<char>, tail: Seq<char>)
    requires
        all_digits(digits),
    ensures
        before_dash(digits + "-"@ + tail) == digits,
    decreases digits.len(),
{
    reveal_strlit("-");
    let s = digits + "-"@ + tail;
    if digits.len() == 0 {
        assert(s[0] == '-');
        assert(digits =~= Seq::<char>::empty());
    } else {
        assert(is_digit(digits[0]));
        let rest = digits.drop_first();
        assert forall|i: int| 0 <= i < rest.len() implies is_digit(#[trigger] rest[i]) by {
            assert(is_digit(digits[i + 1]));
        }
        lemma_before_dash(rest, tail);
        assert(s.drop_first() =~= rest + "-"@ + tail);
        assert(seq![digits[0]] + rest =~= digits);
    }
}

/// The name of an unfinished output reports the process that writes it.
pub proof fn law_staging_name_reports_its_process(
    stem: Seq<char>,
    process: u32,
    task_id: Seq<char>,
    ext: Seq<char>,
)
    requires
        !contains_text(stem, ".videoferry-stage-"@),
    ensures
        temporary_owner(staging_name(stem, process, task_id, ext)) == Some(process as nat),
{
    let marker = ".videoferry-stage-"@;
    let name = staging_name(stem, process, task_id, ext);
    reveal_strlit(".videoferry-stage-");
    assert(marker.len() == 18);
    let digits = decimal(process as nat);
    let tail = task_id + "."@ + ext;
    assert(name =~= stem + marker + (digits + "-"@ + tail));
    assert(name.subrange(stem.len() as int, stem.len() as int + 18) =~= marker);
    assert(occurs_at(name, marker, stem.len() as int));
    assert forall|k: int| 0 <= k < stem.len() implies !#[trigger] occurs_at(name, marker, k) by {
        if occurs_at(name, marker, k) {
            if k + 18 <= stem.len() {
                assert(stem.subrange(k, k + 18) =~= name.subrange(k, k + 18));
                assert(occurs_at(stem, marker, k));
            } else {
                let j = stem.len() - k;
                assert(name.subrange(k, k + 18)[j] == marker[j]);
                assert(name[stem.len() as int] == marker[0]);
                assert(marker[0] == '.');
                assert(marker[j] != '.');
            }
        }
    }
    assert(is_first_occurrence(name, marker, stem.len() as int));
    let at = choose|at: int| is_first_occurrence(name, marker, at);
    assert(is_first_occurrence(name, marker, at));
    assert(at == stem.len()) by {
        if at < stem.len() {
            assert(!occurs_at(name, marker, at));
        }
        if at > stem.len() {
            assert(!occurs_at(name, marker, stem.len() as int));
        }
    }
    assert(name.skip(at + marker.len()) =~= digits + "-"@ + tail);
    lemma_decimal_round_trip(process as nat);
    lemma_before_dash(digits, tail);
    assert(contains_text(name, marker));
    assert(temporary_markers()[0] == marker);
}

/// What stabilization makes is recognized as its export, so that it is not stabilized again.
pub proof fn law_stabilized_files_are_recognized(p: Seq<char>)
    ensures
        is_stabilized_name(stabilized_path(p)),
{
    reveal_strlit("_stabilized.");
    reveal_strlit("_stabilized");
    reveal_strlit("mp4");
    reveal_strlit(".");
    reveal_strlit("..");
    reveal_strlit("video");
    if file_name(p) is Some {
        lemma_name_parts(p);
    }
    let stem = text_or(file_stem(p), "video"@);
    let ext = text_or(extension(p), "mp4"@);
    let head = stem + "_stabilized."@;
    let name = head + ext;
    assert(!name.contains('/')) by {
        assert forall|i: int| 0 <= i < name.len() implies name[i] != '/' by {
            if i < stem.len() {
                assert(stem[i] != '/');
            } else if i >= head.len() {
                assert(ext[i - head.len()] != '/');
            }
        }
    }
    lemma_new_name_is_last(p, name);
    lemma_after_last_of_tail(head, ext, '.');
    assert(head.last() == '.');
    assert(after_last(name, '.') == head.len());
    let made = stabilized_path(p);
    assert(file_name(made) == Some(name));
    assert(name.take(head.len() - 1) =~= stem + "_stabilized"@);
    let whole = stem + "_stabilized"@;
    assert(whole.skip(stem.len() as int) =~= "_stabilized"@);
    assert(file_stem(made) == Some(whole));
    assert(has_suffix(whole, "_stabilized"@));
}

} // verus!
