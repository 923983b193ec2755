//! Names of output files.

use crate::model::{container_extension, Container};
use crate::paths::{
    extension, extension_start, file_name, file_stem, last_component, lemma_after_last_is_clean,
    lemma_named_anew, name_stem, parent, path_extension, path_file_stem, path_with_extension,
    path_with_name, trimmed, with_ext, with_name,
};
use crate::text::{concat3, is_digit, lemma_padded_two_round_trip, padded_two, padded_two_text};
use crate::time::{smaller, Duration};
use vstd::prelude::*;

verus! {

/// A text, or the fallback where there is none.
pub open spec fn text_or(o: Option<Seq<char>>, fallback: Seq<char>) -> Seq<char> {
    match o {
        Some(s) => s,
        None => fallback,
    }
}

/// Hours, minutes, and seconds, each with at least two digits and nothing between them.
pub open spec fn compact_time_text(d: Duration) -> Seq<char> {
    let secs = smaller(d.nanos as int / 1_000_000_000, u64::MAX as int) as nat;
    padded_two(secs / 3600) + padded_two(secs % 3600 / 60) + padded_two(secs % 60)
}

pub open spec fn stabilized_path(input: Seq<char>) -> Seq<char> {
    with_name(
        input,
        text_or(file_stem(input), "video"@) + "_stabilized."@ + text_or(extension(input), "mp4"@),
    )
}

pub open spec fn trimmed_path(input: Seq<char>, start: Duration, end: Duration) -> Seq<char> {
    with_name(
        input,
        text_or(file_stem(input), "video"@) + "_"@ + compact_time_text(start) + "_"@
            + compact_time_text(end) + "."@ + text_or(extension(input), "mkv"@),
    )
}

/// The output of an ordinary conversion: the source with the container's extension.
pub fn conversion_output_path(input: &str, container: Container) -> (r: String)
    ensures
        r@ == with_ext(input@, container_extension(container)),
{
    path_with_extension(input, container.extension())
}

fn stem_or_video(input: &str) -> (r: String)
    ensures
        r@ == text_or(file_stem(input@), "video"@),
{
    match path_file_stem(input) {
        Some(stem) => stem,
        None => "video".to_owned(),
    }
}

fn extension_or(input: &str, fallback: &str) -> (r: String)
    ensures
        r@ == text_or(extension(input@), fallback@),
{
    match path_extension(input) {
        Some(found) => found,
        None => fallback.to_owned(),
    }
}

/// The output of stabilization: beside the source, with the same extension.
pub fn stabilized_output_path(input: &str) -> (r: String)
    ensures
        r@ == stabilized_path(input@),
{
    let stem = stem_or_video(input);
    let ext = extension_or(input, "mp4");
    let name = concat3(stem.as_str(), "_stabilized.", ext.as_str());
    path_with_name(input, name.as_str())
}

/// The output of trimming: beside the source, with the range in its name.
pub fn trim_output_path(input: &str, start: Duration, end: Duration) -> (r: String)
    ensures
        r@ == trimmed_path(input@, start, end),
{
    let stem = stem_or_video(input);
    let ext = extension_or(input, "mkv");
    let from = compact_time(start);
    let to = compact_time(end);
    let mut name = concat3(stem.as_str(), "_", from.as_str());
    name.append("_");
    name.append(to.as_str());
    name.append(".");
    name.append(ext.as_str());
    path_with_name(input, name.as_str())
}

fn compact_time(duration: Duration) -> (r: String)
    ensures
        r@ == compact_time_text(duration),
{
    let seconds: u64 = duration.as_secs();
    let hours = padded_two_text((seconds / 3600) as u128);
    let minutes = padded_two_text((seconds % 3600 / 60) as u128);
    let rest = padded_two_text((seconds % 60) as u128);
    concat3(hours.as_str(), minutes.as_str(), rest.as_str())
}

/// The parts of the name that stand before and behind the dot of the extension hold no slash.
pub proof fn lemma_name_parts(p: Seq<char>)
    requires
        file_name(p) is Some,
    ensures
        file_stem(p) is Some,
        !file_stem(p)->0.contains('/'),
        extension(p) matches Some(ext) ==> !ext.contains('/') && !ext.contains('.'),
{
    let name = last_component(p);
    lemma_after_last_is_clean(trimmed(p), '/');
    lemma_after_last_is_clean(name, '.');
    let k = extension_start(name) as int;
    assert forall|i: int| 0 <= i < name_stem(name).len() implies name_stem(name)[i] != '/' by {
        assert(name[i] != '/');
    }
    if k > 0 {
        let ext = name.skip(k);
        assert forall|i: int| 0 <= i < ext.len() implies ext[i] != '/' by {
            assert(name[k + i] != '/');
        }
    }
}

proof fn lemma_time_has_no_slash(d: Duration)
    ensures
        !compact_time_text(d).contains('/'),
{
    let secs = smaller(d.nanos as int / 1_000_000_000, u64::MAX as int) as nat;
    lemma_padded_two_round_trip(secs / 3600, u64::MAX as nat);
    lemma_padded_two_round_trip(secs % 3600 / 60, u64::MAX as nat);
    lemma_padded_two_round_trip(secs % 60, u64::MAX as nat);
    let text = compact_time_text(d);
    assert forall|i: int| 0 <= i < text.len() implies text[i] != '/' by {
        assert(is_digit(text[i]));
    }
}

proof fn lemma_no_slash(a: Seq<char>, b: Seq<char>)
    requires
        !a.contains('/'),
        !b.contains('/'),
    ensures
        !(a + b).contains('/'),
{
    assert forall|i: int| 0 <= i < (a + b).len() implies (a + b)[i] != '/' by {
        if i < a.len() {
            assert(a[i] != '/');
        } else {
            assert(b[i - a.len()] != '/');
        }
    }
}

/// Stabilization and trimming write beside their source, and never in its place.
pub proof fn law_derived_files_stand_beside_the_source(p: Seq<char>, start: Duration, end: Duration)
    ensures
        stabilized_path(p) != p,
        trimmed_path(p, start, end) != p,
        file_name(p) is Some ==> parent(stabilized_path(p)) == parent(p),
        file_name(p) is Some ==> parent(trimmed_path(p, start, end)) == parent(p),
{
    if file_name(p) is Some {
        lemma_derived_files(p, start, end);
    } else {
        reveal_strlit("video");
        reveal_strlit("/");
        assert("video"@.len() == 5 && "video"@[0] == 'v');
        assert(stabilized_path(p).len() > p.len());
        assert(trimmed_path(p, start, end).len() > p.len());
    }
}

proof fn lemma_derived_files(p: Seq<char>, start: Duration, end: Duration)
    requires
        file_name(p) is Some,
    ensures
        stabilized_path(p) != p,
        parent(stabilized_path(p)) == parent(p),
        trimmed_path(p, start, end) != p,
        parent(trimmed_path(p, start, end)) == parent(p),
{
    reveal_strlit("_stabilized.");
    reveal_strlit("_");
    reveal_strlit(".");
    reveal_strlit("mp4");
    reveal_strlit("mkv");
    lemma_name_parts(p);
    let name = last_component(p);
    lemma_after_last_is_clean(name, '.');
    let stem = file_stem(p)->0;
    let a = stem + "_stabilized."@;
    let ext = text_or(extension(p), "mp4"@);
    lemma_no_slash(stem, "_stabilized."@);
    lemma_no_slash(a, ext);
    lemma_named_anew(p, a + ext);
    assert((a + ext).len() > name.len());
    let from = compact_time_text(start);
    let to = compact_time_text(end);
    let other = text_or(extension(p), "mkv"@);
    lemma_time_has_no_slash(start);
    lemma_time_has_no_slash(end);
    lemma_no_slash(stem, "_"@);
    lemma_no_slash(stem + "_"@, from);
    lemma_no_slash(stem + "_"@ + from, "_"@);
    lemma_no_slash(stem + "_"@ + from + "_"@, to);
    lemma_no_slash(stem + "_"@ + from + "_"@ + to, "."@);
    lemma_no_slash(stem + "_"@ + from + "_"@ + to + "."@, other);
    let cut = stem + "_"@ + from + "_"@ + to + "."@ + other;
    lemma_named_anew(p, cut);
    assert(cut.len() > name.len());
}

} // verus!
