//! What the names of the files that conversions write say about their sources.

use crate::clock::whole_secs;
use crate::disk::{child_path, entries_of, exists_on, is_done, originals_folder, DiskView};
use crate::model::{container_extension, Container, ContentMode};
use crate::output_naming::{
    compact_time_text, lemma_name_parts, stabilized_path, text_or, trimmed_path,
};
use crate::paths::{
    extension, extension_start, file_name, file_stem, is_plain_name, joined, last_component,
    law_parent_undoes_join, lemma_after_last_is_clean, lemma_after_last_is_separator,
    lemma_after_last_of_tail, lemma_named_anew, lemma_named_is_trimmed, lemma_trimmed, name_extension,
    name_stem, parent, trimmed, with_ext, with_name,
};
use crate::text::{
    after_last, all_digits, digits_value, is_digit, lemma_padded_two_round_trip, padded_two,
};
use crate::time::Duration;
use vstd::prelude::*;

verus! {

/// A name made of a stem, a dot, and an ending without a dot is taken apart into the two.
proof fn lemma_name_of_parts(stem: Seq<char>, ext: Seq<char>)
    requires
        stem.len() > 0,
        !ext.contains('.'),
    ensures
        name_stem(stem + "."@ + ext) == stem,
        name_extension(stem + "."@ + ext) == Some(ext),
{
    reveal_strlit(".");
    let head = stem + "."@;
    let name = head + ext;
    lemma_after_last_of_tail(head, ext, '.');
    assert(head.last() == '.');
    assert(after_last(head, '.') == head.len());
    assert(extension_start(name) == head.len());
    assert(name.take(head.len() - 1) =~= stem);
    assert(name.skip(head.len() as int) =~= ext);
}

/// A file that gets another stem and ending stays in its folder.
proof fn lemma_renamed_file(p: Seq<char>, stem: Seq<char>, ext: Seq<char>)
    requires
        file_name(p) is Some,
        stem.len() > 1,
        !stem.contains('/'),
        !ext.contains('/'),
        !ext.contains('.'),
    ensures
        ({
            let q = with_name(p, stem + "."@ + ext);
            &&& parent(q) == parent(p)
            &&& file_stem(q) == Some(stem)
            &&& extension(q) == Some(ext)
        }),
{
    reveal_strlit(".");
    reveal_strlit("..");
    let name = stem + "."@ + ext;
    assert forall|i: int| 0 <= i < name.len() implies name[i] != '/' by {
        if i < stem.len() {
            assert(stem.contains(stem[i]));
        } else if i > stem.len() {
            assert(ext.contains(ext[i - stem.len() - 1]));
        }
    }
    lemma_named_anew(p, name);
    lemma_name_of_parts(stem, ext);
}

proof fn lemma_joined_slashless(a: Seq<char>, b: Seq<char>)
    requires
        !a.contains('/'),
        !b.contains('/'),
    ensures
        !(a + b).contains('/'),
{
    assert forall|i: int| 0 <= i < (a + b).len() implies (a + b)[i] != '/' by {
        if i < a.len() {
            assert(a.contains(a[i]));
        } else {
            assert(b.contains(b[i - a.len()]));
        }
    }
}

/// Stabilization writes beside its source, under the source's stem with `_stabilized` behind it and with
/// the source's extension, so that the source counts as done once the file is there.
pub proof fn law_stabilized_file_is_named_after_its_source(p: Seq<char>, d: DiskView)
    requires
        file_name(p) is Some,
    ensures
        parent(stabilized_path(p)) == parent(p),
        file_stem(stabilized_path(p)) == Some(file_stem(p)->0 + "_stabilized"@),
        extension(stabilized_path(p)) == match extension(p) {
            Some(ext) => Some(ext),
            None => Some("mp4"@),
        },
        stabilized_path(p) != p,
        exists_on(d, stabilized_path(p)) ==> is_done(d, p, ContentMode::Stabilize),
{
    reveal_strlit("_stabilized.");
    reveal_strlit("_stabilized");
    reveal_strlit(".");
    reveal_strlit("mp4");
    lemma_name_parts(p);
    let stem = file_stem(p)->0;
    let ext = text_or(extension(p), "mp4"@);
    let whole = stem + "_stabilized"@;
    lemma_joined_slashless(stem, "_stabilized"@);
    assert(stem + "_stabilized."@ + ext =~= whole + "."@ + ext);
    lemma_renamed_file(p, whole, ext);
    assert(whole.len() > stem.len());
}

/// Trimming writes beside its source, under the source's stem with the start and the end behind it and
/// with the source's extension.
pub proof fn law_trimmed_file_is_named_after_its_source(p: Seq<char>, start: Duration, end: Duration)
    requires
        file_name(p) is Some,
    ensures
        parent(trimmed_path(p, start, end)) == parent(p),
        file_stem(trimmed_path(p, start, end)) == Some(
            file_stem(p)->0 + "_"@ + compact_time_text(start) + "_"@ + compact_time_text(end),
        ),
        extension(trimmed_path(p, start, end)) == match extension(p) {
            Some(ext) => Some(ext),
            None => Some("mkv"@),
        },
        trimmed_path(p, start, end) != p,
{
    reveal_strlit("_");
    reveal_strlit(".");
    reveal_strlit("mkv");
    lemma_name_parts(p);
    law_trim_names_hold_the_range(start);
    law_trim_names_hold_the_range(end);
    let stem = file_stem(p)->0;
    let from = compact_time_text(start);
    let to = compact_time_text(end);
    let ext = text_or(extension(p), "mkv"@);
    assert forall|i: int| 0 <= i < from.len() implies from[i] != '/' by {
        assert(is_digit(from[i]));
    }
    assert forall|i: int| 0 <= i < to.len() implies to[i] != '/' by {
        assert(is_digit(to[i]));
    }
    let whole = stem + "_"@ + from + "_"@ + to;
    lemma_joined_slashless(stem, "_"@);
    lemma_joined_slashless(stem + "_"@, from);
    lemma_joined_slashless(stem + "_"@ + from, "_"@);
    lemma_joined_slashless(stem + "_"@ + from + "_"@, to);
    lemma_renamed_file(p, whole, ext);
    assert(whole.len() > stem.len());
}

/// In the name of a trimmed file a time is its hours, minutes, and seconds, two digits each below a
/// hundred hours.
pub proof fn law_trim_names_hold_the_range(d: Duration)
    ensures
        all_digits(compact_time_text(d)),
        ({
            let secs = d.nanos as int / 1_000_000_000;
            secs < 360_000 ==> compact_time_text(d).len() == 6 && digits_value(
                compact_time_text(d).take(2),
            ) == secs / 3600 && digits_value(compact_time_text(d).subrange(2, 4)) == secs % 3600 / 60
                && digits_value(compact_time_text(d).skip(4)) == secs % 60
        }),
{
    let secs = whole_secs(d);
    let h = padded_two(secs / 3600);
    let m = padded_two(secs % 3600 / 60);
    let s = padded_two(secs % 60);
    lemma_padded_two_round_trip(secs / 3600, u64::MAX as nat);
    lemma_padded_two_round_trip(secs % 3600 / 60, u64::MAX as nat);
    lemma_padded_two_round_trip(secs % 60, u64::MAX as nat);
    let text = compact_time_text(d);
    assert(text == h + m + s);
    assert forall|i: int| 0 <= i < text.len() implies is_digit(#[trigger] text[i]) by {
        if i < h.len() {
            assert(text[i] == h[i]);
        } else if i < h.len() + m.len() {
            assert(text[i] == m[i - h.len()]);
        } else {
            assert(text[i] == s[i - h.len() - m.len()]);
        }
    }
    if secs < 360_000 {
        assert(text.take(2) =~= h);
        assert(text.subrange(2, 4) =~= m);
        assert(text.skip(4) =~= s);
    }
}

/// An ordinary conversion writes beside its source under the same stem, with the extension `mkv` or
/// `mp4` of its container.
pub proof fn law_converted_file_is_named_after_its_source(p: Seq<char>, c: Container)
    requires
        file_name(p) is Some,
    ensures
        parent(with_ext(p, container_extension(c))) == parent(p),
        file_stem(with_ext(p, container_extension(c))) == file_stem(p),
        c == Container::Matroska ==> extension(with_ext(p, container_extension(c))) == Some("mkv"@),
        c == Container::Mp4 ==> extension(with_ext(p, container_extension(c))) == Some("mp4"@),
{
    reveal_strlit(".");
    reveal_strlit("..");
    reveal_strlit("/");
    reveal_strlit("mkv");
    reveal_strlit("mp4");
    let ext = container_extension(c);
    let t = trimmed(p);
    let k = after_last(t, '/') as int;
    let head = t.take(k);
    let stem = file_stem(p)->0;
    let name = stem + "."@ + ext;
    let q = with_ext(p, ext);
    lemma_trimmed(p);
    lemma_name_parts(p);
    lemma_after_last_is_clean(t, '/');
    assert(q =~= head + name);
    assert forall|i: int| 0 <= i < name.len() implies name[i] != '/' by {
        if i < stem.len() {
            assert(stem.contains(stem[i]));
        }
    }
    lemma_named_is_trimmed(head, name);
    lemma_after_last_of_tail(head, name, '/');
    if k > 0 {
        lemma_after_last_is_separator(t, '/');
        assert(head.last() == '/');
    }
    assert(after_last(head, '/') == k);
    assert(q.skip(k) =~= name);
    assert(q.take(k) =~= head);
    assert(q.last() == ext.last());
    assert(t != "/"@) by {
        if t == "/"@ {
            assert(t.last() == '/');
            assert(t.skip(k).len() == 0);
        }
    }
    assert(stem.len() > 0) by {
        let old_name = last_component(p);
        lemma_after_last_is_clean(old_name, '.');
        if extension_start(old_name) > 0 {
            assert(stem == old_name.take(extension_start(old_name) - 1));
        }
    }
    lemma_name_of_parts(stem, ext);
}

/// A source of an ordinary workflow is done exactly if the folder `original` beside it lists something
/// with the source's stem; in particular once the source itself was moved there.
pub proof fn law_sources_put_aside_are_done(d: DiskView, p: Seq<char>, mode: ContentMode)
    requires
        file_name(p) is Some,
        parent(p) is Some,
        mode != ContentMode::Stabilize,
    ensures
        ({
            let originals = joined(parent(p)->0, "original"@);
            let listed = entries_of(d, originals);
            &&& (exists|i: int|
                0 <= i < listed.len() && (#[trigger] listed[i]).name == file_name(p)->0)
                ==> is_done(d, p, mode)
            &&& is_done(d, p, mode) && (forall|i: int|
                0 <= i < listed.len() ==> is_plain_name((#[trigger] listed[i]).name) && listed[i].name
                    != ".."@) ==> exists|i: int|
                0 <= i < listed.len() && Some(name_stem((#[trigger] listed[i]).name)) == file_stem(p)
        }),
{
    reveal_strlit("/");
    reveal_strlit("original");
    let folder = parent(p)->0;
    let originals = joined(folder, "original"@);
    let listed = entries_of(d, originals);
    assert(originals == originals_folder(p));
    assert(originals.len() > 0);
    assert(originals.last() == 'l');
    assert forall|i: int| 0 <= i < listed.len() && (#[trigger] listed[i]).name == file_name(
        p,
    )->0 implies is_done(d, p, mode) by {
        let name = listed[i].name;
        lemma_file_name_is_plain(p);
        law_parent_undoes_join(originals, name);
        assert(name.contains(name[0]));
        assert(child_path(originals, name) == joined(originals, name));
        assert(file_stem(child_path(originals, name)) == file_stem(p));
    }
    if is_done(d, p, mode) && (forall|i: int|
        0 <= i < listed.len() ==> is_plain_name((#[trigger] listed[i]).name) && listed[i].name
            != ".."@) {
        let i = choose|i: int|
            0 <= i < listed.len() && file_stem(child_path(originals, (#[trigger] listed[i]).name))
                == file_stem(p);
        let name = listed[i].name;
        law_parent_undoes_join(originals, name);
        assert(name.contains(name[0]));
        assert(child_path(originals, name) == joined(originals, name));
        assert(Some(name_stem(listed[i].name)) == file_stem(p));
    }
}

proof fn lemma_file_name_is_plain(p: Seq<char>)
    requires
        file_name(p) is Some,
    ensures
        is_plain_name(file_name(p)->0),
{
    lemma_after_last_is_clean(trimmed(p), '/');
}

} // verus!
