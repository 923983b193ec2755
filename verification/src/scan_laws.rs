//! Which files a scan of the disk finds, by their names and places.

use crate::disk::{
    child_path, entries_of, exists_on, files_below, files_from, goes_into, is_file, is_folder,
    is_wanted, photo_files, room, video_files, Descent, DiskView, Wanted,
};
use crate::media_files::{
    converted_suffixes, is_one_of, is_photo_name, is_skipped_folder, is_video_name, photo_extensions,
    video_extensions,
};
use crate::model::{encoder_user_name, Encoder};
use crate::natural::{
    law_sorting_keeps_every_item, lemma_sorted_is_picked, lemma_stable_order_exists, photos_sorted,
    picks, slideshow_keys, sorted_positions,
};
use crate::paths::{
    extension, file_name, is_plain_name, joined, law_parent_undoes_join, lemma_trimmed, parent, plain,
    trimmed,
};
use crate::queue_laws::lemma_sorted_paths;
use crate::stream_policy::lemma_lower_case_stays;
use crate::text::{ascii_lower, has_prefix, has_suffix};
use vstd::prelude::*;

verus! {

/// A name counts as a video exactly if its extension is one of eight, in any case, and it does not start
/// with `._`.
pub proof fn law_video_names(p: Seq<char>)
    ensures
        is_video_name(p) <==> extension(p) is Some && !has_prefix(file_name(p)->0, "._"@) && ({
            let e = ascii_lower(extension(p)->0);
            e == "mkv"@ || e == "mp4"@ || e == "mov"@ || e == "avi"@ || e == "wmv"@ || e == "flv"@ || e
                == "rm"@ || e == "rmvb"@
        }),
{
    let names = video_extensions();
    reveal_strlit("mkv");
    reveal_strlit("mp4");
    reveal_strlit("mov");
    reveal_strlit("avi");
    reveal_strlit("wmv");
    reveal_strlit("flv");
    reveal_strlit("rm");
    reveal_strlit("rmvb");
    lemma_lower_case_stays("mkv"@);
    lemma_lower_case_stays("mp4"@);
    lemma_lower_case_stays("mov"@);
    lemma_lower_case_stays("avi"@);
    lemma_lower_case_stays("wmv"@);
    lemma_lower_case_stays("flv"@);
    lemma_lower_case_stays("rm"@);
    lemma_lower_case_stays("rmvb"@);
    if extension(p) is Some {
        let ext = extension(p)->0;
        let e = ascii_lower(ext);
        if e == "mkv"@ {
            assert(ascii_lower(names[0]) == e);
        } else if e == "mp4"@ {
            assert(ascii_lower(names[1]) == e);
        } else if e == "mov"@ {
            assert(ascii_lower(names[2]) == e);
        } else if e == "avi"@ {
            assert(ascii_lower(names[3]) == e);
        } else if e == "wmv"@ {
            assert(ascii_lower(names[4]) == e);
        } else if e == "flv"@ {
            assert(ascii_lower(names[5]) == e);
        } else if e == "rm"@ {
            assert(ascii_lower(names[6]) == e);
        } else if e == "rmvb"@ {
            assert(ascii_lower(names[7]) == e);
        }
        if is_one_of(ext, names) {
            let i = choose|i: int| 0 <= i < names.len() && ascii_lower(#[trigger] names[i]) == e;
            assert(names.len() == 8);
        }
    }
}

/// A name counts as a photo exactly if its extension is one of seven, in any case.
pub proof fn law_photo_names(p: Seq<char>)
    ensures
        is_photo_name(p) <==> extension(p) is Some && ({
            let e = ascii_lower(extension(p)->0);
            e == "jpg"@ || e == "jpeg"@ || e == "png"@ || e == "webp"@ || e == "bmp"@ || e == "tif"@
                || e == "tiff"@
        }),
{
    let names = photo_extensions();
    reveal_strlit("jpg");
    reveal_strlit("jpeg");
    reveal_strlit("png");
    reveal_strlit("webp");
    reveal_strlit("bmp");
    reveal_strlit("tif");
    reveal_strlit("tiff");
    lemma_lower_case_stays("jpg"@);
    lemma_lower_case_stays("jpeg"@);
    lemma_lower_case_stays("png"@);
    lemma_lower_case_stays("webp"@);
    lemma_lower_case_stays("bmp"@);
    lemma_lower_case_stays("tif"@);
    lemma_lower_case_stays("tiff"@);
    if extension(p) is Some {
        let ext = extension(p)->0;
        let e = ascii_lower(ext);
        if e == "jpg"@ {
            assert(ascii_lower(names[0]) == e);
        } else if e == "jpeg"@ {
            assert(ascii_lower(names[1]) == e);
        } else if e == "png"@ {
            assert(ascii_lower(names[2]) == e);
        } else if e == "webp"@ {
            assert(ascii_lower(names[3]) == e);
        } else if e == "bmp"@ {
            assert(ascii_lower(names[4]) == e);
        } else if e == "tif"@ {
            assert(ascii_lower(names[5]) == e);
        } else if e == "tiff"@ {
            assert(ascii_lower(names[6]) == e);
        }
        if is_one_of(ext, names) {
            let i = choose|i: int| 0 <= i < names.len() && ascii_lower(#[trigger] names[i]) == e;
            assert(names.len() == 7);
        }
    }
}

/// A folder is passed over exactly if it is called `original` or `chs`, or its name ends with the name of
/// an encoder in parentheses.
pub proof fn law_folders_passed_over(p: Seq<char>)
    requires
        file_name(p) is Some,
    ensures
        is_skipped_folder(p) <==> ({
            let name = file_name(p)->0;
            name == "original"@ || name == "chs"@ || exists|e: Encoder|
                has_suffix(name, "("@ + #[trigger] encoder_user_name(e) + ")"@)
        }),
{
    let name = file_name(p)->0;
    let all = converted_suffixes();
    assert forall|e: Encoder| exists|i: int|
        0 <= i < all.len() && #[trigger] all[i] == "("@ + #[trigger] encoder_user_name(e) + ")"@ by {
        lemma_suffix_of_encoder(e);
        let i = suffix_place(e);
        assert(all[i] == "("@ + encoder_user_name(e) + ")"@);
    }
    if exists|i: int| 0 <= i < all.len() && has_suffix(name, #[trigger] all[i]) {
        let i = choose|i: int| 0 <= i < all.len() && has_suffix(name, #[trigger] all[i]);
        let e = encoder_at(i);
        lemma_suffix_of_encoder(e);
        assert(suffix_place(e) == i);
        assert(has_suffix(name, "("@ + encoder_user_name(e) + ")"@));
    }
    if exists|e: Encoder| has_suffix(name, "("@ + #[trigger] encoder_user_name(e) + ")"@) {
        let e = choose|e: Encoder| has_suffix(name, "("@ + #[trigger] encoder_user_name(e) + ")"@);
        lemma_suffix_of_encoder(e);
        assert(has_suffix(name, all[suffix_place(e)]));
    }
}

spec fn suffix_place(e: Encoder) -> int {
    match e {
        Encoder::X265 => 0,
        Encoder::X264 => 1,
        Encoder::SvtAv1 => 2,
        Encoder::HevcNvenc => 3,
        Encoder::Av1Nvenc => 4,
        Encoder::H264Nvenc => 5,
        Encoder::H264VideoToolbox => 6,
        Encoder::HevcVideoToolbox => 7,
        Encoder::Av1VideoToolbox => 8,
    }
}

spec fn encoder_at(i: int) -> Encoder {
    if i == 0 {
        Encoder::X265
    } else if i == 1 {
        Encoder::X264
    } else if i == 2 {
        Encoder::SvtAv1
    } else if i == 3 {
        Encoder::HevcNvenc
    } else if i == 4 {
        Encoder::Av1Nvenc
    } else if i == 5 {
        Encoder::H264Nvenc
    } else if i == 6 {
        Encoder::H264VideoToolbox
    } else if i == 7 {
        Encoder::HevcVideoToolbox
    } else {
        Encoder::Av1VideoToolbox
    }
}

proof fn lemma_suffix_of_encoder(e: Encoder)
    ensures
        0 <= suffix_place(e) < converted_suffixes().len(),
        converted_suffixes()[suffix_place(e)] == "("@ + encoder_user_name(e) + ")"@,
{
    reveal_strlit("(");
    reveal_strlit(")");
    reveal_strlit("x265");
    reveal_strlit("x264");
    reveal_strlit("libsvtav1");
    reveal_strlit("hevc_nvenc");
    reveal_strlit("av1_nvenc");
    reveal_strlit("h264_nvenc");
    reveal_strlit("h264_videotoolbox");
    reveal_strlit("hevc_videotoolbox");
    reveal_strlit("av1_videotoolbox");
    reveal_strlit("(x265)");
    reveal_strlit("(x264)");
    reveal_strlit("(libsvtav1)");
    reveal_strlit("(hevc_nvenc)");
    reveal_strlit("(av1_nvenc)");
    reveal_strlit("(h264_nvenc)");
    reveal_strlit("(h264_videotoolbox)");
    reveal_strlit("(hevc_videotoolbox)");
    reveal_strlit("(av1_videotoolbox)");
    assert(converted_suffixes()[suffix_place(e)] =~= "("@ + encoder_user_name(e) + ")"@);
}

/// The plain form of an entry's path is longer than that of its folder.
pub proof fn lemma_entries_stand_deeper(dir: Seq<char>, name: Seq<char>)
    requires
        is_plain_name(name),
    ensures
        child_path(dir, name) == joined(dir, name),
        plain(child_path(dir, name)).len() > plain(dir).len(),
{
    reveal_strlit("/");
    assert(name.contains(name[0]));
    law_parent_undoes_join(dir, name);
    lemma_trimmed(dir);
    assert(plain(trimmed(dir)) == plain(dir)) by {
        assert(parent(trimmed(dir)) == parent(dir));
    }
}

proof fn lemma_from_has(
    d: DiskView,
    dir: Seq<char>,
    from: int,
    i: int,
    descent: Descent,
    wanted: Wanted,
    p: Seq<char>,
)
    requires
        0 <= from <= i < entries_of(d, dir).len(),
        ({
            let entry = entries_of(d, dir)[i];
            let child = child_path(dir, entry.name);
            if entry.is_folder {
                goes_into(descent, child) && room(d, child) < room(d, dir) && files_below(
                    d,
                    child,
                    descent,
                    wanted,
                ).contains(p)
            } else {
                is_wanted(wanted, child) && p == child
            }
        }),
    ensures
        files_from(d, dir, from, descent, wanted).contains(p),
    decreases i - from,
{
    let entry = entries_of(d, dir)[from];
    let child = child_path(dir, entry.name);
    let here = if entry.is_folder {
        if goes_into(descent, child) && room(d, child) < room(d, dir) {
            files_from(d, child, 0, descent, wanted)
        } else {
            Seq::empty()
        }
    } else if is_wanted(wanted, child) {
        seq![child]
    } else {
        Seq::empty()
    };
    let rest = files_from(d, dir, from + 1, descent, wanted);
    let all = files_from(d, dir, from, descent, wanted);
    assert(all == here + rest);
    if from == i {
        assert(here.contains(p)) by {
            if !entry.is_folder {
                assert(here[0] == p);
            }
        }
        let k = choose|k: int| 0 <= k < here.len() && here[k] == p;
        assert(all[k] == p);
    } else {
        lemma_from_has(d, dir, from + 1, i, descent, wanted, p);
        let k = choose|k: int| 0 <= k < rest.len() && rest[k] == p;
        assert(all[here.len() + k] == p);
    }
}

/// Every file that a search finds is wanted.
proof fn lemma_from_is_wanted(
    d: DiskView,
    dir: Seq<char>,
    from: int,
    descent: Descent,
    wanted: Wanted,
    p: Seq<char>,
)
    requires
        files_from(d, dir, from, descent, wanted).contains(p),
    ensures
        is_wanted(wanted, p),
    decreases room(d, dir), entries_of(d, dir).len() - from,
{
    let entries = entries_of(d, dir);
    if 0 <= from < entries.len() {
        let entry = entries[from];
        let child = child_path(dir, entry.name);
        let here = if entry.is_folder {
            if goes_into(descent, child) && room(d, child) < room(d, dir) {
                files_from(d, child, 0, descent, wanted)
            } else {
                Seq::empty()
            }
        } else if is_wanted(wanted, child) {
            seq![child]
        } else {
            Seq::empty()
        };
        let rest = files_from(d, dir, from + 1, descent, wanted);
        let all = here + rest;
        assert(files_from(d, dir, from, descent, wanted) == all);
        let k = choose|k: int| 0 <= k < all.len() && all[k] == p;
        if k < here.len() {
            assert(here[k] == p);
            if entry.is_folder {
                lemma_from_is_wanted(d, child, 0, descent, wanted, p);
            }
        } else {
            assert(rest[k - here.len()] == p);
            lemma_from_is_wanted(d, dir, from + 1, descent, wanted, p);
        }
    }
}

/// A scan for videos finds the videos of a folder and those of the folders below it, except in folders of
/// originals, subtitles, and converted files, and finds nothing else.
pub proof fn law_scans_find_the_videos(d: DiskView, root: Seq<char>, i: int, p: Seq<char>)
    requires
        files_below(d, root, Descent::Unconverted, Wanted::Videos).len() <= usize::MAX,
    ensures
        video_files(d, root).contains(p) ==> is_video_name(p),
        0 <= i < entries_of(d, root).len() && !entries_of(d, root)[i].is_folder && is_video_name(
            child_path(root, entries_of(d, root)[i].name),
        ) ==> video_files(d, root).contains(child_path(root, entries_of(d, root)[i].name)),
        0 <= i < entries_of(d, root).len() && entries_of(d, root)[i].is_folder && is_plain_name(
            entries_of(d, root)[i].name,
        ) && !is_skipped_folder(child_path(root, entries_of(d, root)[i].name)) && files_below(
            d,
            child_path(root, entries_of(d, root)[i].name),
            Descent::Unconverted,
            Wanted::Videos,
        ).contains(p) ==> video_files(d, root).contains(p),
{
    let found = files_below(d, root, Descent::Unconverted, Wanted::Videos);
    lemma_sorted_paths(found);
    if video_files(d, root).contains(p) {
        lemma_from_is_wanted(d, root, 0, Descent::Unconverted, Wanted::Videos, p);
    }
    if 0 <= i < entries_of(d, root).len() {
        let entry = entries_of(d, root)[i];
        let child = child_path(root, entry.name);
        if !entry.is_folder && is_video_name(child) {
            lemma_from_has(d, root, 0, i, Descent::Unconverted, Wanted::Videos, child);
        }
        if entry.is_folder && is_plain_name(entry.name) && !is_skipped_folder(child) && files_below(
            d,
            child,
            Descent::Unconverted,
            Wanted::Videos,
        ).contains(p) {
            lemma_entries_stand_deeper(root, entry.name);
            lemma_folder_has_room(d, root);
            lemma_from_has(d, root, 0, i, Descent::Unconverted, Wanted::Videos, p);
        }
    }
}

/// A folder with entries has a recorded path, so that there is room below it.
proof fn lemma_folder_has_room(d: DiskView, dir: Seq<char>)
    requires
        entries_of(d, dir).len() > 0,
    ensures
        room(d, dir) > 0,
{
    assert(is_folder(d, dir));
    crate::disk::lemma_recorded_folders_have_room(d, dir);
}

/// A scan for photos finds all photos of a folder and below it, and a photo finds itself.
pub proof fn law_scans_find_the_photos(d: DiskView, root: Seq<char>, i: int, p: Seq<char>)
    requires
        files_below(d, root, Descent::All, Wanted::Photos).len() <= usize::MAX,
    ensures
        photo_files(d, root).contains(p) ==> is_photo_name(p),
        is_file(d, root) && is_photo_name(root) ==> photo_files(d, root) == seq![root],
        !is_file(d, root) && 0 <= i < entries_of(d, root).len() && !entries_of(d, root)[i].is_folder
            && is_photo_name(child_path(root, entries_of(d, root)[i].name)) ==> photo_files(
            d,
            root,
        ).contains(child_path(root, entries_of(d, root)[i].name)),
        !is_file(d, root) && 0 <= i < entries_of(d, root).len() && entries_of(d, root)[i].is_folder
            && is_plain_name(entries_of(d, root)[i].name) && files_below(
            d,
            child_path(root, entries_of(d, root)[i].name),
            Descent::All,
            Wanted::Photos,
        ).contains(p) ==> photo_files(d, root).contains(p),
{
    let found = files_below(d, root, Descent::All, Wanted::Photos);
    let keys = slideshow_keys(found);
    lemma_stable_order_exists(keys);
    let order = sorted_positions(keys);
    let out = photos_sorted(found);
    assert(picks(out, found, order));
    lemma_sorted_is_picked(out, found, keys, order);
    law_sorting_keeps_every_item(out, found, keys);
    if photo_files(d, root).contains(p) {
        if is_file(d, root) && is_photo_name(root) {
            assert(p == root);
        } else {
            lemma_from_is_wanted(d, root, 0, Descent::All, Wanted::Photos, p);
        }
    }
    if !is_file(d, root) && 0 <= i < entries_of(d, root).len() {
        let entry = entries_of(d, root)[i];
        let child = child_path(root, entry.name);
        if !entry.is_folder && is_photo_name(child) {
            lemma_from_has(d, root, 0, i, Descent::All, Wanted::Photos, child);
        }
        if entry.is_folder && is_plain_name(entry.name) && files_below(
            d,
            child,
            Descent::All,
            Wanted::Photos,
        ).contains(p) {
            lemma_entries_stand_deeper(root, entry.name);
            lemma_folder_has_room(d, root);
            lemma_from_has(d, root, 0, i, Descent::All, Wanted::Photos, p);
        }
    }
}

/// Something is on the disk exactly if it is a folder that was seen, a file that was looked for, or a file
/// that its folder lists.
pub proof fn law_what_is_on_the_disk(d: DiskView, p: Seq<char>)
    requires
        trimmed(p) == p,
        file_name(p) is Some,
        parent(p) is Some,
    ensures
        is_file(d, p) <==> d.files.contains(plain(p)) || exists|i: int|
            0 <= i < entries_of(d, parent(p)->0).len() && !(#[trigger] entries_of(
                d,
                parent(p)->0,
            )[i]).is_folder && entries_of(d, parent(p)->0)[i].name == file_name(p)->0,
        is_folder(d, p) <==> exists|i: int|
            0 <= i < d.folders.len() && (#[trigger] d.folders[i]).path == plain(p),
        exists_on(d, p) <==> is_folder(d, p) || is_file(d, p),
{
    assert(is_folder(d, p) ==> exists|i: int|
        0 <= i < d.folders.len() && (#[trigger] d.folders[i]).path == plain(p)) by {
        if is_folder(d, p) {
            let i = choose|i: int| crate::disk::folder_at(d, p, i);
            assert(d.folders[i].path == plain(p));
        }
    }
    if exists|i: int| 0 <= i < d.folders.len() && (#[trigger] d.folders[i]).path == plain(p) {
        let i = choose|i: int| 0 <= i < d.folders.len() && (#[trigger] d.folders[i]).path == plain(p);
        lemma_first_record(d, p, i);
    }
}

proof fn lemma_first_record(d: DiskView, p: Seq<char>, i: int)
    requires
        0 <= i < d.folders.len(),
        d.folders[i].path == plain(p),
    ensures
        is_folder(d, p),
    decreases i,
{
    if exists|j: int| 0 <= j < i && (#[trigger] d.folders[j]).path == plain(p) {
        let j = choose|j: int| 0 <= j < i && (#[trigger] d.folders[j]).path == plain(p);
        lemma_first_record(d, p, j);
    } else {
        assert(crate::disk::folder_at(d, p, i));
    }
}

} // verus!
