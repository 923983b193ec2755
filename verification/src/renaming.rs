//! The folders that get a new name once all their videos are converted.

use crate::disk::{
    child_path, entries_of, entries_view, exists_on, folders_below, is_folder, is_readable, Descent, Disk,
    DiskView, EntryView,
};
use crate::media_files::{has_video_filename, is_video_name};
use crate::natural::{
    key_views, law_sorting_keeps_every_item, lemma_sorted_is_picked, lemma_stable_order_exists,
    part_views, sort_by_keys, sorted_by_keys, sorted_positions, NaturalPart, PartView,
};
use crate::paths::{
    file_name, has_path, is_plain_name, joined, last_component, lemma_named_anew, list_has_path,
    parent, path_file_name, path_join, path_parent, path_with_name, with_name,
};
use crate::presets::{suffix_of, Surroundings, SurroundingsView};
use crate::queue::{QueueTask, TaskView};
use crate::stream_policy::lemma_filter_map_has;
use crate::targets::append_all;
use crate::text::{
    concat2, has_prefix, has_suffix, same_text, split_on, split_text, text_ends_with,
    text_starts_with, texts, to_chars,
};
use vstd::prelude::*;

verus! {

pub open spec fn is_video_entry(dir: Seq<char>) -> spec_fn(EntryView) -> bool {
    |e: EntryView| !e.is_folder && is_video_name(child_path(dir, e.name))
}

/// The number of videos directly in a folder.
pub open spec fn direct_videos(d: DiskView, dir: Seq<char>) -> nat {
    entries_of(d, dir).filter(is_video_entry(dir)).len()
}

pub fn direct_video_count(disk: &Disk, directory: &str) -> (r: usize)
    ensures
        r == direct_videos(disk@, directory@),
{
    let entries = match disk.entries(directory) {
        Some(entries) => entries,
        None => {
            assert(entries_of(disk@, directory@).filter(is_video_entry(directory@)).len() == 0) by {
                reveal(Seq::filter);
            }
            return 0;
        },
    };
    let ghost views = entries_of(disk@, directory@);
    let ghost wanted = is_video_entry(directory@);
    let mut count: usize = 0;
    let mut i: usize = 0;
    assert(views.take(0) =~= Seq::<EntryView>::empty());
    assert(views.take(0).filter(wanted).len() == 0) by {
        reveal(Seq::filter);
    }
    while i < entries.len()
        invariant
            i <= entries@.len(),
            count <= i,
            views == entries_view(entries@),
            wanted == is_video_entry(directory@),
            count == views.take(i as int).filter(wanted).len(),
        decreases entries@.len() - i,
    {
        let path = crate::disk::child(directory, entries[i].name.as_str());
        assert(views.take(i + 1).drop_last() =~= views.take(i as int));
        assert(views.take(i + 1).last() == views[i as int]);
        assert(views[i as int].name == entries@[i as int].name@);
        proof {
            reveal(Seq::filter);
        }
        if !entries[i].is_folder && has_video_filename(path.as_str()) {
            count = count + 1;
        }
        i = i + 1;
    }
    assert(views.take(i as int) =~= views);
    count
}

/// Each video directly in a folder has its original set aside.
pub open spec fn folder_complete(d: DiskView, dir: Seq<char>) -> bool {
    direct_videos(d, dir) == direct_videos(d, joined(dir, "original"@))
}

/// Each video of a folder, and of the folders below it, has its original set aside.
pub open spec fn tree_complete(d: DiskView, dir: Seq<char>) -> bool {
    forall|i: int|
        0 <= i < folders_below(d, dir, Descent::Unconverted).len() ==> folder_complete(
            d,
            #[trigger] folders_below(d, dir, Descent::Unconverted)[i],
        )
}

pub fn directory_tree_is_conversion_complete(disk: &Disk, directory: &str) -> (r: bool)
    ensures
        r == tree_complete(disk@, directory@),
{
    let folders = disk.folders_below(directory, Descent::Unconverted);
    let ghost all = folders_below(disk@, directory@, Descent::Unconverted);
    let mut i: usize = 0;
    while i < folders.len()
        invariant
            i <= folders@.len(),
            all == texts(folders@),
            all == folders_below(disk@, directory@, Descent::Unconverted),
            forall|j: int| 0 <= j < i ==> folder_complete(disk@, #[trigger] all[j]),
        decreases folders@.len() - i,
    {
        let originals = path_join(folders[i].as_str(), "original");
        assert(all[i as int] == folders@[i as int]@);
        if direct_video_count(disk, folders[i].as_str()) != direct_video_count(
            disk,
            originals.as_str(),
        ) {
            assert(!folder_complete(disk@, all[i as int]));
            return false;
        }
        i = i + 1;
    }
    true
}

/// A component of a path that counts towards its depth.
pub open spec fn is_component() -> spec_fn(Seq<char>) -> bool {
    |c: Seq<char>| c.len() > 0 && c != "."@
}

/// How many components a path has.
pub open spec fn depth(p: Seq<char>) -> nat {
    let pieces = split_text(p, '/');
    pieces.filter(is_component()).len() + if has_prefix(p, "/"@) || pieces[0] == "."@ {
        1nat
    } else {
        0nat
    }
}

fn path_depth(path: &str) -> (r: u128)
    ensures
        r == depth(path@),
        r <= usize::MAX + 1,
{
    let pieces = split_on(path, '/');
    let ghost all = split_text(path@, '/');
    let mut count: u128 = 0;
    let mut i: usize = 0;
    assert(all.take(0) =~= Seq::<Seq<char>>::empty());
    assert(all.take(0).filter(is_component()).len() == 0) by {
        reveal(Seq::filter);
    }
    while i < pieces.len()
        invariant
            i <= pieces@.len(),
            count <= i,
            all == texts(pieces@),
            count == all.take(i as int).filter(is_component()).len(),
        decreases pieces@.len() - i,
    {
        assert(all.take(i + 1).drop_last() =~= all.take(i as int));
        assert(all.take(i + 1).last() == all[i as int]);
        assert(all[i as int] == pieces@[i as int]@);
        proof {
            reveal(Seq::filter);
        }
        let chars = to_chars(pieces[i].as_str());
        if chars.len() > 0 && !same_text(pieces[i].as_str(), ".") {
            count = count + 1;
        }
        i = i + 1;
    }
    assert(all.take(i as int) =~= all);
    assert(all[0] == pieces@[0]@);
    if text_starts_with(path, "/") || same_text(pieces[0].as_str(), ".") {
        count + 1
    } else {
        count
    }
}

/// The list without the paths that it already has.
pub open spec fn without_repeats(s: Seq<Seq<char>>) -> Seq<Seq<char>>
    decreases s.len(),
{
    if s.len() == 0 {
        Seq::empty()
    } else {
        let before = without_repeats(s.drop_last());
        if has_path(before, s.last()) {
            before
        } else {
            before.push(s.last())
        }
    }
}

pub fn drop_repeats(items: &Vec<String>) -> (r: Vec<String>)
    ensures
        texts(r@) == without_repeats(texts(items@)),
{
    let ghost all = texts(items@);
    let mut r: Vec<String> = Vec::new();
    let mut i: usize = 0;
    assert(texts(r@) =~= without_repeats(all.take(0)));
    while i < items.len()
        invariant
            i <= items@.len(),
            all == texts(items@),
            texts(r@) == without_repeats(all.take(i as int)),
        decreases items@.len() - i,
    {
        assert(all.take(i + 1).drop_last() =~= all.take(i as int));
        assert(all.take(i + 1).last() == items@[i as int]@);
        if !list_has_path(&r, items[i].as_str()) {
            let ghost before = texts(r@);
            r.push(items[i].clone());
            assert(texts(r@) =~= before.push(items@[i as int]@));
        }
        i = i + 1;
    }
    assert(all.take(i as int) =~= all);
    r
}

pub open spec fn can_be_read(d: DiskView) -> spec_fn(Seq<char>) -> bool {
    |dir: Seq<char>| is_readable(d, dir)
}

/// The folders of one target: it and those below it, as far as they can be read, or the folder that it
/// stands in.
pub open spec fn folders_of_target(d: DiskView, target: Seq<char>) -> Seq<Seq<char>> {
    if is_folder(d, target) {
        folders_below(d, target, Descent::Unconverted).filter(can_be_read(d))
    } else {
        match parent(target) {
            Some(folder) => seq![folder],
            None => Seq::empty(),
        }
    }
}

pub open spec fn folders_of_targets(d: DiskView, targets: Seq<Seq<char>>) -> Seq<Seq<char>>
    decreases targets.len(),
{
    if targets.len() == 0 {
        Seq::empty()
    } else {
        folders_of_targets(d, targets.drop_last()) + folders_of_target(d, targets.last())
    }
}

/// Deeper folders come first.
pub open spec fn depth_key(p: Seq<char>) -> Seq<PartView> {
    seq![PartView::Number((u128::MAX - depth(p)) as nat, 0)]
}

pub open spec fn depth_keys(paths: Seq<Seq<char>>) -> Seq<Seq<PartView>> {
    paths.map_values(|p: Seq<char>| depth_key(p))
}

/// The folders that a task may give a new name, each once and the deepest first.
pub open spec fn rename_candidates(d: DiskView, targets: Seq<Seq<char>>) -> Seq<Seq<char>> {
    let folders = without_repeats(folders_of_targets(d, targets));
    sorted_by_keys(folders, depth_keys(folders))
}

/// A folder whose name is to change.
#[derive(Debug, PartialEq, Eq)]
pub struct FolderRename {
    pub from: String,
    pub to: String,
    /// Something already has the new name.
    pub occupied: bool,
}

/// The contents of a `FolderRename`.
pub struct RenameView {
    pub from: Seq<char>,
    pub to: Seq<char>,
    pub occupied: bool,
}

impl View for FolderRename {
    type V = RenameView;

    open spec fn view(&self) -> RenameView {
        RenameView { from: self.from@, to: self.to@, occupied: self.occupied }
    }
}

pub open spec fn rename_views(list: Seq<FolderRename>) -> Seq<RenameView> {
    list.map_values(|r: FolderRename| r@)
}

/// The new name of a folder whose videos are all converted. Folders that start with `0_` and those
/// that already carry the suffix keep their names.
pub open spec fn rename_of(d: DiskView, suffix: Seq<char>) -> spec_fn(Seq<char>) -> Option<RenameView> {
    |dir: Seq<char>|
        match file_name(dir) {
            None => None,
            Some(name) => if has_prefix(name, "0_"@) || has_suffix(name, suffix) || !is_folder(d, dir)
                || !tree_complete(d, dir) {
                None
            } else {
                Some(
                    RenameView {
                        from: dir,
                        to: with_name(dir, name + suffix),
                        occupied: exists_on(d, with_name(dir, name + suffix)),
                    },
                )
            },
        }
}

pub open spec fn planned_renames(d: DiskView, targets: Seq<Seq<char>>, suffix: Seq<char>) -> Seq<
    RenameView,
> {
    rename_candidates(d, targets).filter_map(rename_of(d, suffix))
}

/// Those of the folders that can be read.
fn readable_folders(disk: &Disk, folders: &Vec<String>) -> (r: Vec<String>)
    ensures
        texts(r@) == texts(folders@).filter(can_be_read(disk@)),
{
    let ghost all = texts(folders@);
    let ghost wanted = can_be_read(disk@);
    let mut r: Vec<String> = Vec::new();
    let mut i: usize = 0;
    assert(texts(r@) =~= all.take(0).filter(wanted)) by {
        reveal(Seq::filter);
    }
    while i < folders.len()
        invariant
            i <= folders@.len(),
            all == texts(folders@),
            wanted == can_be_read(disk@),
            texts(r@) == all.take(i as int).filter(wanted),
        decreases folders@.len() - i,
    {
        let ghost before = texts(r@);
        proof {
            reveal(Seq::filter);
            assert(all.take(i + 1).drop_last() =~= all.take(i as int));
            assert(all.take(i + 1).last() == folders@[i as int]@);
        }
        if disk.entries(folders[i].as_str()).is_some() {
            r.push(folders[i].clone());
            assert(texts(r@) =~= before.push(folders@[i as int]@));
        }
        i = i + 1;
    }
    assert(all.take(i as int) =~= all);
    r
}

fn target_folders(disk: &Disk, targets: &Vec<String>) -> (r: Vec<String>)
    ensures
        texts(r@) == folders_of_targets(disk@, texts(targets@)),
{
    let ghost all = texts(targets@);
    let mut r: Vec<String> = Vec::new();
    let mut i: usize = 0;
    assert(texts(r@) =~= folders_of_targets(disk@, all.take(0)));
    while i < targets.len()
        invariant
            i <= targets@.len(),
            all == texts(targets@),
            texts(r@) == folders_of_targets(disk@, all.take(i as int)),
        decreases targets@.len() - i,
    {
        assert(all.take(i + 1).drop_last() =~= all.take(i as int));
        assert(all.take(i + 1).last() == targets@[i as int]@);
        let target = targets[i].as_str();
        if disk.is_dir(target) {
            let below = readable_folders(disk, &disk.folders_below(target, Descent::Unconverted));
            append_all(&mut r, &below);
        } else {
            match path_parent(target) {
                Some(folder) => {
                    let ghost before = texts(r@);
                    let ghost added = folder@;
                    r.push(folder);
                    assert(texts(r@) =~= before + seq![added]);
                },
                None => {
                    assert(texts(r@) + Seq::<Seq<char>>::empty() =~= texts(r@));
                },
            }
        }
        i = i + 1;
    }
    assert(all.take(i as int) =~= all);
    r
}

fn deepest_first(folders: &Vec<String>) -> (r: Vec<String>)
    ensures
        texts(r@) == sorted_by_keys(texts(folders@), depth_keys(texts(folders@))),
{
    let mut keys: Vec<Vec<NaturalPart>> = Vec::new();
    let ghost wanted = depth_keys(texts(folders@));
    let mut i: usize = 0;
    while i < folders.len()
        invariant
            i <= folders@.len(),
            wanted == depth_keys(texts(folders@)),
            key_views(keys@) == wanted.take(i as int),
        decreases folders@.len() - i,
    {
        let ghost before = key_views(keys@);
        let mut key: Vec<NaturalPart> = Vec::new();
        let levels: u128 = path_depth(folders[i].as_str());
        key.push(NaturalPart::Number(u128::MAX - levels, 0));
        assert(part_views(key@) =~= depth_key(folders@[i as int]@));
        keys.push(key);
        assert(key_views(keys@) =~= before.push(wanted[i as int]));
        i = i + 1;
        assert(key_views(keys@) =~= wanted.take(i as int));
    }
    assert(key_views(keys@) =~= wanted);
    sort_by_keys(folders, &keys)
}

fn rename_of_folder(disk: &Disk, directory: &str, suffix: &str) -> (r: Option<FolderRename>)
    ensures
        match r {
            Some(x) => rename_of(disk@, suffix@)(directory@) == Some(x@),
            None => rename_of(disk@, suffix@)(directory@) is None,
        },
{
    let name = match path_file_name(directory) {
        Some(name) => name,
        None => {
            return None;
        },
    };
    if text_starts_with(name.as_str(), "0_") || text_ends_with(name.as_str(), suffix)
        || !disk.is_dir(directory) {
        return None;
    }
    if !directory_tree_is_conversion_complete(disk, directory) {
        return None;
    }
    let new_name = concat2(name.as_str(), suffix);
    let to = path_with_name(directory, new_name.as_str());
    let occupied = disk.has_path(to.as_str());
    Some(FolderRename { from: directory.to_owned(), to, occupied })
}

/// The folders that get a new name when a task has finished, in the order in which to rename them;
/// none where the task's workflow gives no new names.
pub open spec fn task_renames(env: SurroundingsView, t: TaskView) -> Seq<RenameView> {
    match suffix_of(env.presets, t.settings.mode, t.settings.encoder) {
        Some(suffix) => planned_renames(env.disk, t.targets, " "@ + suffix),
        None => Seq::empty(),
    }
}

/// The folders that get a new name when a task has finished, in the order in which to rename them.
pub fn rename_completed_task_directories(env: &Surroundings, task: &QueueTask) -> (r: Vec<
    FolderRename,
>)
    ensures
        rename_views(r@) == task_renames(env@, task@),
{
    match env.presets.converted_directory_suffix(task.settings.mode, task.settings.encoder) {
        Some(suffix) => {
            let ending = concat2(" ", suffix.as_str());
            plan_renames(&env.disk, &task.targets, ending.as_str())
        },
        None => {
            let none: Vec<FolderRename> = Vec::new();
            assert(rename_views(none@) =~= Seq::<RenameView>::empty());
            none
        },
    }
}

fn plan_renames(disk: &Disk, targets: &Vec<String>, suffix: &str) -> (r: Vec<FolderRename>)
    ensures
        rename_views(r@) == planned_renames(disk@, texts(targets@), suffix@),
{
    let found = target_folders(disk, targets);
    let once = drop_repeats(&found);
    let folders = deepest_first(&once);
    let ghost all = rename_candidates(disk@, texts(targets@));
    let ghost f = rename_of(disk@, suffix@);
    assert(texts(folders@) == all);
    let mut r: Vec<FolderRename> = Vec::new();
    let mut i: usize = 0;
    assert(all.take(0) =~= Seq::<Seq<char>>::empty());
    assert(rename_views(r@) =~= all.take(0).filter_map(f)) by {
        reveal(Seq::filter_map);
    }
    while i < folders.len()
        invariant
            i <= folders@.len(),
            all == texts(folders@),
            f == rename_of(disk@, suffix@),
            rename_views(r@) == all.take(i as int).filter_map(f),
        decreases folders@.len() - i,
    {
        assert(all[i as int] == folders@[i as int]@);
        proof {
            all.lemma_filter_map_take_succ(f, i as int);
        }
        let ghost before = rename_views(r@);
        match rename_of_folder(disk, folders[i].as_str(), suffix) {
            Some(x) => {
                let ghost added = x@;
                r.push(x);
                assert(rename_views(r@) =~= before + seq![added]);
            },
            None => {},
        }
        i = i + 1;
    }
    assert(all.take(i as int) =~= all);
    r
}

/// The words for a rename that was tried, or not tried because the name was taken.
pub open spec fn rename_note(r: RenameView, failure: Option<Seq<char>>) -> Seq<char> {
    if r.occupied {
        "Unable to rename completed folder "@ + r.from + ": "@ + r.to + " already exists"@
    } else {
        match failure {
            None => "Renamed completed folder "@ + r.from + " to "@ + r.to,
            Some(e) => "Unable to rename completed folder "@ + r.from + ": "@ + e,
        }
    }
}

/// The words for a rename that was tried, or not tried because the name was taken.
pub fn rename_message(rename: &FolderRename, failure: Option<&str>) -> (r: String)
    ensures
        r@ == rename_note(rename@, crate::targets::opt_slice(failure)),
{
    if rename.occupied {
        let mut text = concat2("Unable to rename completed folder ", rename.from.as_str());
        text.append(": ");
        text.append(rename.to.as_str());
        text.append(" already exists");
        text
    } else {
        match failure {
            None => {
                let mut text = concat2("Renamed completed folder ", rename.from.as_str());
                text.append(" to ");
                text.append(rename.to.as_str());
                text
            },
            Some(e) => {
                let mut text = concat2("Unable to rename completed folder ", rename.from.as_str());
                text.append(": ");
                text.append(e);
                text
            },
        }
    }
}

/// A folder gets its new name only if each of its videos has its original set aside.
pub proof fn law_only_complete_folders_are_renamed(
    d: DiskView,
    targets: Seq<Seq<char>>,
    suffix: Seq<char>,
    r: RenameView,
)
    requires
        planned_renames(d, targets, suffix).contains(r),
    ensures
        is_folder(d, r.from),
        tree_complete(d, r.from),
        folder_complete(d, r.from),
        r.occupied == exists_on(d, r.to),
{
    let folders = rename_candidates(d, targets);
    let f = rename_of(d, suffix);
    lemma_filter_map_source(folders, f, r);
    let i = choose|i: int| 0 <= i < folders.len() && f(folders[i]) == Some(r);
    assert(f(folders[i]) == Some(r));
    assert(folders_below(d, r.from, Descent::Unconverted)[0] == r.from);
}

proof fn lemma_filter_map_source(
    s: Seq<Seq<char>>,
    f: spec_fn(Seq<char>) -> Option<RenameView>,
    r: RenameView,
)
    requires
        s.filter_map(f).contains(r),
    ensures
        exists|i: int| 0 <= i < s.len() && f(#[trigger] s[i]) == Some(r),
    decreases s.len(),
{
    reveal(Seq::filter_map);
    if s.len() > 0 {
        let before = s.drop_last().filter_map(f);
        if before.contains(r) {
            lemma_filter_map_source(s.drop_last(), f, r);
            let i = choose|i: int|
                0 <= i < s.drop_last().len() && f(#[trigger] s.drop_last()[i]) == Some(r);
            assert(s[i] == s.drop_last()[i]);
        } else {
            let k = choose|k: int| 0 <= k < s.filter_map(f).len() && s.filter_map(f)[k] == r;
            if k < before.len() {
                assert(before[k] == r);
            }
            assert(f(s.last()) == Some(r));
            assert(s[s.len() - 1] == s.last());
        }
    }
}

proof fn lemma_repeats_come_from_the_list(s: Seq<Seq<char>>, p: Seq<char>)
    requires
        without_repeats(s).contains(p),
    ensures
        s.contains(p),
    decreases s.len(),
{
    let before = without_repeats(s.drop_last());
    if before.contains(p) {
        lemma_repeats_come_from_the_list(s.drop_last(), p);
        let i = choose|i: int| 0 <= i < s.drop_last().len() && s.drop_last()[i] == p;
        assert(s[i] == p);
    } else {
        let k = choose|k: int| 0 <= k < without_repeats(s).len() && without_repeats(s)[k] == p;
        if k < before.len() {
            assert(before[k] == p);
        }
        assert(s[s.len() - 1] == p);
    }
}

/// A folder of the targets can be read, or a target stands in it that is no folder.
proof fn lemma_folder_of_targets(d: DiskView, targets: Seq<Seq<char>>, dir: Seq<char>)
    requires
        folders_of_targets(d, targets).contains(dir),
    ensures
        is_readable(d, dir) || exists|i: int|
            0 <= i < targets.len() && !is_folder(d, #[trigger] targets[i]) && parent(targets[i])
                == Some(dir),
    decreases targets.len(),
{
    if targets.len() > 0 {
        let rest = targets.drop_last();
        let before = folders_of_targets(d, rest);
        let here = folders_of_target(d, targets.last());
        let k = choose|k: int| 0 <= k < (before + here).len() && (before + here)[k] == dir;
        if k < before.len() {
            assert(before[k] == dir);
            lemma_folder_of_targets(d, rest, dir);
            if !is_readable(d, dir) {
                let i = choose|i: int|
                    0 <= i < rest.len() && !is_folder(d, #[trigger] rest[i]) && parent(rest[i])
                        == Some(dir);
                assert(targets[i] == rest[i]);
            }
        } else {
            assert(here[k - before.len()] == dir);
            let last = targets[targets.len() - 1];
            if is_folder(d, last) {
                let all = folders_below(d, last, Descent::Unconverted);
                all.lemma_filter_contains_rev(can_be_read(d), dir);
                assert(can_be_read(d)(dir)) by {
                    broadcast use vstd::seq_lib::group_filter_ensures;

                    assert(all.filter(can_be_read(d))[k - before.len()] == dir);
                }
            } else {
                assert(parent(last) == Some(dir));
            }
        }
    }
}

/// A folder that could not be read keeps its name, unless a target of the task stands in it that is no
/// folder.
pub proof fn law_unreadable_folders_keep_their_names(
    d: DiskView,
    targets: Seq<Seq<char>>,
    suffix: Seq<char>,
    r: RenameView,
)
    requires
        without_repeats(folders_of_targets(d, targets)).len() <= usize::MAX,
        planned_renames(d, targets, suffix).contains(r),
        forall|i: int|
            0 <= i < targets.len() ==> is_folder(d, #[trigger] targets[i]) || parent(targets[i])
                != Some(r.from),
    ensures
        is_readable(d, r.from),
{
    let folders = without_repeats(folders_of_targets(d, targets));
    let sorted = rename_candidates(d, targets);
    let f = rename_of(d, suffix);
    lemma_filter_map_source(sorted, f, r);
    let i = choose|i: int| 0 <= i < sorted.len() && f(#[trigger] sorted[i]) == Some(r);
    assert(sorted[i] == r.from);
    let keys = depth_keys(folders);
    let order = sorted_positions(keys);
    lemma_stable_order_exists(keys);
    lemma_sorted_is_picked(sorted, folders, keys, order);
    law_sorting_keeps_every_item(sorted, folders, keys);
    assert(sorted.contains(r.from));
    lemma_repeats_come_from_the_list(folders_of_targets(d, targets), r.from);
    lemma_folder_of_targets(d, targets, r.from);
}

/// Every candidate folder whose videos are all converted gets a new name beside it: its old name and the suffix.
/// Folders that start with `0_` and folders that already end with the suffix keep their names.
pub proof fn law_complete_folders_are_renamed(
    d: DiskView,
    targets: Seq<Seq<char>>,
    suffix: Seq<char>,
    dir: Seq<char>,
)
    requires
        rename_candidates(d, targets).contains(dir),
        file_name(dir) is Some,
        is_plain_name(file_name(dir)->0 + suffix),
        is_folder(d, dir),
        tree_complete(d, dir),
        !has_prefix(file_name(dir)->0, "0_"@),
        !has_suffix(file_name(dir)->0, suffix),
    ensures
        exists|r: RenameView| #[trigger]
            planned_renames(d, targets, suffix).contains(r) && r.from == dir && parent(r.to) == parent(dir)
                && last_component(r.to) == file_name(dir)->0 + suffix && r.occupied == exists_on(d, r.to),
{
    let folders = rename_candidates(d, targets);
    let f = rename_of(d, suffix);
    let k = choose|k: int| 0 <= k < folders.len() && folders[k] == dir;
    lemma_filter_map_has(folders, f, k);
    let r = f(folders[k])->0;
    lemma_named_anew(dir, file_name(dir)->0 + suffix);
    assert(planned_renames(d, targets, suffix).contains(r));
}

/// A folder that gets a new name has not got it yet, and its name does not start with `0_`.
pub proof fn law_renamed_folders_lacked_the_suffix(
    d: DiskView,
    targets: Seq<Seq<char>>,
    suffix: Seq<char>,
    r: RenameView,
)
    requires
        planned_renames(d, targets, suffix).contains(r),
    ensures
        file_name(r.from) matches Some(name) && !has_prefix(name, "0_"@) && !has_suffix(name, suffix)
            && r.to == with_name(r.from, name + suffix),
        rename_candidates(d, targets).contains(r.from),
{
    let folders = rename_candidates(d, targets);
    let f = rename_of(d, suffix);
    lemma_filter_map_source(folders, f, r);
    let i = choose|i: int| 0 <= i < folders.len() && f(#[trigger] folders[i]) == Some(r);
    assert(folders[i] == r.from);
}

/// A folder counts as converted exactly if it has as many videos as its folder of originals, which stands in it
/// under the name `original`.
pub proof fn law_converted_folders_have_their_originals(d: DiskView, dir: Seq<char>)
    ensures
        folder_complete(d, dir) <==> direct_videos(d, dir) == direct_videos(d, joined(dir, "original"@)),
        tree_complete(d, dir) ==> folder_complete(d, dir),
{
    assert(folders_below(d, dir, Descent::Unconverted)[0] == dir);
}

/// A task's folders are renamed with a space and the suffix of its workflow and encoder; without one, none is.
pub proof fn law_folders_get_the_suffix_of_their_task(env: SurroundingsView, t: TaskView, suffix: Seq<char>)
    ensures
        suffix_of(env.presets, t.settings.mode, t.settings.encoder) == Some(suffix) ==> task_renames(env, t)
            == planned_renames(env.disk, t.targets, " "@ + suffix),
        suffix_of(env.presets, t.settings.mode, t.settings.encoder) is None ==> task_renames(env, t).len() == 0,
{
}

/// The words for a rename name both paths, or the folder and what stood in the way.
pub proof fn law_words_for_renames(r: RenameView, e: Seq<char>)
    ensures
        r.occupied ==> rename_note(r, None) == "Unable to rename completed folder "@ + r.from + ": "@ + r.to
            + " already exists"@,
        !r.occupied ==> rename_note(r, None) == "Renamed completed folder "@ + r.from + " to "@ + r.to,
        !r.occupied ==> rename_note(r, Some(e)) == "Unable to rename completed folder "@ + r.from + ": "@ + e,
{
}

} // verus!
