//! The files of a task as they are listed: converted, waiting, or failed.

use crate::disk::{
    files_below, is_done, is_file, is_folder, is_photo_path, set_aside_from,
    should_skip_queue_source, Descent, Disk, DiskView, Wanted,
};
use crate::failures::{failure_views, FailureView, FileFailure};
use crate::history::{history_value, row_views, CompletedHistoryRow};
use crate::media_files::{has_video_filename, is_photo_name, is_video_name};
use crate::model::{encoder_user_name, mode_label, ContentMode, SettingsView};
use crate::natural::{
    full_path_natural_key, key_views, law_sorting_keeps_every_item, lemma_sorted_is_picked,
    natural_parts, picks, sorted_by_keys, stable_order, NaturalPart, PartView,
};
use crate::output_naming::text_or;
use crate::paths::{
    file_name, file_stem, has_path, parent, path_file_name, path_file_stem, path_parent, plain_path,
    plain_paths, plains,
};
use crate::presets::{suffix_of, Surroundings, SurroundingsView};
use crate::queue::{QueueStatus, QueueTask, TaskView};
use crate::renaming::is_component;
use crate::summary::{
    file_key, found_renamed, renamed_on_disk, summary_path_key, videos_of_all, videos_of_folders,
};
use crate::targets::opt_slice;
use crate::text::{
    concat2, concat3, has_prefix, list_contains, same_text, split_on, split_text, text_starts_with,
    texts, to_chars, unicode_lower, unicode_lowercase,
};
use crate::thumbnails::same_texts;
use vstd::prelude::*;

verus! {

/// A file of a task, as it is listed.
#[derive(Debug, PartialEq, Eq)]
pub struct SlintTaskFileSnapshot {
    pub title: String,
    pub path: String,
    pub status: String,
    pub started_time: String,
    pub completed_time: String,
    pub conversion_time: String,
    pub original_size: String,
    pub new_size: String,
    pub original_fps: String,
    pub new_fps: String,
    pub codec: String,
    pub duration: String,
    pub error_detail: String,
}

/// The contents of a `SlintTaskFileSnapshot`.
pub struct FileView {
    pub title: Seq<char>,
    pub path: Seq<char>,
    pub status: Seq<char>,
    pub started_time: Seq<char>,
    pub completed_time: Seq<char>,
    pub conversion_time: Seq<char>,
    pub original_size: Seq<char>,
    pub new_size: Seq<char>,
    pub original_fps: Seq<char>,
    pub new_fps: Seq<char>,
    pub codec: Seq<char>,
    pub duration: Seq<char>,
    pub error_detail: Seq<char>,
}

impl View for SlintTaskFileSnapshot {
    type V = FileView;

    open spec fn view(&self) -> FileView {
        FileView {
            title: self.title@,
            path: self.path@,
            status: self.status@,
            started_time: self.started_time@,
            completed_time: self.completed_time@,
            conversion_time: self.conversion_time@,
            original_size: self.original_size@,
            new_size: self.new_size@,
            original_fps: self.original_fps@,
            new_fps: self.new_fps@,
            codec: self.codec@,
            duration: self.duration@,
            error_detail: self.error_detail@,
        }
    }
}

impl Clone for SlintTaskFileSnapshot {
    fn clone(&self) -> (r: Self)
        ensures
            r == *self,
    {
        SlintTaskFileSnapshot {
            title: self.title.clone(),
            path: self.path.clone(),
            status: self.status.clone(),
            started_time: self.started_time.clone(),
            completed_time: self.completed_time.clone(),
            conversion_time: self.conversion_time.clone(),
            original_size: self.original_size.clone(),
            new_size: self.new_size.clone(),
            original_fps: self.original_fps.clone(),
            new_fps: self.new_fps.clone(),
            codec: self.codec.clone(),
            duration: self.duration.clone(),
            error_detail: self.error_detail.clone(),
        }
    }
}

pub open spec fn task_file_views(list: Seq<SlintTaskFileSnapshot>) -> Seq<FileView> {
    list.map_values(|f: SlintTaskFileSnapshot| f@)
}

/// The name of a file, or the path itself where it has none.
pub open spec fn title_of(path: Seq<char>) -> Seq<char> {
    text_or(file_name(path), path)
}

pub fn task_file_title(path: &str) -> (r: String)
    ensures
        r@ == title_of(path@),
{
    match path_file_name(path) {
        Some(name) => name,
        None => path.to_owned(),
    }
}

/// A file of which nothing but its state is known.
pub open spec fn plain_file(path: Seq<char>, status: Seq<char>) -> FileView {
    FileView {
        title: title_of(path),
        path,
        status,
        started_time: "-"@,
        completed_time: "-"@,
        conversion_time: "-"@,
        original_size: "-"@,
        new_size: "-"@,
        original_fps: "-"@,
        new_fps: "-"@,
        codec: "-"@,
        duration: "-"@,
        error_detail: Seq::empty(),
    }
}

fn dash() -> (r: String)
    ensures
        r@ == "-"@,
{
    "-".to_owned()
}

fn empty_text() -> (r: String)
    ensures
        r@ == Seq::<char>::empty(),
{
    let r = String::new();
    assert(r@ =~= Seq::<char>::empty());
    r
}

pub fn unavailable_task_file(path: &str, status: &str) -> (r: SlintTaskFileSnapshot)
    ensures
        r@ == plain_file(path@, status@),
{
    SlintTaskFileSnapshot {
        title: task_file_title(path),
        path: path.to_owned(),
        status: status.to_owned(),
        started_time: dash(),
        completed_time: dash(),
        conversion_time: dash(),
        original_size: dash(),
        new_size: dash(),
        original_fps: dash(),
        new_fps: dash(),
        codec: dash(),
        duration: dash(),
        error_detail: empty_text(),
    }
}

/// The codec of a converted file: from what to what, as far as that is known.
pub open spec fn codec_text(row: Seq<Seq<char>>) -> Seq<char> {
    match (history_value(row[16]), history_value(row[17])) {
        (Some(original), Some(converted)) => if original != converted {
            original + " → "@ + converted
        } else {
            converted
        },
        (None, Some(converted)) => converted,
        (Some(original), None) => original,
        (None, None) => row[11],
    }
}

/// A file that the history tells of.
pub open spec fn converted_file(row: Seq<Seq<char>>) -> FileView {
    FileView {
        title: title_of(row[0]),
        path: row[0],
        status: "Completed"@,
        started_time: row[3],
        completed_time: row[4],
        conversion_time: if row[5] == "-"@ {
            "-"@
        } else {
            row[5] + " min"@
        },
        original_size: row[6],
        new_size: row[7],
        original_fps: row[9],
        new_fps: row[10],
        codec: codec_text(row),
        duration: text_or(history_value(row[18]), "-"@),
        error_detail: Seq::empty(),
    }
}

pub fn completed_task_file(row: &CompletedHistoryRow) -> (r: SlintTaskFileSnapshot)
    ensures
        r@ == converted_file(row@),
{
    let columns = row.columns();
    assert(forall|i: int| 0 <= i < 19 ==> (#[trigger] columns@[i])@ == row@[i]);
    let codec = match (row.original_codec(), row.converted_codec()) {
        (Some(original), Some(converted)) => {
            if !same_text(original, converted) {
                concat3(original, " → ", converted)
            } else {
                converted.to_owned()
            }
        },
        (None, Some(converted)) => converted.to_owned(),
        (Some(original), None) => original.to_owned(),
        (None, None) => columns[11].clone(),
    };
    let conversion_time = if same_text(columns[5].as_str(), "-") {
        dash()
    } else {
        concat2(columns[5].as_str(), " min")
    };
    let duration = match row.duration() {
        Some(d) => d.to_owned(),
        None => dash(),
    };
    SlintTaskFileSnapshot {
        title: task_file_title(columns[0].as_str()),
        path: columns[0].clone(),
        status: "Completed".to_owned(),
        started_time: columns[3].clone(),
        completed_time: columns[4].clone(),
        conversion_time,
        original_size: columns[6].clone(),
        new_size: columns[7].clone(),
        original_fps: columns[9].clone(),
        new_fps: columns[10].clone(),
        codec,
        duration,
        error_detail: empty_text(),
    }
}

pub open spec fn lowered() -> spec_fn(Seq<char>) -> Seq<char> {
    |c: Seq<char>| unicode_lower(c)
}

/// The components of a path in lower case.
pub open spec fn lower_components(p: Seq<char>) -> Seq<Seq<char>> {
    let pieces = split_text(p, '/');
    let first = if has_prefix(p, "/"@) {
        seq!["/"@]
    } else if pieces[0] == "."@ {
        seq!["."@]
    } else {
        Seq::empty()
    };
    first + pieces.filter(is_component()).map_values(lowered())
}

fn path_components_lowercase(path: &str) -> (r: Vec<String>)
    ensures
        texts(r@) == lower_components(path@),
{
    let pieces = split_on(path, '/');
    let ghost all = split_text(path@, '/');
    let mut r: Vec<String> = Vec::new();
    assert(texts(pieces@) == all);
    assert(all.len() == pieces@.len());
    assert(all[0] == pieces@[0]@);
    if text_starts_with(path, "/") {
        r.push("/".to_owned());
        assert(texts(r@) =~= seq!["/"@]);
    } else if same_text(pieces[0].as_str(), ".") {
        r.push(".".to_owned());
        assert(texts(r@) =~= seq!["."@]);
    } else {
        assert(texts(r@) =~= Seq::<Seq<char>>::empty());
    }
    let ghost first = texts(r@);
    let ghost test = is_component();
    let mut i: usize = 0;
    assert(all.take(0).filter(test) =~= Seq::<Seq<char>>::empty());
    assert(texts(r@) =~= first + all.take(0).filter(test).map_values(lowered()));
    while i < pieces.len()
        invariant
            i <= pieces@.len(),
            all == texts(pieces@),
            test == is_component(),
            texts(r@) == first + all.take(i as int).filter(test).map_values(lowered()),
        decreases pieces@.len() - i,
    {
        let ghost before = texts(r@);
        let ghost kept = all.take(i as int).filter(test);
        proof {
            assert(all.take(i + 1) =~= all.take(i as int).push(all[i as int]));
            all.take(i as int).lemma_filter_push(all[i as int], test);
            assert(all[i as int] == pieces@[i as int]@);
        }
        let chars = to_chars(pieces[i].as_str());
        if chars.len() > 0 && !same_text(pieces[i].as_str(), ".") {
            r.push(unicode_lowercase(pieces[i].as_str()));
            assert(texts(r@) =~= before.push(lowered()(all[i as int])));
            assert(kept.push(all[i as int]).map_values(lowered()) =~= kept.map_values(
                lowered(),
            ).push(lowered()(all[i as int])));
            assert(texts(r@) =~= first + all.take(i + 1).filter(test).map_values(lowered()));
        }
        i = i + 1;
    }
    assert(all.take(i as int) =~= all);
    r
}

/// The list starts with these items.
pub open spec fn starts_with_all(list: Seq<Seq<char>>, head: Seq<Seq<char>>) -> bool {
    head.len() <= list.len() && list.take(head.len() as int) == head
}

fn list_starts_with(list: &Vec<String>, head: &Vec<String>) -> (r: bool)
    ensures
        r == starts_with_all(texts(list@), texts(head@)),
{
    if head.len() > list.len() {
        return false;
    }
    let mut i: usize = 0;
    while i < head.len()
        invariant
            i <= head@.len(),
            head@.len() <= list@.len(),
            forall|j: int| 0 <= j < i ==> texts(list@)[j] == texts(head@)[j],
        decreases head@.len() - i,
    {
        if !same_text(list[i].as_str(), head[i].as_str()) {
            assert(texts(list@).take(head@.len() as int)[i as int] != texts(head@)[i as int]);
            return false;
        }
        i = i + 1;
    }
    assert(texts(list@).take(head@.len() as int) =~= texts(head@));
    true
}

/// A path is a folder or something in it, without regard to case.
pub open spec fn is_within(path: Seq<char>, root: Seq<char>) -> bool {
    starts_with_all(lower_components(path), lower_components(root))
}

pub open spec fn opt_lower_components(p: Option<Seq<char>>) -> Option<Seq<Seq<char>>> {
    match p {
        Some(p) => Some(lower_components(p)),
        None => None,
    }
}

pub open spec fn opt_lower(p: Option<Seq<char>>) -> Option<Seq<char>> {
    match p {
        Some(p) => Some(unicode_lower(p)),
        None => None,
    }
}

/// A converted file belongs to a target: it is in the target's folder, or beside the target with the
/// same stem.
pub open spec fn matches_target(d: DiskView, path: Seq<char>, target: Seq<char>) -> bool {
    if is_folder(d, target) || !is_video_name(target) {
        is_within(path, target)
    } else {
        opt_lower_components(parent(path)) == opt_lower_components(parent(target)) && opt_lower(
            file_stem(path),
        ) == opt_lower(file_stem(target))
    }
}

fn same_parents(a: &str, b: &str) -> (r: bool)
    ensures
        r == (opt_lower_components(parent(a@)) == opt_lower_components(parent(b@))),
{
    match (path_parent(a), path_parent(b)) {
        (Some(x), Some(y)) => {
            let x = path_components_lowercase(x.as_str());
            let y = path_components_lowercase(y.as_str());
            same_texts(&x, &y)
        },
        (None, None) => true,
        _ => false,
    }
}

fn same_stems(a: &str, b: &str) -> (r: bool)
    ensures
        r == (opt_lower(file_stem(a@)) == opt_lower(file_stem(b@))),
{
    match (path_file_stem(a), path_file_stem(b)) {
        (Some(x), Some(y)) => {
            let x = unicode_lowercase(x.as_str());
            let y = unicode_lowercase(y.as_str());
            same_text(x.as_str(), y.as_str())
        },
        (None, None) => true,
        _ => false,
    }
}

pub fn history_path_matches_target(disk: &Disk, path: &str, target: &str) -> (r: bool)
    ensures
        r == matches_target(disk@, path@, target@),
{
    if disk.is_dir(target) || !has_video_filename(target) {
        let a = path_components_lowercase(path);
        let b = path_components_lowercase(target);
        return list_starts_with(&a, &b);
    }
    same_parents(path, target) && same_stems(path, target)
}

/// Some of the targets has this converted file.
pub open spec fn matches_any(d: DiskView, path: Seq<char>, targets: Seq<Seq<char>>) -> bool {
    exists|i: int| 0 <= i < targets.len() && matches_target(d, path, #[trigger] targets[i])
}

pub open spec fn listed_encoder(s: SettingsView) -> Seq<char> {
    if s.mode == ContentMode::Trim {
        "Stream copy"@
    } else {
        encoder_user_name(s.encoder)
    }
}

/// A history row belongs to a task: it names the task or, where it names none, its workflow and encoder
/// are those of the task and its file belongs to one of the task's targets.
pub open spec fn row_of_task(d: DiskView, row: Seq<Seq<char>>, t: TaskView) -> bool {
    match history_value(row[14]) {
        Some(id) => id == t.id,
        None => {
            let path = text_or(history_value(row[15]), row[0]);
            row[1] == mode_label(t.settings.mode) && row[11] == listed_encoder(t.settings) && ((
            t.source_root matches Some(root) && matches_target(d, path, root)) || matches_any(
                d,
                path,
                t.targets,
            ))
        },
    }
}

fn some_target_matches(disk: &Disk, path: &str, targets: &Vec<String>) -> (r: bool)
    ensures
        r == matches_any(disk@, path@, texts(targets@)),
{
    let mut i: usize = 0;
    while i < targets.len()
        invariant
            i <= targets@.len(),
            forall|j: int|
                0 <= j < i ==> !matches_target(disk@, path@, #[trigger] texts(targets@)[j]),
        decreases targets@.len() - i,
    {
        assert(texts(targets@)[i as int] == targets@[i as int]@);
        if history_path_matches_target(disk, path, targets[i].as_str()) {
            return true;
        }
        i = i + 1;
    }
    assert(texts(targets@).len() == targets@.len());
    false
}

pub fn history_row_matches_task(disk: &Disk, row: &CompletedHistoryRow, task: &QueueTask) -> (r: bool)
    ensures
        r == row_of_task(disk@, row@, task@),
{
    if let Some(id) = row.task_id() {
        return same_text(id, task.id.as_str());
    }
    let columns = row.columns();
    assert(forall|i: int| 0 <= i < 19 ==> (#[trigger] columns@[i])@ == row@[i]);
    let encoder = if task.settings.mode == ContentMode::Trim {
        "Stream copy"
    } else {
        task.settings.encoder.user_name()
    };
    if !same_text(columns[1].as_str(), task.settings.mode.label()) || !same_text(
        columns[11].as_str(),
        encoder,
    ) {
        return false;
    }
    let path = match row.input_path() {
        Some(path) => path,
        None => columns[0].as_str(),
    };
    if let Some(root) = &task.source_root {
        if history_path_matches_target(disk, path, root.as_str()) {
            return true;
        }
    }
    some_target_matches(disk, path, &task.targets)
}

/// The files as they are all converted.
pub open spec fn all_done(paths: Seq<Seq<char>>) -> Seq<(Seq<char>, bool)> {
    paths.map_values(|p: Seq<char>| (p, true))
}

/// The files, each with whether it needs no more work.
pub open spec fn each_done(d: DiskView, mode: ContentMode, paths: Seq<Seq<char>>) -> Seq<
    (Seq<char>, bool),
> {
    paths.map_values(|p: Seq<char>| (p, is_done(d, p, mode)))
}

/// The videos of a folder that a task works on, each with whether it is converted.
pub open spec fn folder_details(d: DiskView, mode: ContentMode, own: Option<Seq<char>>, root: Seq<char>) -> Seq<
    (Seq<char>, bool),
> {
    if !is_folder(d, root) {
        match found_renamed(d, root, own) {
            Some(renamed) => all_done(files_below(d, renamed, Descent::Finished, Wanted::Videos)),
            None => Seq::empty(),
        }
    } else {
        let open = each_done(d, mode, files_below(d, root, Descent::Unconverted, Wanted::Videos));
        if mode == ContentMode::CameraVideos {
            open
        } else {
            open + all_done(videos_of_all(d, set_aside_from(d, root, 0)))
        }
    }
}

/// The videos of one target of a task, each with whether it is converted.
pub open spec fn target_details(env: SurroundingsView, t: TaskView, target: Seq<char>) -> Seq<
    (Seq<char>, bool),
> {
    if is_folder(env.disk, target) || !is_video_name(target) {
        folder_details(
            env.disk,
            t.settings.mode,
            suffix_of(env.presets, t.settings.mode, t.settings.encoder),
            target,
        )
    } else {
        seq![
            (
                target,
                t.status == QueueStatus::Completed || has_path(t.skipped_paths, target) || is_done(
                    env.disk,
                    target,
                    t.settings.mode,
                ),
            ),
        ]
    }
}

/// The videos of several targets of a task.
pub open spec fn details_of(env: SurroundingsView, t: TaskView, targets: Seq<Seq<char>>) -> Seq<
    (Seq<char>, bool),
>
    decreases targets.len(),
{
    if targets.len() == 0 {
        Seq::empty()
    } else {
        details_of(env, t, targets.drop_last()) + target_details(env, t, targets.last())
    }
}

pub open spec fn detail_keys(details: Seq<(Seq<char>, bool)>) -> Seq<Seq<PartView>> {
    details.map_values(|d: (Seq<char>, bool)| natural_parts(d.0))
}

/// The videos of a task in natural order.
pub open spec fn task_details(env: SurroundingsView, t: TaskView) -> Seq<(Seq<char>, bool)> {
    let details = details_of(env, t, t.targets);
    sorted_by_keys(details, detail_keys(details))
}

/// The contents of a list of files and states.
pub open spec fn detail_views(list: Seq<(String, bool)>) -> Seq<(Seq<char>, bool)> {
    list.map_values(|d: (String, bool)| (d.0@, d.1))
}

fn add_all_done(out: &mut Vec<(String, bool)>, paths: &Vec<String>)
    ensures
        detail_views(final(out)@) == detail_views(old(out)@) + all_done(texts(paths@)),
{
    let ghost all = all_done(texts(paths@));
    let ghost start = detail_views(out@);
    let mut i: usize = 0;
    assert(start + all.take(0) =~= start);
    while i < paths.len()
        invariant
            i <= paths@.len(),
            all == all_done(texts(paths@)),
            detail_views(out@) == start + all.take(i as int),
        decreases paths@.len() - i,
    {
        let ghost before = detail_views(out@);
        out.push((paths[i].clone(), true));
        assert(detail_views(out@) =~= before.push(all[i as int]));
        i = i + 1;
        assert(detail_views(out@) =~= start + all.take(i as int));
    }
    assert(all.take(i as int) =~= all);
}

fn add_each_done(out: &mut Vec<(String, bool)>, disk: &Disk, mode: ContentMode, paths: &Vec<String>)
    ensures
        detail_views(final(out)@) == detail_views(old(out)@) + each_done(
            disk@,
            mode,
            texts(paths@),
        ),
{
    let ghost all = each_done(disk@, mode, texts(paths@));
    let ghost start = detail_views(out@);
    let mut i: usize = 0;
    assert(start + all.take(0) =~= start);
    while i < paths.len()
        invariant
            i <= paths@.len(),
            all == each_done(disk@, mode, texts(paths@)),
            detail_views(out@) == start + all.take(i as int),
        decreases paths@.len() - i,
    {
        let ghost before = detail_views(out@);
        let done = should_skip_queue_source(disk, paths[i].as_str(), mode);
        out.push((paths[i].clone(), done));
        assert(detail_views(out@) =~= before.push(all[i as int]));
        i = i + 1;
        assert(detail_views(out@) =~= start + all.take(i as int));
    }
    assert(all.take(i as int) =~= all);
}

fn folder_task_detail_files(
    out: &mut Vec<(String, bool)>,
    disk: &Disk,
    mode: ContentMode,
    own: Option<&str>,
    root: &str,
)
    ensures
        detail_views(final(out)@) == detail_views(old(out)@) + folder_details(
            disk@,
            mode,
            opt_slice(own),
            root@,
        ),
{
    let ghost start = detail_views(out@);
    if !disk.is_dir(root) {
        match renamed_on_disk(disk, root, own) {
            Some(renamed) => {
                let files = disk.files_below(renamed.as_str(), Descent::Finished, Wanted::Videos);
                add_all_done(out, &files);
            },
            None => {
                assert(start + Seq::empty() =~= start);
            },
        }
        return;
    }
    let files = disk.files_below(root, Descent::Unconverted, Wanted::Videos);
    add_each_done(out, disk, mode, &files);
    if mode != ContentMode::CameraVideos {
        let folders = disk.set_aside_below(root);
        let videos = videos_of_folders(disk, &folders);
        let ghost open = each_done(disk@, mode, texts(files@));
        let ghost aside = all_done(texts(videos@));
        add_all_done(out, &videos);
        assert(start + open + aside =~= start + (open + aside));
    }
}

fn pick_details(items: &Vec<(String, bool)>, order: &Vec<usize>) -> (r: Vec<(String, bool)>)
    requires
        forall|i: int| 0 <= i < order@.len() ==> 0 <= (#[trigger] order@[i]) < items@.len(),
    ensures
        picks(detail_views(r@), detail_views(items@), order@),
{
    let mut r: Vec<(String, bool)> = Vec::new();
    let mut i: usize = 0;
    while i < order.len()
        invariant
            i <= order@.len(),
            r@.len() == i,
            forall|k: int| 0 <= k < order@.len() ==> 0 <= (#[trigger] order@[k]) < items@.len(),
            forall|k: int|
                0 <= k < i ==> #[trigger] detail_views(r@)[k] == detail_views(
                    items@,
                )[order@[k] as int],
        decreases order@.len() - i,
    {
        let ghost before = detail_views(r@);
        let place: usize = order[i];
        let path = items[place].0.clone();
        let done = items[place].1;
        r.push((path, done));
        assert(detail_views(r@) =~= before.push(detail_views(items@)[place as int]));
        i = i + 1;
    }
    r
}

/// The videos of a task in natural order, each with whether it is converted.
pub fn task_detail_files(env: &Surroundings, task: &QueueTask) -> (r: Vec<(String, bool)>)
    ensures
        detail_views(r@) == task_details(env@, task@),
{
    let mode = task.settings.mode;
    let suffix = env.presets.converted_directory_suffix(mode, task.settings.encoder);
    let own: Option<&str> = match &suffix {
        Some(s) => Some(s.as_str()),
        None => None,
    };
    assert(opt_slice(own) == suffix_of(env@.presets, mode, task@.settings.encoder));
    let ghost all = task@.targets;
    let skipped = plain_paths(&task.skipped_paths);
    let mut details: Vec<(String, bool)> = Vec::new();
    let mut i: usize = 0;
    assert(detail_views(details@) =~= details_of(env@, task@, all.take(0)));
    while i < task.targets.len()
        invariant
            i <= task.targets@.len(),
            all == texts(task.targets@),
            all == task@.targets,
            mode == task@.settings.mode,
            opt_slice(own) == suffix_of(env@.presets, mode, task@.settings.encoder),
            texts(skipped@) == plains(task@.skipped_paths),
            detail_views(details@) == details_of(env@, task@, all.take(i as int)),
        decreases task.targets@.len() - i,
    {
        let ghost before = detail_views(details@);
        assert(all.take(i + 1).drop_last() =~= all.take(i as int));
        assert(all.take(i + 1).last() == task.targets@[i as int]@);
        let target = task.targets[i].as_str();
        if env.disk.is_dir(target) || !has_video_filename(target) {
            folder_task_detail_files(&mut details, &env.disk, mode, own, target);
        } else {
            let done = task.status == QueueStatus::Completed || list_contains(
                &skipped,
                plain_path(target).as_str(),
            ) || should_skip_queue_source(&env.disk, target, mode);
            details.push((task.targets[i].clone(), done));
            assert(detail_views(details@) =~= before.push((target@, done)));
            assert(detail_views(details@) =~= before + seq![(target@, done)]);
        }
        i = i + 1;
    }
    assert(all.take(i as int) =~= all);
    let mut keys: Vec<Vec<NaturalPart>> = Vec::new();
    let ghost wanted = detail_keys(detail_views(details@));
    let mut k: usize = 0;
    while k < details.len()
        invariant
            k <= details@.len(),
            wanted == detail_keys(detail_views(details@)),
            key_views(keys@) == wanted.take(k as int),
        decreases details@.len() - k,
    {
        let ghost before = key_views(keys@);
        keys.push(full_path_natural_key(details[k].0.as_str()));
        assert(key_views(keys@) =~= before.push(wanted[k as int]));
        k = k + 1;
        assert(key_views(keys@) =~= wanted.take(k as int));
    }
    assert(key_views(keys@) =~= wanted);
    let order = stable_order(&keys);
    let r = pick_details(&details, &order);
    proof {
        lemma_sorted_is_picked(detail_views(r@), detail_views(details@), wanted, order@);
    }
    r
}

/// A list of files and, in lower case, the paths that are in it.
pub struct ListView {
    pub files: Seq<FileView>,
    pub seen: Seq<Seq<char>>,
}

/// The list with a file that the history tells of.
pub open spec fn with_row(list: ListView, row: Seq<Seq<char>>) -> ListView {
    let seen = list.seen.push(unicode_lower(row[0]));
    ListView {
        files: list.files.push(converted_file(row)),
        seen: match history_value(row[15]) {
            Some(input) => seen.push(unicode_lower(input)),
            None => seen,
        },
    }
}

/// The list with the files of the rows that belong to a task.
pub open spec fn with_history(
    list: ListView,
    d: DiskView,
    t: TaskView,
    rows: Seq<Seq<Seq<char>>>,
) -> ListView
    decreases rows.len(),
{
    if rows.len() == 0 {
        list
    } else {
        let before = with_history(list, d, t, rows.drop_last());
        if row_of_task(d, rows.last(), t) {
            with_row(before, rows.last())
        } else {
            before
        }
    }
}

/// The list with a file, where it is not in it.
pub open spec fn with_file(list: ListView, path: Seq<char>, status: Seq<char>) -> ListView {
    if list.seen.contains(unicode_lower(path)) {
        list
    } else {
        ListView {
            files: list.files.push(plain_file(path, status)),
            seen: list.seen.push(unicode_lower(path)),
        }
    }
}

/// The list with those of the paths that are not in it.
pub open spec fn with_paths(list: ListView, paths: Seq<Seq<char>>, status: Seq<char>) -> ListView
    decreases paths.len(),
{
    if paths.len() == 0 {
        list
    } else {
        with_file(with_paths(list, paths.drop_last(), status), paths.last(), status)
    }
}

/// The state of a file that is not known to have failed.
pub open spec fn file_status(done: bool) -> Seq<char> {
    if done {
        "Completed"@
    } else {
        "Queued"@
    }
}

/// The list with those of the videos that are not in it.
pub open spec fn with_details(
    list: ListView,
    details: Seq<(Seq<char>, bool)>,
    finished: bool,
) -> ListView
    decreases details.len(),
{
    if details.len() == 0 {
        list
    } else {
        with_file(
            with_details(list, details.drop_last(), finished),
            details.last().0,
            file_status(details.last().1 || finished),
        )
    }
}

pub open spec fn is_media(d: DiskView) -> spec_fn(Seq<char>) -> bool {
    |p: Seq<char>| is_video_name(p) || (is_file(d, p) && is_photo_name(p))
}

/// The files of a task, in the order in which they come up: those of the history, those found
/// converted before, those on the disk, the targets that are files and, where there is nothing else,
/// all targets.
pub open spec fn found_files(
    env: SurroundingsView,
    t: TaskView,
    rows: Seq<Seq<Seq<char>>>,
) -> Seq<FileView> {
    let none = ListView { files: Seq::empty(), seen: Seq::empty() };
    let finished = t.status == QueueStatus::Completed;
    let known = with_history(none, env.disk, t, rows);
    let skipped = with_paths(known, t.skipped_paths, "Completed"@);
    let on_disk = if t.settings.mode == ContentMode::PhotoSlideshow {
        skipped
    } else {
        with_details(skipped, task_details(env, t), finished)
    };
    let media = with_paths(on_disk, t.targets.filter(is_media(env.disk)), file_status(finished));
    if media.files.len() == 0 {
        with_paths(media, t.targets, file_status(finished)).files
    } else {
        media.files
    }
}

/// The failure that is listed for a file: the first whose path is the same without regard to case.
pub open spec fn failure_of(failures: Seq<FailureView>, path: Seq<char>) -> Option<FailureView>
    decreases failures.len(),
{
    if failures.len() == 0 {
        None
    } else if file_key(failures[0].path) == file_key(path) {
        Some(failures[0])
    } else {
        failure_of(failures.drop_first(), path)
    }
}

pub open spec fn marked(failures: Seq<FailureView>, file: FileView) -> FileView {
    match failure_of(failures, file.path) {
        Some(failure) => FileView { status: "Failed"@, error_detail: failure.error, ..file },
        None => file,
    }
}

/// The files with those that failed marked.
pub open spec fn all_marked(failures: Seq<FailureView>, files: Seq<FileView>) -> Seq<FileView> {
    files.map_values(|f: FileView| marked(failures, f))
}

pub open spec fn has_file(files: Seq<FileView>, path: Seq<char>) -> bool {
    exists|i: int| 0 <= i < files.len() && file_key((#[trigger] files[i]).path) == file_key(path)
}

/// The files with those that failed and are not among them.
pub open spec fn with_failed(files: Seq<FileView>, failures: Seq<FailureView>) -> Seq<FileView>
    decreases failures.len(),
{
    if failures.len() == 0 {
        files
    } else {
        let before = with_failed(files, failures.drop_last());
        if has_file(before, failures.last().path) {
            before
        } else {
            before.push(
                FileView {
                    error_detail: failures.last().error,
                    ..plain_file(failures.last().path, "Failed"@)
                },
            )
        }
    }
}

pub open spec fn file_keys(files: Seq<FileView>) -> Seq<Seq<PartView>> {
    files.map_values(|f: FileView| natural_parts(f.path))
}

/// The files of a task as they are listed, in natural order.
pub open spec fn listed_files(
    env: SurroundingsView,
    t: TaskView,
    rows: Seq<Seq<Seq<char>>>,
    failures: Seq<FailureView>,
) -> Seq<FileView> {
    let files = with_failed(all_marked(failures, found_files(env, t, rows)), failures);
    sorted_by_keys(files, file_keys(files))
}

/// The file of this path is listed as failed.
pub open spec fn lists_failed(files: Seq<FileView>, path: Seq<char>) -> bool {
    exists|i: int|
        0 <= i < files.len() && file_key((#[trigger] files[i]).path) == file_key(path)
            && files[i].status == "Failed"@
}

proof fn lemma_failure_is_found(failures: Seq<FailureView>, path: Seq<char>, k: int)
    requires
        0 <= k < failures.len(),
        file_key(failures[k].path) == file_key(path),
    ensures
        failure_of(failures, path) is Some,
    decreases failures.len(),
{
    if file_key(failures[0].path) != file_key(path) {
        assert(failures.drop_first()[k - 1] == failures[k]);
        lemma_failure_is_found(failures.drop_first(), path, k - 1);
    }
}

/// Every file that is listed under the path of a failure is marked as failed.
proof fn lemma_failed_are_marked(
    failures: Seq<FailureView>,
    files: Seq<FileView>,
    some: Seq<FailureView>,
    k: int,
)
    requires
        0 <= k < some.len(),
        forall|j: int| 0 <= j < some.len() ==> failures.contains(#[trigger] some[j]),
    ensures
        lists_failed(with_failed(all_marked(failures, files), some), some[k].path),
    decreases some.len(),
{
    let marked_files = all_marked(failures, files);
    let rest = some.drop_last();
    let before = with_failed(marked_files, rest);
    let now = with_failed(marked_files, some);
    lemma_with_failed_keeps(failures, files, some);
    assert forall|j: int| 0 <= j < rest.len() implies failures.contains(#[trigger] rest[j]) by {
        assert(rest[j] == some[j]);
    }
    if k < rest.len() {
        assert(rest[k] == some[k]);
        lemma_failed_are_marked(failures, files, rest, k);
        let i = choose|i: int|
            0 <= i < before.len() && file_key((#[trigger] before[i]).path) == file_key(
                some[k].path,
            ) && before[i].status == "Failed"@;
        assert(now[i] == before[i]);
    } else if has_file(before, some[k].path) {
        let i = choose|i: int|
            0 <= i < before.len() && file_key((#[trigger] before[i]).path) == file_key(
                some[k].path,
            );
        assert(now[i] == before[i]);
        lemma_with_failed_keeps(failures, files, rest);
        if i < marked_files.len() {
            assert(before[i] == marked_files[i]);
            let m = choose|m: int| 0 <= m < failures.len() && failures[m] == some[k];
            assert(marked(failures, files[i]).path == files[i].path);
            lemma_failure_is_found(failures, files[i].path, m);
        }
        assert(now[i].status == "Failed"@);
    } else {
        assert(now[now.len() - 1].path == some[k].path);
    }
}

/// The files with those that failed start with the files, and the others are marked as failed.
proof fn lemma_with_failed_keeps(
    failures: Seq<FailureView>,
    files: Seq<FileView>,
    some: Seq<FailureView>,
)
    ensures
        ({
            let marked_files = all_marked(failures, files);
            let now = with_failed(marked_files, some);
            &&& now.len() >= marked_files.len()
            &&& forall|i: int|
                0 <= i < marked_files.len() ==> #[trigger] now[i] == marked_files[i]
            &&& forall|i: int|
                marked_files.len() <= i < now.len() ==> (#[trigger] now[i]).status == "Failed"@
            &&& some.len() > 0 ==> with_failed(marked_files, some.drop_last()).len() <= now.len()
                && forall|i: int|
                0 <= i < with_failed(marked_files, some.drop_last()).len() ==> #[trigger] now[i]
                    == with_failed(marked_files, some.drop_last())[i]
        }),
    decreases some.len(),
{
    if some.len() > 0 {
        lemma_with_failed_keeps(failures, files, some.drop_last());
    }
}

struct FileList {
    files: Vec<SlintTaskFileSnapshot>,
    seen: Vec<String>,
}

impl FileList {
    spec fn view(&self) -> ListView {
        ListView { files: task_file_views(self.files@), seen: texts(self.seen@) }
    }

    fn note(&mut self, path: &str)
        ensures
            final(self).view() == (ListView {
                seen: old(self).view().seen.push(unicode_lower(path@)),
                ..old(self).view()
            }),
    {
        let ghost before = texts(self.seen@);
        self.seen.push(unicode_lowercase(path));
        assert(texts(self.seen@) =~= before.push(unicode_lower(path@)));
    }

    fn put(&mut self, file: SlintTaskFileSnapshot)
        ensures
            final(self).view() == (ListView {
                files: old(self).view().files.push(file@),
                ..old(self).view()
            }),
    {
        let ghost before = task_file_views(self.files@);
        self.files.push(file);
        assert(task_file_views(self.files@) =~= before.push(file@));
    }

    fn add_file(&mut self, path: &str, status: &str)
        ensures
            final(self).view() == with_file(old(self).view(), path@, status@),
    {
        let key = unicode_lowercase(path);
        if !list_contains(&self.seen, key.as_str()) {
            self.note(path);
            self.put(unavailable_task_file(path, status));
        }
    }

    fn add_history(&mut self, disk: &Disk, task: &QueueTask, rows: &Vec<CompletedHistoryRow>)
        ensures
            final(self).view() == with_history(
                old(self).view(),
                disk@,
                task@,
                row_views(rows@),
            ),
    {
        let ghost all = row_views(rows@);
        let ghost start = self.view();
        let mut i: usize = 0;
        while i < rows.len()
            invariant
                i <= rows@.len(),
                all == row_views(rows@),
                self.view() == with_history(start, disk@, task@, all.take(i as int)),
            decreases rows@.len() - i,
        {
            assert(all.take(i + 1).drop_last() =~= all.take(i as int));
            assert(all.take(i + 1).last() == rows@[i as int]@);
            if history_row_matches_task(disk, &rows[i], task) {
                let file = completed_task_file(&rows[i]);
                self.note(file.path.as_str());
                if let Some(input) = rows[i].input_path() {
                    self.note(input);
                }
                self.put(file);
            }
            i = i + 1;
        }
        assert(all.take(i as int) =~= all);
    }

    fn add_paths(&mut self, paths: &Vec<String>, status: &str)
        ensures
            final(self).view() == with_paths(old(self).view(), texts(paths@), status@),
    {
        let ghost all = texts(paths@);
        let ghost start = self.view();
        let mut i: usize = 0;
        while i < paths.len()
            invariant
                i <= paths@.len(),
                all == texts(paths@),
                self.view() == with_paths(start, all.take(i as int), status@),
            decreases paths@.len() - i,
        {
            assert(all.take(i + 1).drop_last() =~= all.take(i as int));
            assert(all.take(i + 1).last() == paths@[i as int]@);
            self.add_file(paths[i].as_str(), status);
            i = i + 1;
        }
        assert(all.take(i as int) =~= all);
    }

    fn add_details(&mut self, details: &Vec<(String, bool)>, finished: bool)
        ensures
            final(self).view() == with_details(
                old(self).view(),
                detail_views(details@),
                finished,
            ),
    {
        let ghost all = detail_views(details@);
        let ghost start = self.view();
        let mut i: usize = 0;
        while i < details.len()
            invariant
                i <= details@.len(),
                all == detail_views(details@),
                self.view() == with_details(start, all.take(i as int), finished),
            decreases details@.len() - i,
        {
            assert(all.take(i + 1).drop_last() =~= all.take(i as int));
            assert(all.take(i + 1).last() == all[i as int]);
            let status = status_name(details[i].1 || finished);
            self.add_file(details[i].0.as_str(), status);
            i = i + 1;
        }
        assert(all.take(i as int) =~= all);
    }
}

fn status_name(done: bool) -> (r: &'static str)
    ensures
        r@ == file_status(done),
{
    if done {
        "Completed"
    } else {
        "Queued"
    }
}

fn media_targets(disk: &Disk, targets: &Vec<String>) -> (r: Vec<String>)
    ensures
        texts(r@) == texts(targets@).filter(is_media(disk@)),
{
    let ghost all = texts(targets@);
    let ghost test = is_media(disk@);
    let mut r: Vec<String> = Vec::new();
    let mut i: usize = 0;
    assert(all.take(0).filter(test) =~= Seq::<Seq<char>>::empty());
    assert(texts(r@) =~= all.take(0).filter(test));
    while i < targets.len()
        invariant
            i <= targets@.len(),
            all == texts(targets@),
            test == is_media(disk@),
            texts(r@) == all.take(i as int).filter(test),
        decreases targets@.len() - i,
    {
        let ghost before = texts(r@);
        proof {
            assert(all.take(i + 1) =~= all.take(i as int).push(all[i as int]));
            all.take(i as int).lemma_filter_push(all[i as int], test);
            assert(all[i as int] == targets@[i as int]@);
        }
        if has_video_filename(targets[i].as_str()) || is_photo_path(disk, targets[i].as_str()) {
            r.push(targets[i].clone());
            assert(texts(r@) =~= before.push(all[i as int]));
        }
        i = i + 1;
    }
    assert(all.take(i as int) =~= all);
    r
}

fn find_failure(failures: &Vec<FileFailure>, path: &str) -> (r: Option<usize>)
    ensures
        match r {
            Some(i) => i < failures@.len() && failure_of(failure_views(failures@), path@) == Some(
                failures@[i as int]@,
            ),
            None => failure_of(failure_views(failures@), path@) is None,
        },
{
    let key = summary_path_key(path);
    let ghost all = failure_views(failures@);
    let mut i: usize = 0;
    assert(all.skip(0) =~= all);
    while i < failures.len()
        invariant
            i <= failures@.len(),
            all == failure_views(failures@),
            key@ == file_key(path@),
            failure_of(all, path@) == failure_of(all.skip(i as int), path@),
        decreases failures@.len() - i,
    {
        assert(all.skip(i as int)[0] == failures@[i as int]@);
        assert(all.skip(i as int).drop_first() =~= all.skip(i + 1));
        let other = summary_path_key(failures[i].path.as_str());
        if same_text(other.as_str(), key.as_str()) {
            return Some(i);
        }
        i = i + 1;
    }
    None
}

fn mark_failures(files: &mut Vec<SlintTaskFileSnapshot>, failures: &Vec<FileFailure>)
    ensures
        task_file_views(final(files)@) == all_marked(
            failure_views(failures@),
            task_file_views(old(files)@),
        ),
{
    let ghost start = task_file_views(files@);
    let ghost wanted = all_marked(failure_views(failures@), start);
    let n: usize = files.len();
    let mut i: usize = 0;
    while i < n
        invariant
            i <= n,
            files@.len() == n,
            start.len() == n,
            wanted == all_marked(failure_views(failures@), start),
            forall|k: int| 0 <= k < i ==> #[trigger] files@[k]@ == wanted[k],
            forall|k: int| i <= k < n ==> #[trigger] files@[k]@ == start[k],
        decreases n - i,
    {
        assert(files@[i as int]@ == start[i as int]);
        if let Some(place) = find_failure(failures, files[i].path.as_str()) {
            let mut file = files[i].clone();
            file.status = "Failed".to_owned();
            file.error_detail = failures[place].error.clone();
            files.set(i, file);
        }
        assert(files@[i as int]@ == wanted[i as int]);
        i = i + 1;
    }
    assert(task_file_views(files@) =~= wanted);
}

fn holds_file(files: &Vec<SlintTaskFileSnapshot>, path: &str) -> (r: bool)
    ensures
        r == has_file(task_file_views(files@), path@),
{
    let key = summary_path_key(path);
    let ghost all = task_file_views(files@);
    let mut i: usize = 0;
    while i < files.len()
        invariant
            i <= files@.len(),
            all == task_file_views(files@),
            key@ == file_key(path@),
            forall|k: int| 0 <= k < i ==> file_key((#[trigger] all[k]).path) != file_key(path@),
        decreases files@.len() - i,
    {
        assert(all[i as int] == files@[i as int]@);
        let other = summary_path_key(files[i].path.as_str());
        if same_text(other.as_str(), key.as_str()) {
            return true;
        }
        i = i + 1;
    }
    false
}

fn add_failed(files: &mut Vec<SlintTaskFileSnapshot>, failures: &Vec<FileFailure>)
    ensures
        task_file_views(final(files)@) == with_failed(
            task_file_views(old(files)@),
            failure_views(failures@),
        ),
{
    let ghost start = task_file_views(files@);
    let ghost all = failure_views(failures@);
    let mut i: usize = 0;
    while i < failures.len()
        invariant
            i <= failures@.len(),
            all == failure_views(failures@),
            task_file_views(files@) == with_failed(start, all.take(i as int)),
        decreases failures@.len() - i,
    {
        let ghost before = task_file_views(files@);
        assert(all.take(i + 1).drop_last() =~= all.take(i as int));
        assert(all.take(i + 1).last() == failures@[i as int]@);
        if !holds_file(files, failures[i].path.as_str()) {
            let mut file = unavailable_task_file(failures[i].path.as_str(), "Failed");
            file.error_detail = failures[i].error.clone();
            let ghost view = file@;
            files.push(file);
            assert(task_file_views(files@) =~= before.push(view));
        }
        i = i + 1;
    }
    assert(all.take(i as int) =~= all);
}

/// The files at these positions.
pub fn pick_files(items: &Vec<SlintTaskFileSnapshot>, order: &Vec<usize>) -> (r: Vec<
    SlintTaskFileSnapshot,
>)
    requires
        forall|i: int| 0 <= i < order@.len() ==> 0 <= (#[trigger] order@[i]) < items@.len(),
    ensures
        picks(task_file_views(r@), task_file_views(items@), order@),
{
    let mut r: Vec<SlintTaskFileSnapshot> = Vec::new();
    let mut i: usize = 0;
    while i < order.len()
        invariant
            i <= order@.len(),
            r@.len() == i,
            forall|k: int| 0 <= k < order@.len() ==> 0 <= (#[trigger] order@[k]) < items@.len(),
            forall|k: int| 0 <= k < i ==> #[trigger] r@[k]@ == items@[order@[k] as int]@,
        decreases order@.len() - i,
    {
        r.push(items[order[i]].clone());
        i = i + 1;
    }
    assert forall|k: int| 0 <= k < task_file_views(r@).len() implies #[trigger] task_file_views(
        r@,
    )[k] == task_file_views(items@)[order@[k] as int] by {
        assert(r@[k]@ == items@[order@[k] as int]@);
    }
    r
}

/// The files of a task, in natural order: what is converted, what waits, and what failed.
pub fn selected_task_files(
    env: &Surroundings,
    task: &QueueTask,
    history: &Vec<CompletedHistoryRow>,
    failures: &Vec<FileFailure>,
) -> (r: Vec<SlintTaskFileSnapshot>)
    ensures
        task_file_views(r@) == listed_files(
            env@,
            task@,
            row_views(history@),
            failure_views(failures@),
        ),
        forall|k: int|
            0 <= k < failures@.len() ==> lists_failed(
                task_file_views(r@),
                (#[trigger] failures@[k])@.path,
            ),
{
    let mut list = FileList { files: Vec::new(), seen: Vec::new() };
    assert(list.view().files =~= Seq::<FileView>::empty());
    assert(list.view().seen =~= Seq::<Seq<char>>::empty());
    let finished = task.status == QueueStatus::Completed;
    list.add_history(&env.disk, task, history);
    list.add_paths(&task.skipped_paths, "Completed");
    if task.settings.mode != ContentMode::PhotoSlideshow {
        let details = task_detail_files(env, task);
        list.add_details(&details, finished);
    }
    let media = media_targets(&env.disk, &task.targets);
    list.add_paths(&media, status_name(finished));
    assert(list.view().files.len() == list.files@.len());
    if list.files.len() == 0 {
        list.add_paths(&task.targets, status_name(finished));
    }
    let FileList { mut files, seen: _ } = list;
    assert(task_file_views(files@) == found_files(env@, task@, row_views(history@)));
    mark_failures(&mut files, failures);
    add_failed(&mut files, failures);
    let mut keys: Vec<Vec<NaturalPart>> = Vec::new();
    let ghost wanted = file_keys(task_file_views(files@));
    let mut k: usize = 0;
    while k < files.len()
        invariant
            k <= files@.len(),
            wanted == file_keys(task_file_views(files@)),
            key_views(keys@) == wanted.take(k as int),
        decreases files@.len() - k,
    {
        let ghost before = key_views(keys@);
        keys.push(full_path_natural_key(files[k].path.as_str()));
        assert(key_views(keys@) =~= before.push(wanted[k as int]));
        k = k + 1;
        assert(key_views(keys@) =~= wanted.take(k as int));
    }
    assert(key_views(keys@) =~= wanted);
    let order = stable_order(&keys);
    let r = pick_files(&files, &order);
    proof {
        let sorted = task_file_views(r@);
        let unsorted = task_file_views(files@);
        lemma_sorted_is_picked(sorted, unsorted, wanted, order@);
        law_sorting_keeps_every_item(sorted, unsorted, wanted);
        let all = failure_views(failures@);
        let found = found_files(env@, task@, row_views(history@));
        assert forall|k: int| 0 <= k < failures@.len() implies lists_failed(
            sorted,
            (#[trigger] failures@[k])@.path,
        ) by {
            assert(all[k] == failures@[k]@);
            assert forall|j: int| 0 <= j < all.len() implies all.contains(#[trigger] all[j]) by {}
            lemma_failed_are_marked(all, found, all, k);
            let i = choose|i: int|
                0 <= i < unsorted.len() && file_key((#[trigger] unsorted[i]).path) == file_key(
                    all[k].path,
                ) && unsorted[i].status == "Failed"@;
            assert(unsorted.contains(unsorted[i]));
            assert(sorted.contains(unsorted[i]));
            let m = choose|m: int| 0 <= m < sorted.len() && sorted[m] == unsorted[i];
            assert(file_key(sorted[m].path) == file_key(all[k].path));
        }
    }
    r
}

/// What holds of a list as it grows from the files of the history, which are its first `n`: every listed
/// path is noted, what was noted stays noted, and no later file has a path that was noted before it.
spec fn grows_from(first: ListView, list: ListView, n: int) -> bool {
    &&& 0 <= n == first.files.len() <= list.files.len()
    &&& list.files.take(n) == first.files
    &&& forall|p: Seq<char>| #[trigger] first.seen.contains(p) ==> list.seen.contains(p)
    &&& forall|i: int|
        0 <= i < list.files.len() ==> list.seen.contains(unicode_lower((#[trigger] list.files[i]).path))
    &&& forall|i: int, j: int|
        0 <= i < j < list.files.len() && n <= j ==> unicode_lower((#[trigger] list.files[i]).path)
            != unicode_lower((#[trigger] list.files[j]).path)
    &&& forall|j: int|
        n <= j < list.files.len() ==> !first.seen.contains(
            unicode_lower((#[trigger] list.files[j]).path),
        )
}

proof fn lemma_file_added(first: ListView, list: ListView, n: int, path: Seq<char>, status: Seq<char>)
    requires
        grows_from(first, list, n),
    ensures
        grows_from(first, with_file(list, path, status), n),
{
    let lower = unicode_lower(path);
    if !list.seen.contains(lower) {
        let next = with_file(list, path, status);
        assert(next.files.take(n) =~= list.files.take(n));
        assert forall|p: Seq<char>| list.seen.contains(p) implies #[trigger] next.seen.contains(p) by {
            let k = choose|k: int| 0 <= k < list.seen.len() && list.seen[k] == p;
            assert(next.seen[k] == p);
        }
        assert(next.seen[next.seen.len() - 1] == lower);
        assert forall|i: int| 0 <= i < next.files.len() implies next.seen.contains(
            unicode_lower((#[trigger] next.files[i]).path),
        ) by {
            if i < list.files.len() {
                assert(next.files[i] == list.files[i]);
            }
        }
        assert forall|i: int, j: int|
            0 <= i < j < next.files.len() && n <= j implies unicode_lower(
            (#[trigger] next.files[i]).path,
        ) != unicode_lower((#[trigger] next.files[j]).path) by {
            assert(next.files[i] == list.files[i]);
            if j < list.files.len() {
                assert(next.files[j] == list.files[j]);
            } else {
                assert(list.seen.contains(unicode_lower(list.files[i].path)));
            }
        }
        assert forall|j: int| n <= j < next.files.len() implies !first.seen.contains(
            unicode_lower((#[trigger] next.files[j]).path),
        ) by {
            if j < list.files.len() {
                assert(next.files[j] == list.files[j]);
            }
        }
    }
}

proof fn lemma_paths_added(
    first: ListView,
    list: ListView,
    n: int,
    paths: Seq<Seq<char>>,
    status: Seq<char>,
)
    requires
        grows_from(first, list, n),
    ensures
        grows_from(first, with_paths(list, paths, status), n),
    decreases paths.len(),
{
    if paths.len() > 0 {
        lemma_paths_added(first, list, n, paths.drop_last(), status);
        lemma_file_added(
            first,
            with_paths(list, paths.drop_last(), status),
            n,
            paths.last(),
            status,
        );
    }
}

proof fn lemma_details_added(
    first: ListView,
    list: ListView,
    n: int,
    details: Seq<(Seq<char>, bool)>,
    finished: bool,
)
    requires
        grows_from(first, list, n),
    ensures
        grows_from(first, with_details(list, details, finished), n),
    decreases details.len(),
{
    if details.len() > 0 {
        lemma_details_added(first, list, n, details.drop_last(), finished);
        lemma_file_added(
            first,
            with_details(list, details.drop_last(), finished),
            n,
            details.last().0,
            file_status(details.last().1 || finished),
        );
    }
}

/// The rows of a task are listed, and their outputs and sources are noted.
proof fn lemma_history_is_noted(d: DiskView, t: TaskView, rows: Seq<Seq<Seq<char>>>)
    ensures
        ({
            let list = with_history(
                ListView { files: Seq::empty(), seen: Seq::empty() },
                d,
                t,
                rows,
            );
            &&& forall|i: int|
                0 <= i < list.files.len() ==> list.seen.contains(
                    unicode_lower((#[trigger] list.files[i]).path),
                )
            &&& forall|k: int|
                0 <= k < rows.len() && row_of_task(d, #[trigger] rows[k], t) ==> list.seen.contains(
                    unicode_lower(rows[k][0]),
                ) && (history_value(rows[k][15]) matches Some(input) ==> list.seen.contains(
                    unicode_lower(input),
                ))
        }),
    decreases rows.len(),
{
    if rows.len() > 0 {
        let none = ListView { files: Seq::empty(), seen: Seq::empty() };
        let rest = rows.drop_last();
        lemma_history_is_noted(d, t, rest);
        let before = with_history(none, d, t, rest);
        let list = with_history(none, d, t, rows);
        let row = rows.last();
        assert forall|p: Seq<char>| before.seen.contains(p) implies #[trigger] list.seen.contains(p) by {
            let k = choose|k: int| 0 <= k < before.seen.len() && before.seen[k] == p;
            assert(list.seen[k] == p);
        }
        if row_of_task(d, row, t) {
            assert(list.seen[before.seen.len() as int] == unicode_lower(row[0]));
            if history_value(row[15]) is Some {
                assert(list.seen[before.seen.len() as int + 1] == unicode_lower(
                    history_value(row[15])->0,
                ));
            }
        }
        assert forall|i: int| 0 <= i < list.files.len() implies list.seen.contains(
            unicode_lower((#[trigger] list.files[i]).path),
        ) by {
            if i < before.files.len() {
                assert(list.files[i] == before.files[i]);
            } else {
                assert(list.files[i].path == row[0]);
            }
        }
        assert forall|k: int|
            0 <= k < rows.len() && row_of_task(d, #[trigger] rows[k], t) implies list.seen.contains(
            unicode_lower(rows[k][0]),
        ) && (history_value(rows[k][15]) matches Some(input) ==> list.seen.contains(
            unicode_lower(input),
        )) by {
            if k < rest.len() {
                assert(rest[k] == rows[k]);
            }
        }
    }
}

/// Besides the files that the history of a task tells of, no file is listed twice, and none that a
/// conversion of the task read or made: the output takes the place of its source.
pub proof fn law_converted_sources_are_not_listed_again(
    env: SurroundingsView,
    t: TaskView,
    rows: Seq<Seq<Seq<char>>>,
)
    ensures
        ({
            let files = found_files(env, t, rows);
            let known = with_history(
                ListView { files: Seq::empty(), seen: Seq::empty() },
                env.disk,
                t,
                rows,
            ).files;
            &&& known.len() <= files.len()
            &&& files.take(known.len() as int) == known
            &&& forall|i: int, j: int|
                0 <= i < j < files.len() && known.len() <= j ==> unicode_lower(
                    (#[trigger] files[i]).path,
                ) != unicode_lower((#[trigger] files[j]).path)
            &&& forall|j: int, k: int|
                known.len() <= j < files.len() && 0 <= k < rows.len() && row_of_task(
                    env.disk,
                    #[trigger] rows[k],
                    t,
                ) ==> unicode_lower((#[trigger] files[j]).path) != unicode_lower(rows[k][0]) && (
                history_value(rows[k][15]) matches Some(input) ==> unicode_lower(files[j].path)
                    != unicode_lower(input))
        }),
{
    let none = ListView { files: Seq::empty(), seen: Seq::empty() };
    let finished = t.status == QueueStatus::Completed;
    let known = with_history(none, env.disk, t, rows);
    let n = known.files.len() as int;
    lemma_history_is_noted(env.disk, t, rows);
    assert(known.files.take(n) =~= known.files);
    assert(grows_from(known, known, n));
    let skipped = with_paths(known, t.skipped_paths, "Completed"@);
    lemma_paths_added(known, known, n, t.skipped_paths, "Completed"@);
    let on_disk = if t.settings.mode == ContentMode::PhotoSlideshow {
        skipped
    } else {
        with_details(skipped, task_details(env, t), finished)
    };
    lemma_details_added(known, skipped, n, task_details(env, t), finished);
    let targets = t.targets.filter(is_media(env.disk));
    let media = with_paths(on_disk, targets, file_status(finished));
    lemma_paths_added(known, on_disk, n, targets, file_status(finished));
    lemma_paths_added(known, media, n, t.targets, file_status(finished));
}

} // verus!
