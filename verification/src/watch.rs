//! Watched folders: which are watched, and the order and the counts of what is in them.

use crate::counts::summary_views;
use crate::disk::{
    collect_photo_files, collect_video_files, is_folder, photo_files, video_files, Disk, DiskView,
};
use crate::failures::{FailureView, RunFailures};
use crate::model::{ContentMode, QueueSettings, SettingsView};
use crate::natural::{
    is_stable_order, key_order, key_views, lemma_keys_same, lemma_sorted_is_picked,
    lemma_stable_order_is_unique, part_views, picks, sorted_by_keys, sorted_positions, stable_order,
    NaturalPart, Order, PartView,
};
use crate::paths::{has_path, is_path, list_has_path, plain, same_path};
use crate::presets::{
    copy_marks, mark_views, suffix_of, FileMark, MarkView, Surroundings, SurroundingsView,
};
use crate::queue::{task_views, Queue, QueueTask, TaskView};
use crate::renaming::is_component;
use crate::summary::{
    folder_queue_summary_with_outcomes, folder_summary, FolderQueueSummary, SummaryView,
    WatchedRoot,
};
use crate::targets::opt_slice;
use crate::text::{
    ascii_lower, ascii_lowercase, has_prefix, opt_text, same_text, split_on, split_text,
    text_starts_with, texts, to_chars,
};
use vstd::prelude::*;

verus! {

/// A folder that is watched for new work.
#[derive(Debug)]
pub struct WatchedFolder {
    pub root: String,
    pub settings: QueueSettings,
    /// The files as they were last seen.
    pub snapshot: Vec<FileMark>,
}

/// The contents of a `WatchedFolder`.
pub struct WatchView {
    pub root: Seq<char>,
    pub settings: SettingsView,
    pub snapshot: Seq<MarkView>,
}

impl View for WatchedFolder {
    type V = WatchView;

    open spec fn view(&self) -> WatchView {
        WatchView {
            root: self.root@,
            settings: self.settings@,
            snapshot: mark_views(self.snapshot@),
        }
    }
}

impl Clone for WatchedFolder {
    fn clone(&self) -> (r: Self)
        ensures
            r@ == self@,
    {
        WatchedFolder {
            root: self.root.clone(),
            settings: self.settings.clone(),
            snapshot: copy_marks(&self.snapshot),
        }
    }
}

pub open spec fn watch_views(list: Seq<WatchedFolder>) -> Seq<WatchView> {
    list.map_values(|w: WatchedFolder| w@)
}

/// The watched folders, as paths.
pub open spec fn watch_roots(list: Seq<WatchView>) -> Seq<Seq<char>> {
    list.map_values(|w: WatchView| w.root)
}

pub fn roots_of_watches(list: &Vec<WatchedFolder>) -> (r: Vec<String>)
    ensures
        texts(r@) == watch_roots(watch_views(list@)),
{
    let ghost all = watch_roots(watch_views(list@));
    let mut r: Vec<String> = Vec::new();
    let mut i: usize = 0;
    while i < list.len()
        invariant
            i <= list@.len(),
            all == watch_roots(watch_views(list@)),
            texts(r@) == all.take(i as int),
        decreases list@.len() - i,
    {
        let ghost before = texts(r@);
        r.push(list[i].root.clone());
        assert(texts(r@) =~= before.push(all[i as int]));
        i = i + 1;
        assert(texts(r@) =~= all.take(i as int));
    }
    assert(all.take(i as int) =~= all);
    r
}

/// The files by which a watched folder is judged: the photos for a slideshow, else the videos.
pub fn watched_files(disk: &Disk, root: &str, mode: ContentMode) -> (r: Vec<String>)
    ensures
        texts(r@) == if mode == ContentMode::PhotoSlideshow {
            photo_files(disk@, root@)
        } else {
            video_files(disk@, root@)
        },
{
    if mode == ContentMode::PhotoSlideshow {
        collect_photo_files(disk, root)
    } else {
        collect_video_files(disk, root)
    }
}

/// The first watch of a folder stands at `i`.
pub open spec fn watch_at(list: Seq<WatchView>, root: Seq<char>, i: int) -> bool {
    0 <= i < list.len() && plain(list[i].root) == plain(root) && forall|j: int|
        0 <= j < i ==> plain((#[trigger] list[j]).root) != plain(root)
}

pub open spec fn is_watched(list: Seq<WatchView>, root: Seq<char>) -> bool {
    exists|i: int| watch_at(list, root, i)
}

pub open spec fn watch_place(list: Seq<WatchView>, root: Seq<char>) -> int {
    choose|i: int| watch_at(list, root, i)
}

pub proof fn lemma_watch_place(list: Seq<WatchView>, root: Seq<char>, i: int)
    requires
        watch_at(list, root, i),
    ensures
        is_watched(list, root),
        watch_place(list, root) == i,
{
    let k = watch_place(list, root);
    assert(watch_at(list, root, k));
    if k < i {
        assert(plain(list[k].root) != plain(root));
    }
    if i < k {
        assert(plain(list[i].root) != plain(root));
    }
}

/// Where a folder is watched.
pub fn find_watch(list: &Vec<WatchedFolder>, root: &str) -> (r: Option<usize>)
    ensures
        match r {
            Some(i) => is_watched(watch_views(list@), root@) && i == watch_place(
                watch_views(list@),
                root@,
            ) && i < list@.len(),
            None => !is_watched(watch_views(list@), root@),
        },
{
    let ghost all = watch_views(list@);
    let mut i: usize = 0;
    while i < list.len()
        invariant
            i <= list@.len(),
            all == watch_views(list@),
            forall|j: int| 0 <= j < i ==> plain((#[trigger] all[j]).root) != plain(root@),
        decreases list@.len() - i,
    {
        assert(all[i as int] == list@[i as int]@);
        if same_path(list[i].root.as_str(), root) {
            proof {
                assert(watch_at(all, root@, i as int));
                lemma_watch_place(all, root@, i as int);
            }
            return Some(i);
        }
        i = i + 1;
    }
    None
}

/// A folder is watched with these settings, in place of an earlier watch.
pub open spec fn registered(list: Seq<WatchView>, watch: WatchView) -> Seq<WatchView> {
    if is_watched(list, watch.root) {
        list.update(watch_place(list, watch.root), watch)
    } else {
        list.push(watch)
    }
}

pub fn register_watch(list: &mut Vec<WatchedFolder>, watch: WatchedFolder)
    ensures
        watch_views(final(list)@) == registered(watch_views(old(list)@), watch@),
{
    let ghost before = watch_views(list@);
    let ghost added = watch@;
    match find_watch(list, watch.root.as_str()) {
        Some(i) => {
            list.set(i, watch);
            assert(watch_views(list@) =~= before.update(i as int, added));
        },
        None => {
            list.push(watch);
            assert(watch_views(list@) =~= before.push(added));
        },
    }
}

/// Some task works on this path.
pub open spec fn is_referenced(tasks: Seq<TaskView>, p: Seq<char>) -> bool {
    exists|i: int|
        0 <= i < tasks.len() && (has_path((#[trigger] tasks[i]).targets, p) || is_path(
            tasks[i].source_root,
            p,
        ))
}

pub open spec fn is_used(tasks: Seq<TaskView>) -> spec_fn(WatchView) -> bool {
    |w: WatchView| is_referenced(tasks, w.root)
}

fn task_references(queue: &Queue, path: &str) -> (r: bool)
    ensures
        r == is_referenced(queue@, path@),
{
    let list = queue.tasks();
    let mut i: usize = 0;
    while i < list.len()
        invariant
            i <= list@.len(),
            task_views(list@) == queue@,
            forall|j: int|
                0 <= j < i ==> !(has_path((#[trigger] queue@[j]).targets, path@) || is_path(
                    queue@[j].source_root,
                    path@,
                )),
        decreases list@.len() - i,
    {
        assert(queue@[i as int] == list@[i as int]@);
        let is_root = match &list[i].source_root {
            Some(root) => same_path(root.as_str(), path),
            None => false,
        };
        if is_root || list_has_path(&list[i].targets, path) {
            return true;
        }
        i = i + 1;
    }
    false
}

/// Keeps the watches of folders that some task works on.
pub fn prune_unused_folder_watches(list: &mut Vec<WatchedFolder>, queue: &Queue)
    ensures
        watch_views(final(list)@) == watch_views(old(list)@).filter(is_used(queue@)),
{
    let ghost all = watch_views(list@);
    let ghost test = is_used(queue@);
    let mut kept: Vec<WatchedFolder> = Vec::new();
    let mut i: usize = 0;
    assert(watch_views(kept@) =~= all.take(0).filter(test));
    while i < list.len()
        invariant
            i <= list@.len(),
            all == watch_views(list@),
            test == is_used(queue@),
            watch_views(kept@) == all.take(i as int).filter(test),
        decreases list@.len() - i,
    {
        let ghost before = watch_views(kept@);
        proof {
            assert(all.take(i + 1) =~= all.take(i as int).push(all[i as int]));
            all.take(i as int).lemma_filter_push(all[i as int], test);
            assert(all[i as int] == list@[i as int]@);
        }
        if task_references(queue, list[i].root.as_str()) {
            kept.push(list[i].clone());
            assert(watch_views(kept@) =~= before.push(all[i as int]));
        }
        i = i + 1;
    }
    assert(all.take(i as int) =~= all);
    *list = kept;
}

pub open spec fn is_folder_on(d: DiskView) -> spec_fn(Seq<char>) -> bool {
    |p: Seq<char>| is_folder(d, p)
}

/// The folders that a restored task works on.
pub open spec fn task_roots(d: DiskView, t: TaskView) -> Seq<Seq<char>> {
    let first = match t.source_root {
        Some(root) => seq![root],
        None => Seq::empty(),
    };
    first + t.targets.filter(is_folder_on(d))
}

/// The watches with those of more folders that are not watched yet. Their snapshots are empty, so the
/// next scan looks at every file.
pub open spec fn with_roots(
    list: Seq<WatchView>,
    roots: Seq<Seq<char>>,
    settings: SettingsView,
) -> Seq<WatchView>
    decreases roots.len(),
{
    if roots.len() == 0 {
        list
    } else {
        let before = with_roots(list, roots.drop_last(), settings);
        if is_watched(before, roots.last()) {
            before
        } else {
            before.push(WatchView { root: roots.last(), settings, snapshot: Seq::empty() })
        }
    }
}

/// The watches of a restored queue.
pub open spec fn restored_watches(d: DiskView, tasks: Seq<TaskView>) -> Seq<WatchView>
    decreases tasks.len(),
{
    if tasks.len() == 0 {
        Seq::empty()
    } else {
        let t = tasks.last();
        with_roots(restored_watches(d, tasks.drop_last()), task_roots(d, t), t.settings)
    }
}

fn roots_of_task(disk: &Disk, task: &QueueTask) -> (r: Vec<String>)
    ensures
        texts(r@) == task_roots(disk@, task@),
{
    let mut r: Vec<String> = Vec::new();
    match &task.source_root {
        Some(root) => {
            r.push(root.clone());
            assert(texts(r@) =~= seq![root@]);
        },
        None => {
            assert(texts(r@) =~= Seq::<Seq<char>>::empty());
        },
    }
    let ghost first = texts(r@);
    let ghost all = task@.targets;
    let ghost test = is_folder_on(disk@);
    let mut i: usize = 0;
    assert(texts(r@) =~= first + all.take(0).filter(test));
    while i < task.targets.len()
        invariant
            i <= task.targets@.len(),
            all == texts(task.targets@),
            test == is_folder_on(disk@),
            texts(r@) == first + all.take(i as int).filter(test),
        decreases task.targets@.len() - i,
    {
        let ghost before = texts(r@);
        proof {
            assert(all.take(i + 1) =~= all.take(i as int).push(all[i as int]));
            all.take(i as int).lemma_filter_push(all[i as int], test);
            assert(all[i as int] == task.targets@[i as int]@);
        }
        if disk.is_dir(task.targets[i].as_str()) {
            r.push(task.targets[i].clone());
            assert(texts(r@) =~= before.push(all[i as int]));
            assert(before.push(all[i as int]) =~= first + all.take(i + 1).filter(test));
        }
        i = i + 1;
    }
    assert(all.take(i as int) =~= all);
    r
}

/// The watches of a restored queue.
pub fn restored_folder_watches(disk: &Disk, queue: &Queue) -> (r: Vec<WatchedFolder>)
    ensures
        watch_views(r@) == restored_watches(disk@, queue@),
{
    let list = queue.tasks();
    let mut r: Vec<WatchedFolder> = Vec::new();
    let mut i: usize = 0;
    assert(watch_views(r@) =~= restored_watches(disk@, queue@.take(0)));
    while i < list.len()
        invariant
            i <= list@.len(),
            task_views(list@) == queue@,
            watch_views(r@) == restored_watches(disk@, queue@.take(i as int)),
        decreases list@.len() - i,
    {
        assert(queue@[i as int] == list@[i as int]@);
        assert(queue@.take(i + 1).drop_last() =~= queue@.take(i as int));
        let roots = roots_of_task(disk, &list[i]);
        let ghost all = texts(roots@);
        let ghost start = watch_views(r@);
        let ghost settings = list@[i as int].settings@;
        let mut k: usize = 0;
        assert(all.take(0) =~= Seq::<Seq<char>>::empty());
        while k < roots.len()
            invariant
                k <= roots@.len(),
                i < list@.len(),
                all == texts(roots@),
                settings == list@[i as int].settings@,
                watch_views(r@) == with_roots(start, all.take(k as int), settings),
            decreases roots@.len() - k,
        {
            assert(all.take(k + 1).drop_last() =~= all.take(k as int));
            assert(all.take(k + 1).last() == roots@[k as int]@);
            if find_watch(&r, roots[k].as_str()).is_none() {
                let ghost before = watch_views(r@);
                let watch = WatchedFolder {
                    root: roots[k].clone(),
                    settings: list[i].settings.clone(),
                    snapshot: Vec::new(),
                };
                assert(mark_views(watch.snapshot@) =~= Seq::<MarkView>::empty());
                let ghost added = watch@;
                r.push(watch);
                assert(watch_views(r@) =~= before.push(added));
            }
            k = k + 1;
        }
        assert(all.take(k as int) =~= all);
        i = i + 1;
    }
    assert(queue@.take(i as int) =~= queue@);
    r
}

/// The counts of a watched folder.
pub open spec fn watch_summary(
    env: SurroundingsView,
    tasks: Seq<TaskView>,
    failures: Seq<FailureView>,
    w: WatchView,
) -> SummaryView {
    folder_summary(
        env.disk,
        tasks,
        failures,
        w.root,
        w.settings.mode,
        w.settings.encoder,
        suffix_of(env.presets, w.settings.mode, w.settings.encoder),
    )
}

pub open spec fn summary_keys(list: Seq<SummaryView>) -> Seq<Seq<PartView>> {
    list.map_values(|s: SummaryView| seq![PartView::Text(ascii_lower(s.root))])
}

pub open spec fn unsorted_summaries(
    env: SurroundingsView,
    tasks: Seq<TaskView>,
    failures: Seq<FailureView>,
    watched: Seq<WatchView>,
) -> Seq<SummaryView> {
    watched.map_values(|w: WatchView| watch_summary(env, tasks, failures, w))
}

/// The counts of the watched folders, ordered by their paths without regard to case.
pub open spec fn watch_summaries(
    env: SurroundingsView,
    tasks: Seq<TaskView>,
    failures: Seq<FailureView>,
    watched: Seq<WatchView>,
) -> Seq<SummaryView> {
    let list = unsorted_summaries(env, tasks, failures, watched);
    sorted_by_keys(list, summary_keys(list))
}

pub fn folder_queue_summaries(
    env: &Surroundings,
    watches: &Vec<WatchedFolder>,
    queue: &Queue,
    failures: &RunFailures,
) -> (r: Vec<FolderQueueSummary>)
    ensures
        summary_views(r@) == watch_summaries(env@, queue@, failures@, watch_views(watches@)),
{
    let ghost wanted = unsorted_summaries(env@, queue@, failures@, watch_views(watches@));
    let ghost wanted_keys = summary_keys(wanted);
    let mut list: Vec<FolderQueueSummary> = Vec::new();
    let mut keys: Vec<Vec<NaturalPart>> = Vec::new();
    let mut i: usize = 0;
    while i < watches.len()
        invariant
            i <= watches@.len(),
            wanted == unsorted_summaries(env@, queue@, failures@, watch_views(watches@)),
            wanted_keys == summary_keys(wanted),
            summary_views(list@) == wanted.take(i as int),
            key_views(keys@) == wanted_keys.take(i as int),
        decreases watches@.len() - i,
    {
        let watch = &watches[i];
        let suffix = env.presets.converted_directory_suffix(
            watch.settings.mode,
            watch.settings.encoder,
        );
        let own_suffix: Option<&str> = match &suffix {
            Some(s) => Some(s.as_str()),
            None => None,
        };
        assert(opt_slice(own_suffix) == opt_text(suffix));
        let watched = WatchedRoot {
            root: watch.root.clone(),
            mode: watch.settings.mode,
            encoder: watch.settings.encoder,
        };
        let summary = folder_queue_summary_with_outcomes(
            &env.disk,
            &watched,
            own_suffix,
            queue,
            failures,
        );
        assert(watch_views(watches@)[i as int] == watch@);
        assert(summary@ == wanted[i as int]);
        let mut key: Vec<NaturalPart> = Vec::new();
        key.push(NaturalPart::Text(ascii_lowercase(summary.root.as_str())));
        assert(part_views(key@) =~= wanted_keys[i as int]);
        let ghost before = summary_views(list@);
        let ghost before_keys = key_views(keys@);
        list.push(summary);
        keys.push(key);
        assert(summary_views(list@) =~= before.push(wanted[i as int]));
        assert(key_views(keys@) =~= before_keys.push(wanted_keys[i as int]));
        i = i + 1;
        assert(summary_views(list@) =~= wanted.take(i as int));
        assert(key_views(keys@) =~= wanted_keys.take(i as int));
    }
    assert(summary_views(list@) =~= wanted);
    assert(key_views(keys@) =~= wanted_keys);
    let order = stable_order(&keys);
    let mut r: Vec<FolderQueueSummary> = Vec::new();
    let mut k: usize = 0;
    while k < order.len()
        invariant
            k <= order@.len(),
            wanted == summary_views(list@),
            forall|j: int| 0 <= j < order@.len() ==> 0 <= (#[trigger] order@[j]) < list@.len(),
            r@.len() == k,
            forall|j: int| 0 <= j < k ==> #[trigger] r@[j] == list@[order@[j] as int],
        decreases order@.len() - k,
    {
        r.push(list[order[k]].clone());
        k = k + 1;
    }
    proof {
        assert forall|j: int| 0 <= j < summary_views(r@).len() implies #[trigger] summary_views(
            r@,
        )[j] == wanted[order@[j] as int] by {
            assert(r@[j] == list@[order@[j] as int]);
        }
        assert(picks(summary_views(r@), wanted, order@));
        lemma_sorted_is_picked(summary_views(r@), wanted, wanted_keys, order@);
    }
    r
}

/// How a component of a path orders: going up comes before names.
pub open spec fn component_part() -> spec_fn(Seq<char>) -> PartView {
    |c: Seq<char>|
        if c == ".."@ {
            PartView::Number(2, 0)
        } else {
            PartView::Text(c)
        }
}

/// The components of a path, by which paths order; the root comes before everything.
pub open spec fn path_parts(p: Seq<char>) -> Seq<PartView> {
    let pieces = split_text(p, '/');
    let first = if has_prefix(p, "/"@) {
        seq![PartView::Number(0, 0)]
    } else if pieces[0] == "."@ {
        seq![PartView::Number(1, 0)]
    } else {
        Seq::empty()
    };
    first + pieces.filter(is_component()).map_values(component_part())
}

/// The key by which paths order, component by component.
pub fn path_order_key(path: &str) -> (r: Vec<NaturalPart>)
    ensures
        part_views(r@) == path_parts(path@),
{
    let pieces = split_on(path, '/');
    let ghost all = split_text(path@, '/');
    let mut r: Vec<NaturalPart> = Vec::new();
    assert(texts(pieces@) == all);
    assert(all.len() == pieces@.len());
    assert(all[0] == pieces@[0]@);
    if text_starts_with(path, "/") {
        r.push(NaturalPart::Number(0, 0));
        assert(part_views(r@) =~= seq![PartView::Number(0, 0)]);
    } else if same_text(pieces[0].as_str(), ".") {
        r.push(NaturalPart::Number(1, 0));
        assert(part_views(r@) =~= seq![PartView::Number(1, 0)]);
    } else {
        assert(part_views(r@) =~= Seq::<PartView>::empty());
    }
    let ghost first = part_views(r@);
    let ghost test = is_component();
    let mut i: usize = 0;
    assert(all.take(0).filter(test) =~= Seq::<Seq<char>>::empty());
    assert(part_views(r@) =~= first + all.take(0).filter(test).map_values(component_part()));
    while i < pieces.len()
        invariant
            i <= pieces@.len(),
            all == texts(pieces@),
            test == is_component(),
            part_views(r@) == first + all.take(i as int).filter(test).map_values(component_part()),
        decreases pieces@.len() - i,
    {
        let ghost before = part_views(r@);
        let ghost kept = all.take(i as int).filter(test);
        proof {
            assert(all.take(i + 1) =~= all.take(i as int).push(all[i as int]));
            all.take(i as int).lemma_filter_push(all[i as int], test);
            assert(all[i as int] == pieces@[i as int]@);
        }
        let chars = to_chars(pieces[i].as_str());
        if chars.len() > 0 && !same_text(pieces[i].as_str(), ".") {
            if same_text(pieces[i].as_str(), "..") {
                r.push(NaturalPart::Number(2, 0));
            } else {
                r.push(NaturalPart::Text(pieces[i].clone()));
            }
            assert(part_views(r@) =~= before.push(component_part()(all[i as int])));
            assert(kept.push(all[i as int]).map_values(component_part()) =~= kept.map_values(
                component_part(),
            ).push(component_part()(all[i as int])));
            assert(part_views(r@) =~= first + all.take(i + 1).filter(test).map_values(
                component_part(),
            ));
        }
        i = i + 1;
    }
    assert(all.take(i as int) =~= all);
    r
}

/// The positions without those whose key is that of the position before them.
pub open spec fn kept_positions(order: Seq<usize>, keys: Seq<Seq<PartView>>) -> Seq<usize>
    decreases order.len(),
{
    if order.len() <= 1 {
        order
    } else {
        let before = kept_positions(order.drop_last(), keys);
        if keys[order[order.len() - 2] as int] == keys[order.last() as int] {
            before
        } else {
            before.push(order.last())
        }
    }
}

/// The positions of a list in the order of their keys, one for each key.
pub open spec fn distinct_positions(keys: Seq<Seq<PartView>>) -> Seq<usize> {
    kept_positions(sorted_positions(keys), keys)
}

/// The items of a list in the order of their keys, the first for each key.
pub open spec fn sorted_distinct<A>(items: Seq<A>, keys: Seq<Seq<PartView>>) -> Seq<A> {
    distinct_positions(keys).map_values(|p: usize| items[p as int])
}

/// The positions of a list in the order of their keys, one for each key.
pub fn distinct_order(keys: &Vec<Vec<NaturalPart>>) -> (r: Vec<usize>)
    ensures
        r@ == distinct_positions(key_views(keys@)),
        forall|i: int| 0 <= i < r@.len() ==> 0 <= (#[trigger] r@[i]) < keys@.len(),
{
    let ghost views = key_views(keys@);
    let order = stable_order(keys);
    proof {
        let chosen = sorted_positions(views);
        assert(is_stable_order(order@, views));
        assert(is_stable_order(chosen, views));
        lemma_stable_order_is_unique(order@, chosen, views);
    }
    let mut r: Vec<usize> = Vec::new();
    let mut i: usize = 0;
    assert(r@ =~= kept_positions(order@.take(0), views));
    while i < order.len()
        invariant
            i <= order@.len(),
            views == key_views(keys@),
            forall|k: int| 0 <= k < order@.len() ==> 0 <= (#[trigger] order@[k]) < keys@.len(),
            forall|k: int| 0 <= k < r@.len() ==> 0 <= (#[trigger] r@[k]) < keys@.len(),
            r@ == kept_positions(order@.take(i as int), views),
        decreases order@.len() - i,
    {
        assert(order@.take(i + 1).drop_last() =~= order@.take(i as int));
        assert(order@.take(i + 1).last() == order@[i as int]);
        let mut repeated: bool = false;
        if i > 0 {
            let a = &keys[order[i - 1]];
            let b = &keys[order[i]];
            assert(views[order@[i - 1] as int] == part_views(a@));
            assert(views[order@[i as int] as int] == part_views(b@));
            assert(order@.take(i + 1)[i - 1] == order@[i - 1]);
            repeated = key_order(a, b) == Order::Same;
            proof {
                lemma_keys_same(part_views(a@), part_views(b@));
            }
        } else {
            assert(order@.take(1) =~= seq![order@[0]]);
            assert(order@.take(0) =~= Seq::<usize>::empty());
        }
        if !repeated {
            let ghost before = r@;
            r.push(order[i]);
            assert(r@ =~= before.push(order@[i as int]));
            if i == 0 {
                assert(r@ =~= order@.take(1));
            }
        }
        i = i + 1;
    }
    assert(order@.take(i as int) =~= order@);
    r
}

pub open spec fn path_keys(paths: Seq<Seq<char>>) -> Seq<Seq<PartView>> {
    paths.map_values(|p: Seq<char>| path_parts(p))
}

/// The keys by which paths order.
pub fn path_order_keys(paths: &Vec<String>) -> (r: Vec<Vec<NaturalPart>>)
    ensures
        key_views(r@) == path_keys(texts(paths@)),
{
    let ghost wanted = path_keys(texts(paths@));
    let mut keys: Vec<Vec<NaturalPart>> = Vec::new();
    let mut i: usize = 0;
    while i < paths.len()
        invariant
            i <= paths@.len(),
            wanted == path_keys(texts(paths@)),
            key_views(keys@) == wanted.take(i as int),
        decreases paths@.len() - i,
    {
        let ghost before = key_views(keys@);
        keys.push(path_order_key(paths[i].as_str()));
        assert(key_views(keys@) =~= before.push(wanted[i as int]));
        i = i + 1;
        assert(key_views(keys@) =~= wanted.take(i as int));
    }
    assert(key_views(keys@) =~= wanted);
    keys
}

/// Paths in their order, each once.
pub open spec fn ordered_paths(paths: Seq<Seq<char>>) -> Seq<Seq<char>> {
    sorted_distinct(paths, path_keys(paths))
}

/// Puts paths in their order, each once.
pub fn order_paths(paths: &Vec<String>) -> (r: Vec<String>)
    ensures
        texts(r@) == ordered_paths(texts(paths@)),
{
    let keys = path_order_keys(paths);
    assert(key_views(keys@).len() == keys@.len());
    assert(path_keys(texts(paths@)).len() == paths@.len());
    let order = distinct_order(&keys);
    let ghost wanted = ordered_paths(texts(paths@));
    let mut r: Vec<String> = Vec::new();
    let mut i: usize = 0;
    while i < order.len()
        invariant
            i <= order@.len(),
            wanted == ordered_paths(texts(paths@)),
            order@ == distinct_positions(path_keys(texts(paths@))),
            forall|k: int| 0 <= k < order@.len() ==> 0 <= (#[trigger] order@[k]) < paths@.len(),
            texts(r@) == wanted.take(i as int),
        decreases order@.len() - i,
    {
        let ghost before = texts(r@);
        r.push(paths[order[i]].clone());
        assert(texts(r@) =~= before.push(wanted[i as int]));
        i = i + 1;
        assert(texts(r@) =~= wanted.take(i as int));
    }
    assert(wanted.take(i as int) =~= wanted);
    r
}

} // verus!
