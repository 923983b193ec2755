//! Laws on watched folders: which folders are watched, and what a scan of them adds.

use crate::board::{task_named, BoardView};
use crate::disk::{is_done, video_files, DiskView};
use crate::failures::FailureView;
use crate::model::{ContentMode, SettingsView};
use crate::natural::{
    comes_before, compare_keys, law_sorting_keeps_every_item, lemma_keys_same,
    lemma_keys_transitive, lemma_sorted_is_picked, lemma_stable_order_exists, picks,
    sorted_positions, Order, PartView,
};
use crate::paths::{has_path, plain};
use crate::presets::{marks_of, SurroundingsView};
use crate::queue::{first_with_id, has_id, position_of, QueueStatus, TaskView};
use crate::rescan::{
    addition_keys, files_queued, is_new_work, left_of, marked, new_files, rescanned, scan_additions,
    scanned, task_with_target, watches_refreshed, AdditionView, ScanView,
};
use crate::targets::queued_paths;
use crate::text::decimal;
use crate::watch::{
    distinct_positions, is_used, is_watched, kept_positions, lemma_watch_place, registered,
    restored_watches, summary_keys, task_roots, unsorted_summaries, watch_at, watch_place,
    watch_summaries, watch_summary, with_roots, WatchView,
};
use vstd::prelude::*;

verus! {

/// No folder is watched twice.
pub open spec fn distinct_roots(list: Seq<WatchView>) -> bool {
    forall|i: int, j: int|
        0 <= i < j < list.len() ==> plain((#[trigger] list[i]).root) != plain((#[trigger] list[j]).root)
}

proof fn lemma_unwatched(list: Seq<WatchView>, root: Seq<char>, n: int)
    requires
        !is_watched(list, root),
        0 <= n <= list.len(),
    ensures
        forall|j: int| 0 <= j < n ==> plain((#[trigger] list[j]).root) != plain(root),
    decreases n,
{
    if n > 0 {
        lemma_unwatched(list, root, n - 1);
        if plain(list[n - 1].root) == plain(root) {
            assert(watch_at(list, root, n - 1));
        }
    }
}

/// Watching one more folder keeps the watched folders distinct.
pub proof fn law_watching_keeps_folders_distinct(list: Seq<WatchView>, watch: WatchView)
    requires
        distinct_roots(list),
    ensures
        distinct_roots(registered(list, watch)),
        is_watched(registered(list, watch), watch.root),
{
    if is_watched(list, watch.root) {
        let i = watch_place(list, watch.root);
        assert(watch_at(list, watch.root, i));
        assert(watch_at(registered(list, watch), watch.root, i));
    } else {
        lemma_unwatched(list, watch.root, list.len() as int);
        assert(watch_at(registered(list, watch), watch.root, list.len() as int));
    }
}

proof fn lemma_roots_stay_distinct(
    list: Seq<WatchView>,
    roots: Seq<Seq<char>>,
    settings: SettingsView,
)
    requires
        distinct_roots(list),
    ensures
        distinct_roots(with_roots(list, roots, settings)),
    decreases roots.len(),
{
    if roots.len() > 0 {
        lemma_roots_stay_distinct(list, roots.drop_last(), settings);
        let before = with_roots(list, roots.drop_last(), settings);
        if !is_watched(before, roots.last()) {
            lemma_unwatched(before, roots.last(), before.len() as int);
        }
    }
}

/// A restored queue watches no folder twice.
pub proof fn law_restored_folders_are_distinct(d: DiskView, tasks: Seq<TaskView>)
    ensures
        distinct_roots(restored_watches(d, tasks)),
    decreases tasks.len(),
{
    if tasks.len() > 0 {
        law_restored_folders_are_distinct(d, tasks.drop_last());
        let t = tasks.last();
        lemma_roots_stay_distinct(
            restored_watches(d, tasks.drop_last()),
            task_roots(d, t),
            t.settings,
        );
    }
}

/// Folders that are no longer watched leave the others distinct, and only those stay that a task works
/// on.
pub proof fn law_pruning_keeps_used_folders(list: Seq<WatchView>, tasks: Seq<TaskView>)
    requires
        distinct_roots(list),
    ensures
        distinct_roots(list.filter(is_used(tasks))),
        forall|w: WatchView|
            list.filter(is_used(tasks)).contains(w) <==> (#[trigger] list.contains(w) && is_used(
                tasks,
            )(w)),
    decreases list.len(),
{
    reveal(Seq::filter);
    let test = is_used(tasks);
    let kept = list.filter(test);
    if list.len() > 0 {
        let rest = list.drop_last();
        law_pruning_keeps_used_folders(rest, tasks);
        assert forall|w: WatchView| kept.contains(w) <==> (#[trigger] list.contains(w) && test(w)) by {
            assert(rest.contains(w) ==> list.contains(w)) by {
                if rest.contains(w) {
                    let i = choose|i: int| 0 <= i < rest.len() && rest[i] == w;
                    assert(list[i] == w);
                }
            }
            if list.contains(w) && w != list.last() {
                let i = choose|i: int| 0 <= i < list.len() && list[i] == w;
                assert(rest[i] == w);
            }
            let before = rest.filter(test);
            if before.contains(w) {
                let i = choose|i: int| 0 <= i < before.len() && before[i] == w;
                assert(kept[i] == w);
            }
            if kept.contains(w) {
                let i = choose|i: int| 0 <= i < kept.len() && kept[i] == w;
                if i < before.len() {
                    assert(before[i] == w);
                }
            }
            if test(list.last()) {
                assert(kept[kept.len() - 1] == list.last());
            }
        }
        let before = rest.filter(test);
        assert forall|i: int, j: int| 0 <= i < j < kept.len() implies plain(
            (#[trigger] kept[i]).root,
        ) != plain((#[trigger] kept[j]).root) by {
            if j < before.len() {
                assert(plain(before[i].root) != plain(before[j].root));
            } else {
                assert(before.contains(kept[i]));
                assert(rest.contains(kept[i]));
                let k = choose|k: int| 0 <= k < rest.len() && rest[k] == kept[i];
                assert(plain(list[k].root) != plain(list[list.len() - 1].root));
            }
        }
    }
}

/// Every watched folder was last seen as it is now.
pub open spec fn all_seen(list: Seq<WatchView>, env: SurroundingsView) -> bool {
    forall|i: int|
        0 <= i < list.len() ==> (#[trigger] list[i]).snapshot == marks_of(env.marks, list[i].root)
}

proof fn lemma_seen_folders_are_passed(
    s: ScanView,
    list: Seq<WatchView>,
    existing: Seq<Seq<char>>,
    env: SurroundingsView,
)
    requires
        all_seen(list, env),
    ensures
        s.with_watches(list, existing, false, env) == s,
    decreases list.len(),
{
    if list.len() > 0 {
        let rest = list.drop_last();
        assert(all_seen(rest, env)) by {
            assert forall|i: int| 0 <= i < rest.len() implies (#[trigger] rest[i]).snapshot == marks_of(
                env.marks,
                rest[i].root,
            ) by {
                assert(rest[i] == list[i]);
            }
        }
        lemma_seen_folders_are_passed(s, rest, existing, env);
        assert(list[list.len() - 1].snapshot == marks_of(env.marks, list.last().root));
    }
}

proof fn lemma_nothing_to_add(s: ScanView)
    requires
        s.additions.len() == 0,
    ensures
        scan_additions(s) == Seq::<AdditionView>::empty(),
{
    let keys = addition_keys(s.additions);
    lemma_stable_order_exists(keys);
    assert(sorted_positions(keys).len() == 0);
    assert(distinct_positions(keys).len() == 0);
    assert(scan_additions(s) =~= Seq::<AdditionView>::empty());
}

/// A look at folders that have not changed adds nothing and changes nothing.
pub proof fn law_unchanged_folders_add_nothing(b: BoardView, env: SurroundingsView)
    requires
        all_seen(b.watched, env),
    ensures
        rescanned(b, false, env) == (b, 0nat),
{
    let s = ScanView { board: b, additions: Seq::empty(), reactivated: 0 };
    lemma_seen_folders_are_passed(s, b.watched, queued_paths(b.tasks), env);
    lemma_nothing_to_add(s);
}

/// What a scan has done to the watches: the first `n` have been seen as they are now, and the rest are
/// as they were.
spec fn seen_up_to(
    before: Seq<WatchView>,
    after: Seq<WatchView>,
    env: SurroundingsView,
    n: int,
) -> bool {
    &&& after.len() == before.len()
    &&& forall|i: int| 0 <= i < after.len() ==> (#[trigger] after[i]).root == before[i].root
    &&& forall|i: int|
        0 <= i < n ==> (#[trigger] after[i]).snapshot == marks_of(env.marks, before[i].root)
    &&& forall|i: int| n <= i < after.len() ==> #[trigger] after[i] == before[i]
}

proof fn lemma_scan_sees_folders(b: BoardView, force: bool, env: SurroundingsView, n: int)
    requires
        distinct_roots(b.watched),
        0 <= n <= b.watched.len(),
    ensures
        seen_up_to(
            b.watched,
            (ScanView { board: b, additions: Seq::empty(), reactivated: 0 }).with_watches(
                b.watched.take(n),
                queued_paths(b.tasks),
                force,
                env,
            ).board.watched,
            env,
            n,
        ),
    decreases n,
{
    let start = ScanView { board: b, additions: Seq::empty(), reactivated: 0 };
    let existing = queued_paths(b.tasks);
    if n > 0 {
        lemma_scan_sees_folders(b, force, env, n - 1);
        let list = b.watched.take(n);
        assert(list.drop_last() =~= b.watched.take(n - 1));
        let s = start.with_watches(b.watched.take(n - 1), existing, force, env);
        let w = list.last();
        assert(w == b.watched[n - 1]);
        let now = marks_of(env.marks, w.root);
        let watched = s.board.watched;
        assert(watched[n - 1] == w);
        let after = s.with_watch(w, existing, force, env).board.watched;
        if force || now != w.snapshot {
            assert(watch_at(watched, w.root, n - 1)) by {
                assert forall|j: int| 0 <= j < n - 1 implies plain(
                    (#[trigger] watched[j]).root,
                ) != plain(w.root) by {
                    assert(plain(b.watched[j].root) != plain(b.watched[n - 1].root));
                }
            }
            lemma_watch_place(watched, w.root, n - 1);
            assert(after == marked(watched, w.root, now));
        } else {
            assert(after == watched);
        }
    }
}

proof fn lemma_queueing_keeps_watches(b: BoardView, list: Seq<AdditionView>, env: SurroundingsView)
    ensures
        files_queued(b, list, env).watched == b.watched,
    decreases list.len(),
{
    if list.len() > 0 {
        lemma_queueing_keeps_watches(b, list.drop_last(), env);
    }
}

/// After a scan, a second look at the same disk adds nothing and changes nothing.
pub proof fn law_scanning_twice_adds_once(b: BoardView, force: bool, env: SurroundingsView)
    requires
        distinct_roots(b.watched),
    ensures
        rescanned(rescanned(b, force, env).0, false, env) == (rescanned(b, force, env).0, 0nat),
        distinct_roots(rescanned(b, force, env).0.watched),
{
    let s = scanned(b, force, env);
    lemma_scan_sees_folders(b, force, env, b.watched.len() as int);
    assert(b.watched.take(b.watched.len() as int) =~= b.watched);
    lemma_queueing_keeps_watches(s.board, scan_additions(s), env);
    let after = rescanned(b, force, env).0;
    assert(after.watched == s.board.watched);
    assert(all_seen(after.watched, env)) by {
        assert forall|i: int| 0 <= i < after.watched.len() implies (
        #[trigger] after.watched[i]).snapshot == marks_of(env.marks, after.watched[i].root) by {
            assert(after.watched[i].root == b.watched[i].root);
        }
    }
    assert forall|i: int, j: int| 0 <= i < j < after.watched.len() implies plain(
        (#[trigger] after.watched[i]).root,
    ) != plain((#[trigger] after.watched[j]).root) by {
        assert(plain(b.watched[i].root) != plain(b.watched[j].root));
    }
    law_unchanged_folders_add_nothing(after, env);
}

/// A file that no task has, and that is still to be converted.
pub open spec fn is_open_work(env: SurroundingsView, existing: Seq<Seq<char>>, a: AdditionView) -> bool {
    !has_path(existing, a.path) && !is_done(env.disk, a.path, a.settings.mode)
}

proof fn lemma_additions_are_open_work(
    s: ScanView,
    list: Seq<WatchView>,
    existing: Seq<Seq<char>>,
    force: bool,
    env: SurroundingsView,
)
    requires
        forall|i: int| 0 <= i < s.additions.len() ==> is_open_work(env, existing, #[trigger] s.additions[i]),
    ensures
        forall|i: int|
            0 <= i < s.with_watches(list, existing, force, env).additions.len() ==> is_open_work(
                env,
                existing,
                #[trigger] s.with_watches(list, existing, force, env).additions[i],
            ),
    decreases list.len(),
{
    if list.len() > 0 {
        lemma_additions_are_open_work(s, list.drop_last(), existing, force, env);
        let before = s.with_watches(list.drop_last(), existing, force, env);
        let w = list.last();
        let after = before.with_watch(w, existing, force, env);
        let more = new_files(env, existing, w);
        assert forall|i: int| 0 <= i < more.len() implies is_open_work(env, existing, #[trigger] more[i]) by {
            let files = video_files(env.disk, w.root);
            files.lemma_filter_pred(is_new_work(env, existing, w.settings.mode), i);
        }
        assert(after.additions == before.additions || after.additions == before.additions + more);
    }
}

/// Positions with the same key as the one before are left out, so that the keys that stay rise.
proof fn lemma_kept_keys_rise(order: Seq<usize>, keys: Seq<Seq<PartView>>)
    requires
        forall|i: int| 0 <= i < order.len() ==> 0 <= (#[trigger] order[i]) < keys.len(),
        forall|i: int, j: int|
            0 <= i < j < order.len() ==> comes_before(
                keys,
                #[trigger] order[i] as int,
                #[trigger] order[j] as int,
            ),
    ensures
        ({
            let kept = kept_positions(order, keys);
            &&& order.len() > 0 ==> kept.len() > 0 && keys[kept.last() as int] == keys[order.last() as int]
            &&& forall|i: int| 0 <= i < kept.len() ==> 0 <= (#[trigger] kept[i]) < keys.len()
            &&& forall|i: int, j: int|
                0 <= i < j < kept.len() ==> compare_keys(
                    keys[#[trigger] kept[i] as int],
                    keys[#[trigger] kept[j] as int],
                ) == Order::Less
        }),
    decreases order.len(),
{
    if order.len() > 1 {
        let rest = order.drop_last();
        assert forall|i: int, j: int| 0 <= i < j < rest.len() implies comes_before(
            keys,
            #[trigger] rest[i] as int,
            #[trigger] rest[j] as int,
        ) by {
            assert(rest[i] == order[i] && rest[j] == order[j]);
        }
        lemma_kept_keys_rise(rest, keys);
        let before = kept_positions(rest, keys);
        let a = keys[order[order.len() - 2] as int];
        let b = keys[order.last() as int];
        assert(rest.last() == order[order.len() - 2]);
        if a != b {
            assert(comes_before(
                keys,
                order[order.len() - 2] as int,
                order[order.len() - 1] as int,
            ));
            lemma_keys_same(a, b);
            assert(compare_keys(a, b) == Order::Less);
            let kept = before.push(order.last());
            assert forall|i: int, j: int| 0 <= i < j < kept.len() implies compare_keys(
                keys[#[trigger] kept[i] as int],
                keys[#[trigger] kept[j] as int],
            ) == Order::Less by {
                if j == before.len() {
                    if i == before.len() - 1 {
                        assert(keys[kept[i] as int] == a);
                    } else {
                        assert(compare_keys(
                            keys[before[i] as int],
                            keys[before[before.len() - 1] as int],
                        ) == Order::Less);
                        lemma_keys_transitive(keys[before[i] as int], a, b);
                    }
                } else {
                    assert(kept[i] == before[i] && kept[j] == before[j]);
                }
            }
        }
    }
}

/// A scan queues only files that no task has and that are still to be converted, and none of them
/// twice.
pub proof fn law_scans_queue_new_files_once(b: BoardView, force: bool, env: SurroundingsView)
    requires
        scanned(b, force, env).additions.len() <= usize::MAX,
    ensures
        ({
            let added = scan_additions(scanned(b, force, env));
            &&& forall|i: int|
                0 <= i < added.len() ==> is_open_work(env, queued_paths(b.tasks), #[trigger] added[i])
            &&& forall|i: int, j: int|
                0 <= i < j < added.len() ==> (#[trigger] added[i]).path != (#[trigger] added[j]).path
        }),
{
    let s = scanned(b, force, env);
    let start = ScanView { board: b, additions: Seq::empty(), reactivated: 0 };
    lemma_additions_are_open_work(start, b.watched, queued_paths(b.tasks), force, env);
    let keys = addition_keys(s.additions);
    lemma_stable_order_exists(keys);
    let order = sorted_positions(keys);
    lemma_kept_keys_rise(order, keys);
    let places = distinct_positions(keys);
    let added = scan_additions(s);
    assert forall|i: int, j: int| 0 <= i < j < added.len() implies (#[trigger] added[i]).path != (
    #[trigger] added[j]).path by {
        let a = places[i] as int;
        let c = places[j] as int;
        assert(compare_keys(keys[places[i] as int], keys[places[j] as int]) == Order::Less);
        lemma_keys_same(keys[a], keys[c]);
        assert(added[i] == s.additions[a] && added[j] == s.additions[c]);
    }
    assert forall|i: int| 0 <= i < added.len() implies is_open_work(
        env,
        queued_paths(b.tasks),
        #[trigger] added[i],
    ) by {
        assert(0 <= places[i] < keys.len());
        assert(added[i] == s.additions[places[i] as int]);
    }
}

/// A changed folder that is no task of its own brings in each of its videos that no task has and that still needs
/// work, with the settings of the folder.
pub proof fn law_new_files_are_found(
    s: ScanView,
    w: WatchView,
    existing: Seq<Seq<char>>,
    force: bool,
    env: SurroundingsView,
    p: Seq<char>,
)
    requires
        force || marks_of(env.marks, w.root) != w.snapshot,
        w.settings.mode != ContentMode::PhotoSlideshow,
        task_with_target(s.board.tasks, w.root) is None,
        video_files(env.disk, w.root).contains(p),
        !has_path(existing, p),
        !is_done(env.disk, p, w.settings.mode),
    ensures
        s.with_watch(w, existing, force, env).additions.contains(
            AdditionView { path: p, settings: w.settings, root: w.root },
        ),
{
    let files = video_files(env.disk, w.root);
    let test = is_new_work(env, existing, w.settings.mode);
    let i = choose|i: int| 0 <= i < files.len() && files[i] == p;
    files.lemma_filter_contains(test, i);
    let kept = files.filter(test);
    let k = choose|k: int| 0 <= k < kept.len() && kept[k] == p;
    let found = new_files(env, existing, w);
    let a = AdditionView { path: p, settings: w.settings, root: w.root };
    assert(found[k] == a);
    let all = s.with_watch(w, existing, force, env).additions;
    assert(all == s.additions + found);
    assert(all[s.additions.len() + k] == a);
}

/// A changed folder that is a task of its own brings in no files; where its task was completed and files are left,
/// the task waits again.
pub proof fn law_folder_tasks_wait_again(
    s: ScanView,
    w: WatchView,
    existing: Seq<Seq<char>>,
    force: bool,
    env: SurroundingsView,
    id: Seq<char>,
)
    requires
        force || marks_of(env.marks, w.root) != w.snapshot,
        w.settings.mode != ContentMode::PhotoSlideshow,
        task_with_target(s.board.tasks, w.root) == Some(id),
        has_id(s.board.tasks, id),
    ensures
        ({
            let after = s.with_watch(w, existing, force, env);
            let t = task_named(s.board.tasks, id);
            let more = t.status == QueueStatus::Completed && left_of(env, s.board.failures, t).len() > 0;
            &&& after.additions == s.additions
            &&& more ==> task_named(after.board.tasks, id).status == QueueStatus::Pending && task_named(
                after.board.tasks,
                id,
            ).error is None && after.reactivated == s.reactivated + 1
            &&& !more ==> after.board.tasks == s.board.tasks && after.reactivated == s.reactivated
        }),
{
    let tasks = s.board.tasks;
    let t = task_named(tasks, id);
    let p = position_of(tasks, id);
    assert(first_with_id(tasks, id, p));
    let one = tasks.update(p, TaskView { status: QueueStatus::Pending, ..t });
    lemma_same_places(tasks, one, id, p);
    let two = one.update(p, TaskView { status: QueueStatus::Pending, error: None, ..t });
    lemma_same_places(one, two, id, p);
    let three = two.update(
        p,
        TaskView { status: QueueStatus::Pending, error: None, complete_time: Seq::empty(), ..t },
    );
    lemma_same_places(two, three, id, p);
}

proof fn lemma_same_places(a: Seq<TaskView>, b: Seq<TaskView>, id: Seq<char>, p: int)
    requires
        first_with_id(a, id, p),
        a.len() == b.len(),
        forall|j: int| 0 <= j < a.len() ==> (#[trigger] a[j]).id == b[j].id,
    ensures
        has_id(b, id),
        first_with_id(b, id, p),
        position_of(b, id) == p,
{
    assert(a[p].id == b[p].id);
    assert forall|j: int| 0 <= j < p implies (#[trigger] b[j]).id != id by {
        assert(a[j].id != id);
    }
    assert(first_with_id(b, id, p));
    assert(first_with_id(b, id, position_of(b, id)));
}

/// What a look at one folder found is kept while the others are looked at.
pub proof fn law_found_files_are_kept(
    s: ScanView,
    list: Seq<WatchView>,
    existing: Seq<Seq<char>>,
    force: bool,
    env: SurroundingsView,
    a: AdditionView,
)
    requires
        s.additions.contains(a),
    ensures
        s.with_watches(list, existing, force, env).additions.contains(a),
    decreases list.len(),
{
    if list.len() > 0 {
        law_found_files_are_kept(s, list.drop_last(), existing, force, env, a);
        let before = s.with_watches(list.drop_last(), existing, force, env);
        let k = choose|k: int| 0 <= k < before.additions.len() && before.additions[k] == a;
        let after = before.with_watch(list.last(), existing, force, env);
        assert(after.additions[k] == a);
    }
}

/// Each file that is found becomes a task of its own at the end of the queue, with the settings and the root of its
/// folder.
pub proof fn law_found_files_become_tasks(
    b: BoardView,
    list: Seq<AdditionView>,
    a: AdditionView,
    env: SurroundingsView,
)
    requires
        files_queued(b, list, env).can_add(),
    ensures
        ({
            let before = files_queued(b, list, env);
            let after = files_queued(b, list.push(a), env);
            let t = after.tasks.last();
            &&& after.tasks.len() == before.tasks.len() + 1
            &&& after.tasks.drop_last() == before.tasks
            &&& t.targets == seq![a.path]
            &&& t.settings == a.settings
            &&& t.source_root == Some(a.root)
            &&& t.status == QueueStatus::Pending
        }),
{
    assert(list.push(a).drop_last() =~= list);
    let before = files_queued(b, list, env);
    let after = files_queued(b, list.push(a), env);
    assert(after.tasks.drop_last() =~= before.tasks);
}

/// A regular look says in how many tasks it found new work, and says nothing where it found none.
pub proof fn law_words_for_new_work(b: BoardView, env: SurroundingsView)
    ensures
        rescanned(b, false, env).1 > 0 ==> watches_refreshed(b, env).activity
            == "Folder watch found new work in "@ + decimal(rescanned(b, false, env).1)
            + " queue task(s)"@ && watches_refreshed(b, env).unsaved,
        rescanned(b, false, env).1 == 0 ==> watches_refreshed(b, env).activity
            == rescanned(b, false, env).0.activity,
{
}

/// Every watched folder has its counts.
pub proof fn law_watched_folders_are_counted(
    env: SurroundingsView,
    tasks: Seq<TaskView>,
    failures: Seq<FailureView>,
    watched: Seq<WatchView>,
    i: int,
)
    requires
        0 <= i < watched.len(),
        watched.len() <= usize::MAX,
    ensures
        watch_summaries(env, tasks, failures, watched).len() == watched.len(),
        watch_summaries(env, tasks, failures, watched).contains(
            watch_summary(env, tasks, failures, watched[i]),
        ),
        watch_summary(env, tasks, failures, watched[i]).root == watched[i].root,
        watch_summary(env, tasks, failures, watched[i]).mode == watched[i].settings.mode,
{
    let list = unsorted_summaries(env, tasks, failures, watched);
    let keys = summary_keys(list);
    lemma_stable_order_exists(keys);
    let order = sorted_positions(keys);
    let out = watch_summaries(env, tasks, failures, watched);
    assert(picks(out, list, order));
    lemma_sorted_is_picked(out, list, keys, order);
    law_sorting_keeps_every_item(out, list, keys);
    assert(list[i] == watch_summary(env, tasks, failures, watched[i]));
    assert(list.contains(list[i]));
}

/// A watch replaces an earlier one of the same folder, and its settings and snapshot are those of the folder then.
pub proof fn law_latest_watch_counts(list: Seq<WatchView>, watch: WatchView)
    ensures
        registered(list, watch)[watch_place(registered(list, watch), watch.root)] == watch,
        is_watched(list, watch.root) ==> registered(list, watch).len() == list.len(),
        !is_watched(list, watch.root) ==> registered(list, watch) == list.push(watch),
{
    let after = registered(list, watch);
    if is_watched(list, watch.root) {
        let i = watch_place(list, watch.root);
        assert(watch_at(list, watch.root, i));
        assert(watch_at(after, watch.root, i));
        lemma_watch_place(after, watch.root, i);
    } else {
        lemma_unwatched(list, watch.root, list.len() as int);
        assert(watch_at(after, watch.root, list.len() as int));
        lemma_watch_place(after, watch.root, list.len() as int);
    }
}

} // verus!
