//! The files that failed while their tasks ran.

use crate::paths::{plain, same_path};
use crate::stored::lemma_filter_keeps_all;
use crate::text::{same_text, texts};
use vstd::prelude::*;

verus! {

/// A file of a task that could not be converted.
#[derive(Debug, PartialEq, Eq)]
pub struct FileFailure {
    pub task_id: String,
    pub path: String,
    pub error: String,
}

/// The contents of a `FileFailure`.
pub struct FailureView {
    pub task_id: Seq<char>,
    pub path: Seq<char>,
    pub error: Seq<char>,
}

impl View for FileFailure {
    type V = FailureView;

    open spec fn view(&self) -> FailureView {
        FailureView { task_id: self.task_id@, path: self.path@, error: self.error@ }
    }
}

impl Clone for FileFailure {
    fn clone(&self) -> (r: Self)
        ensures
            r == *self,
    {
        FileFailure {
            task_id: self.task_id.clone(),
            path: self.path.clone(),
            error: self.error.clone(),
        }
    }
}

pub open spec fn failure_views(list: Seq<FileFailure>) -> Seq<FailureView> {
    list.map_values(|f: FileFailure| f@)
}

pub open spec fn is_of_task(id: Seq<char>) -> spec_fn(FailureView) -> bool {
    |f: FailureView| f.task_id == id
}

pub open spec fn is_of_other_task(id: Seq<char>) -> spec_fn(FailureView) -> bool {
    |f: FailureView| f.task_id != id
}

pub open spec fn is_other_file(id: Seq<char>, path: Seq<char>) -> spec_fn(FailureView) -> bool {
    |f: FailureView| f.task_id != id || plain(f.path) != plain(path)
}

/// The failures of one task.
pub open spec fn failures_of(list: Seq<FailureView>, id: Seq<char>) -> Seq<FailureView> {
    list.filter(is_of_task(id))
}

/// The failed files of one task.
pub open spec fn failed_paths(list: Seq<FailureView>, id: Seq<char>) -> Seq<Seq<char>> {
    failures_of(list, id).map_values(|f: FailureView| f.path)
}

/// What is known once these failures were recorded one after the other.
pub open spec fn recorded(list: Seq<FailureView>) -> Seq<FailureView>
    decreases list.len(),
{
    if list.len() == 0 {
        Seq::empty()
    } else {
        let new = list.last();
        recorded(list.drop_last()).filter(is_other_file(new.task_id, new.path)).push(new)
    }
}

/// No file of a task has failed twice.
pub open spec fn fails_once(list: Seq<FailureView>) -> bool {
    forall|i: int, j: int|
        0 <= i < j < list.len() ==> is_other_file(
            (#[trigger] list[j]).task_id,
            list[j].path,
        )(#[trigger] list[i])
}

/// The failures of the tasks that have run.
#[derive(Debug, PartialEq, Eq)]
pub struct RunFailures {
    list: Vec<FileFailure>,
}

impl View for RunFailures {
    type V = Seq<FailureView>;

    closed spec fn view(&self) -> Seq<FailureView> {
        failure_views(self.list@)
    }
}

impl Default for RunFailures {
    fn default() -> (r: Self)
        ensures
            r@ == Seq::<FailureView>::empty(),
    {
        let r = RunFailures { list: Vec::new() };
        assert(r@ =~= Seq::<FailureView>::empty());
        r
    }
}

impl RunFailures {
    /// The failures of one task.
    pub fn of_task(&self, id: &str) -> (r: Vec<FileFailure>)
        ensures
            failure_views(r@) == failures_of(self@, id@),
    {
        let ghost all = self@;
        let ghost test = is_of_task(id@);
        let mut r: Vec<FileFailure> = Vec::new();
        let mut i: usize = 0;
        assert(failure_views(r@) =~= all.take(0).filter(test));
        while i < self.list.len()
            invariant
                i <= self.list@.len(),
                all == failure_views(self.list@),
                test == is_of_task(id@),
                failure_views(r@) == all.take(i as int).filter(test),
            decreases self.list@.len() - i,
        {
            let ghost before = failure_views(r@);
            proof {
                assert(all.take(i + 1) =~= all.take(i as int).push(all[i as int]));
                all.take(i as int).lemma_filter_push(all[i as int], test);
                assert(all[i as int] == self.list@[i as int]@);
            }
            if same_text(self.list[i].task_id.as_str(), id) {
                r.push(self.list[i].clone());
                assert(failure_views(r@) =~= before.push(all[i as int]));
            }
            i = i + 1;
        }
        assert(all.take(i as int) =~= all);
        r
    }

    /// The failed files of one task.
    pub fn paths_of_task(&self, id: &str) -> (r: Vec<String>)
        ensures
            texts(r@) == failed_paths(self@, id@),
    {
        let found = self.of_task(id);
        let ghost wanted = failed_paths(self@, id@);
        let mut r: Vec<String> = Vec::new();
        let mut i: usize = 0;
        while i < found.len()
            invariant
                i <= found@.len(),
                failure_views(found@) == failures_of(self@, id@),
                wanted == failed_paths(self@, id@),
                texts(r@) == wanted.take(i as int),
            decreases found@.len() - i,
        {
            let ghost before = texts(r@);
            assert(failures_of(self@, id@)[i as int] == found@[i as int]@);
            r.push(found[i].path.clone());
            assert(texts(r@) =~= before.push(wanted[i as int]));
            i = i + 1;
            assert(texts(r@) =~= wanted.take(i as int));
        }
        assert(texts(r@) =~= wanted);
        r
    }

    /// Records the failure of a file, in place of an earlier one.
    pub fn record(&mut self, task_id: &str, path: &str, error: &str)
        ensures
            final(self)@ == old(self)@.filter(is_other_file(task_id@, path@)).push(
                (FailureView { task_id: task_id@, path: path@, error: error@ }),
            ),
    {
        let ghost all = self@;
        let ghost test = is_other_file(task_id@, path@);
        let mut kept: Vec<FileFailure> = Vec::new();
        let mut i: usize = 0;
        assert(failure_views(kept@) =~= all.take(0).filter(test));
        while i < self.list.len()
            invariant
                i <= self.list@.len(),
                all == failure_views(self.list@),
                test == is_other_file(task_id@, path@),
                failure_views(kept@) == all.take(i as int).filter(test),
            decreases self.list@.len() - i,
        {
            let ghost before = failure_views(kept@);
            proof {
                assert(all.take(i + 1) =~= all.take(i as int).push(all[i as int]));
                all.take(i as int).lemma_filter_push(all[i as int], test);
                assert(all[i as int] == self.list@[i as int]@);
            }
            if !same_text(self.list[i].task_id.as_str(), task_id) || !same_path(
                self.list[i].path.as_str(),
                path,
            ) {
                kept.push(self.list[i].clone());
                assert(failure_views(kept@) =~= before.push(all[i as int]));
            }
            i = i + 1;
        }
        assert(all.take(i as int) =~= all);
        let ghost before = failure_views(kept@);
        kept.push(
            FileFailure {
                task_id: task_id.to_owned(),
                path: path.to_owned(),
                error: error.to_owned(),
            },
        );
        self.list = kept;
        assert(self@ =~= before.push(
            (FailureView { task_id: task_id@, path: path@, error: error@ }),
        ));
    }

    /// Forgets the failures of a task.
    pub fn forget_task(&mut self, task_id: &str)
        ensures
            final(self)@ == old(self)@.filter(is_of_other_task(task_id@)),
    {
        let ghost all = self@;
        let ghost test = is_of_other_task(task_id@);
        let mut kept: Vec<FileFailure> = Vec::new();
        let mut i: usize = 0;
        assert(failure_views(kept@) =~= all.take(0).filter(test));
        while i < self.list.len()
            invariant
                i <= self.list@.len(),
                all == failure_views(self.list@),
                test == is_of_other_task(task_id@),
                failure_views(kept@) == all.take(i as int).filter(test),
            decreases self.list@.len() - i,
        {
            let ghost before = failure_views(kept@);
            proof {
                assert(all.take(i + 1) =~= all.take(i as int).push(all[i as int]));
                all.take(i as int).lemma_filter_push(all[i as int], test);
                assert(all[i as int] == self.list@[i as int]@);
            }
            if !same_text(self.list[i].task_id.as_str(), task_id) {
                kept.push(self.list[i].clone());
                assert(failure_views(kept@) =~= before.push(all[i as int]));
            }
            i = i + 1;
        }
        assert(all.take(i as int) =~= all);
        self.list = kept;
    }

    /// Every failure, for keeping them until the next session.
    pub fn all(&self) -> (r: &Vec<FileFailure>)
        ensures
            failure_views(r@) == self@,
    {
        &self.list
    }

    /// The failures that an earlier session kept.
    pub fn restored(list: &Vec<FileFailure>) -> (r: Self)
        ensures
            r@ == recorded(failure_views(list@)),
    {
        let ghost all = failure_views(list@);
        let mut r = RunFailures::default();
        let mut i: usize = 0;
        assert(all.take(0) =~= Seq::<FailureView>::empty());
        while i < list.len()
            invariant
                i <= list@.len(),
                all == failure_views(list@),
                r@ == recorded(all.take(i as int)),
            decreases list@.len() - i,
        {
            assert(all.take(i + 1).drop_last() =~= all.take(i as int));
            assert(all.take(i + 1).last() == list@[i as int]@);
            r.record(list[i].task_id.as_str(), list[i].path.as_str(), list[i].error.as_str());
            i = i + 1;
        }
        assert(all.take(i as int) =~= all);
        r
    }

    /// Forgets every failure.
    pub fn clear(&mut self)
        ensures
            final(self)@ == Seq::<FailureView>::empty(),
    {
        self.list.clear();
        assert(self@ =~= Seq::<FailureView>::empty());
    }
}

/// Two filters that never both pass leave nothing.
pub proof fn lemma_disjoint_filters<A>(
    s: Seq<A>,
    first: spec_fn(A) -> bool,
    second: spec_fn(A) -> bool,
)
    requires
        forall|x: A| !(#[trigger] first(x) && second(x)),
    ensures
        s.filter(first).filter(second) == Seq::<A>::empty(),
    decreases s.len(),
{
    reveal(Seq::filter);
    if s.len() > 0 {
        lemma_disjoint_filters(s.drop_last(), first, second);
        if first(s.last()) {
            s.drop_last().filter(first).lemma_filter_push(s.last(), second);
        }
    }
}

/// A filter that passes whatever another passes changes nothing before it.
pub proof fn lemma_weaker_filter<A>(
    s: Seq<A>,
    weaker: spec_fn(A) -> bool,
    stronger: spec_fn(A) -> bool,
)
    requires
        forall|x: A| #[trigger] stronger(x) ==> weaker(x),
    ensures
        s.filter(weaker).filter(stronger) == s.filter(stronger),
    decreases s.len(),
{
    reveal(Seq::filter);
    if s.len() > 0 {
        lemma_weaker_filter(s.drop_last(), weaker, stronger);
        if weaker(s.last()) {
            s.drop_last().filter(weaker).lemma_filter_push(s.last(), stronger);
        }
    }
}

proof fn lemma_kept_fail_once(list: Seq<FailureView>, test: spec_fn(FailureView) -> bool)
    requires
        fails_once(list),
    ensures
        fails_once(list.filter(test)),
        forall|i: int|
            0 <= i < list.filter(test).len() ==> list.contains(#[trigger] list.filter(test)[i])
                && test(list.filter(test)[i]),
    decreases list.len(),
{
    reveal(Seq::filter);
    if list.len() > 0 {
        let rest = list.drop_last();
        let last = list.last();
        assert(fails_once(rest)) by {
            assert forall|i: int, j: int| 0 <= i < j < rest.len() implies is_other_file(
                (#[trigger] rest[j]).task_id,
                rest[j].path,
            )(#[trigger] rest[i]) by {
                assert(rest[i] == list[i] && rest[j] == list[j]);
            }
        }
        lemma_kept_fail_once(rest, test);
        let before = rest.filter(test);
        let now = list.filter(test);
        assert forall|i: int| 0 <= i < now.len() implies list.contains(#[trigger] now[i]) && test(
            now[i],
        ) by {
            if i < before.len() {
                assert(rest.contains(before[i]));
                let k = choose|k: int| 0 <= k < rest.len() && rest[k] == before[i];
                assert(list[k] == now[i]);
            } else {
                assert(list[list.len() - 1] == now[i]);
            }
        }
        assert forall|i: int, j: int| 0 <= i < j < now.len() implies is_other_file(
            (#[trigger] now[j]).task_id,
            now[j].path,
        )(#[trigger] now[i]) by {
            if j < before.len() {
                assert(before[i] == now[i] && before[j] == now[j]);
            } else {
                assert(rest.contains(before[i]));
                let k = choose|k: int| 0 <= k < rest.len() && rest[k] == before[i];
                assert(list[k] == now[i] && list[list.len() - 1] == now[j]);
            }
        }
    }
}

/// No file of a task is listed twice, whatever is recorded or forgotten, and failures that were kept
/// come back as they were.
pub proof fn law_failures_come_back(list: Seq<FailureView>, new: FailureView, id: Seq<char>)
    requires
        fails_once(list),
    ensures
        recorded(list) == list,
        fails_once(list.filter(is_other_file(new.task_id, new.path)).push(new)),
        fails_once(list.filter(is_of_other_task(id))),
        fails_once(Seq::empty()),
    decreases list.len(),
{
    let test = is_other_file(new.task_id, new.path);
    let kept = list.filter(test);
    lemma_kept_fail_once(list, test);
    lemma_kept_fail_once(list, is_of_other_task(id));
    let now = kept.push(new);
    assert forall|i: int, j: int| 0 <= i < j < now.len() implies is_other_file(
        (#[trigger] now[j]).task_id,
        now[j].path,
    )(#[trigger] now[i]) by {
        assert(now[i] == kept[i]);
        if j < kept.len() {
            assert(now[j] == kept[j]);
        } else {
            assert(test(kept[i]));
        }
    }
    if list.len() > 0 {
        let rest = list.drop_last();
        let last = list.last();
        assert(fails_once(rest)) by {
            assert forall|i: int, j: int| 0 <= i < j < rest.len() implies is_other_file(
                (#[trigger] rest[j]).task_id,
                rest[j].path,
            )(#[trigger] rest[i]) by {
                assert(rest[i] == list[i] && rest[j] == list[j]);
            }
        }
        law_failures_come_back(rest, new, id);
        let other = is_other_file(last.task_id, last.path);
        assert forall|i: int| 0 <= i < rest.len() implies other(#[trigger] rest[i]) by {
            assert(rest[i] == list[i] && list[list.len() - 1] == last);
        }
        lemma_filter_keeps_all(rest, other);
        assert(recorded(list) =~= list);
    } else {
        assert(recorded(list) =~= list);
    }
}

/// Forgetting a task leaves it without failures and the failures of other tasks as they were;
/// recording a failure leaves those of other tasks as they were.
pub proof fn law_failures_belong_to_their_task(
    list: Seq<FailureView>,
    id: Seq<char>,
    other: Seq<char>,
    new: FailureView,
)
    requires
        other != id,
        new.task_id == id,
    ensures
        failures_of(list.filter(is_of_other_task(id)), id).len() == 0,
        failures_of(list.filter(is_of_other_task(id)), other) == failures_of(list, other),
        failures_of(list.filter(is_other_file(id, new.path)).push(new), other) == failures_of(
            list,
            other,
        ),
        failures_of(list.filter(is_other_file(id, new.path)).push(new), id).contains(new),
{
    lemma_disjoint_filters(list, is_of_other_task(id), is_of_task(id));
    lemma_weaker_filter(list, is_of_other_task(id), is_of_task(other));
    lemma_weaker_filter(list, is_other_file(id, new.path), is_of_task(other));
    let rest = list.filter(is_other_file(id, new.path));
    rest.lemma_filter_push(new, is_of_task(other));
    rest.lemma_filter_push(new, is_of_task(id));
    let mine = rest.filter(is_of_task(id)).push(new);
    assert(mine[mine.len() - 1] == new);
}

} // verus!
