//! The ordered queue of conversion tasks.

use crate::model::{QueueSettings, SettingsView};
use crate::text::{concat2, copy_list, copy_opt, opt_text, same_text, texts};
use std::collections::VecDeque;
use vstd::prelude::*;

verus! {

/// The lifecycle of a task.
#[derive(Debug, Clone, Copy, PartialEq, Eq, Structural)]
pub enum QueueStatus {
    Pending,
    Running,
    Paused,
    Completed,
    Failed,
    Cancelled,
}

/// One entry of the queue.
#[derive(Debug, PartialEq, Eq)]
pub struct QueueTask {
    pub id: String,
    pub name: String,
    pub targets: Vec<String>,
    pub source_root: Option<String>,
    pub queued_time: String,
    pub complete_time: String,
    pub settings: QueueSettings,
    pub status: QueueStatus,
    pub error: Option<String>,
    pub skipped_paths: Vec<String>,
}

/// The contents of a `QueueTask`.
pub struct TaskView {
    pub id: Seq<char>,
    pub name: Seq<char>,
    pub targets: Seq<Seq<char>>,
    pub source_root: Option<Seq<char>>,
    pub queued_time: Seq<char>,
    pub complete_time: Seq<char>,
    pub settings: SettingsView,
    pub status: QueueStatus,
    pub error: Option<Seq<char>>,
    pub skipped_paths: Seq<Seq<char>>,
}

impl View for QueueTask {
    type V = TaskView;

    open spec fn view(&self) -> TaskView {
        TaskView {
            id: self.id@,
            name: self.name@,
            targets: texts(self.targets@),
            source_root: opt_text(self.source_root),
            queued_time: self.queued_time@,
            complete_time: self.complete_time@,
            settings: self.settings@,
            status: self.status,
            error: opt_text(self.error),
            skipped_paths: texts(self.skipped_paths@),
        }
    }
}

impl Clone for QueueTask {
    fn clone(&self) -> (r: Self)
        ensures
            r@ == self@,
    {
        QueueTask {
            id: self.id.clone(),
            name: self.name.clone(),
            targets: copy_list(&self.targets),
            source_root: copy_opt(&self.source_root),
            queued_time: self.queued_time.clone(),
            complete_time: self.complete_time.clone(),
            settings: self.settings.clone(),
            status: self.status,
            error: copy_opt(&self.error),
            skipped_paths: copy_list(&self.skipped_paths),
        }
    }
}

/// A task as it is first queued.
pub open spec fn new_task_view(
    id: Seq<char>,
    name: Seq<char>,
    targets: Seq<Seq<char>>,
    settings: SettingsView,
) -> TaskView {
    TaskView {
        id,
        name,
        targets,
        source_root: None,
        queued_time: Seq::empty(),
        complete_time: Seq::empty(),
        settings,
        status: QueueStatus::Pending,
        error: None,
        skipped_paths: Seq::empty(),
    }
}

impl QueueTask {
    pub fn new(id: String, name: String, targets: Vec<String>, settings: QueueSettings) -> (r: Self)
        ensures
            r@ == new_task_view(id@, name@, texts(targets@), settings@),
    {
        let r = QueueTask {
            id,
            name,
            targets,
            source_root: None,
            queued_time: String::new(),
            complete_time: String::new(),
            settings,
            status: QueueStatus::Pending,
            error: None,
            skipped_paths: Vec::new(),
        };
        assert(r@.queued_time =~= Seq::empty());
        assert(r@.complete_time =~= Seq::empty());
        assert(r@.skipped_paths =~= Seq::empty());
        r
    }
}

/// Why a queue operation was refused.
#[derive(Debug, PartialEq, Eq)]
pub enum QueueError {
    DuplicateId(String),
    UnknownId(String),
    InvalidMove,
}

pub open spec fn queue_error_text(e: QueueError) -> Seq<char> {
    match e {
        QueueError::DuplicateId(id) => "queue task id already exists: "@ + id@,
        QueueError::UnknownId(id) => "queue task id not found: "@ + id@,
        QueueError::InvalidMove => "queue task cannot be moved there"@,
    }
}

impl QueueError {
    pub fn message(&self) -> (r: String)
        ensures
            r@ == queue_error_text(*self),
    {
        match self {
            QueueError::DuplicateId(id) => concat2("queue task id already exists: ", id.as_str()),
            QueueError::UnknownId(id) => concat2("queue task id not found: ", id.as_str()),
            QueueError::InvalidMove => "queue task cannot be moved there".to_owned(),
        }
    }
}

/// The contents of a list of tasks.
pub open spec fn task_views(tasks: Seq<QueueTask>) -> Seq<TaskView> {
    tasks.map_values(|t: QueueTask| t@)
}

/// The first task with this identifier stands at `i`.
pub open spec fn first_with_id(tasks: Seq<TaskView>, id: Seq<char>, i: int) -> bool {
    &&& 0 <= i < tasks.len()
    &&& tasks[i].id == id
    &&& forall|j: int| 0 <= j < i ==> (#[trigger] tasks[j]).id != id
}

pub open spec fn has_id(tasks: Seq<TaskView>, id: Seq<char>) -> bool {
    exists|i: int| first_with_id(tasks, id, i)
}

/// The position of the first task with this identifier.
pub open spec fn position_of(tasks: Seq<TaskView>, id: Seq<char>) -> int {
    choose|i: int| first_with_id(tasks, id, i)
}

/// No two tasks share an identifier.
pub open spec fn unique_ids(tasks: Seq<TaskView>) -> bool {
    forall|i: int, j: int|
        0 <= i < j < tasks.len() ==> (#[trigger] tasks[i]).id != (#[trigger] tasks[j]).id
}

/// The sequence with the item at `from` taken out and put back at position `to`.
pub open spec fn moved<A>(s: Seq<A>, from: int, to: int) -> Seq<A> {
    s.remove(from).insert(to, s[from])
}

/// The first task that waits to run stands at `i`.
pub open spec fn first_pending_at(tasks: Seq<TaskView>, i: int) -> bool {
    &&& 0 <= i < tasks.len()
    &&& tasks[i].status == QueueStatus::Pending
    &&& forall|j: int| 0 <= j < i ==> (#[trigger] tasks[j]).status != QueueStatus::Pending
}

/// The identifier of the first task that waits to run.
pub open spec fn next_pending(tasks: Seq<TaskView>) -> Option<Seq<char>> {
    if exists|i: int| first_pending_at(tasks, i) {
        Some(tasks[choose|i: int| first_pending_at(tasks, i)].id)
    } else {
        None
    }
}

pub proof fn lemma_first_pending(tasks: Seq<TaskView>, i: int)
    requires
        first_pending_at(tasks, i),
    ensures
        next_pending(tasks) == Some(tasks[i].id),
{
    let k = choose|k: int| first_pending_at(tasks, k);
    assert(first_pending_at(tasks, k));
    if k < i {
        assert(tasks[k].status != QueueStatus::Pending);
    }
    if i < k {
        assert(tasks[i].status != QueueStatus::Pending);
    }
}

/// `r` refuses the identifier as unknown.
pub open spec fn refused_unknown<A>(r: Result<A, QueueError>, id: Seq<char>) -> bool {
    r matches Err(QueueError::UnknownId(x)) && x@ == id
}

pub proof fn lemma_first_is_unique(tasks: Seq<TaskView>, id: Seq<char>, i: int, j: int)
    requires
        first_with_id(tasks, id, i),
        first_with_id(tasks, id, j),
    ensures
        i == j,
        position_of(tasks, id) == i,
        has_id(tasks, id),
{
    let k = position_of(tasks, id);
    assert(first_with_id(tasks, id, k));
    if i < j {
        assert(tasks[i].id != id);
    }
    if j < i {
        assert(tasks[j].id != id);
    }
    if k < i {
        assert(tasks[k].id != id);
    }
    if i < k {
        assert(tasks[i].id != id);
    }
}

/// The tasks in the order in which they run.
#[derive(Debug)]
pub struct Queue {
    tasks: VecDeque<QueueTask>,
}

/// The task at a position, for changing it in place.
///
/// `VecDeque` gives a reference to the element at an index by its `IndexMut`: what is written through
/// it is what the queue holds there afterwards, and the other elements stay.
#[verifier::external_body]
fn task_at(tasks: &mut VecDeque<QueueTask>, i: usize) -> (r: &mut QueueTask)
    requires
        i < old(tasks)@.len(),
    ensures
        *r == old(tasks)@[i as int],
        final(tasks)@ == old(tasks)@.update(i as int, *final(r)),
{
    &mut tasks[i]
}

impl View for Queue {
    type V = Seq<TaskView>;

    closed spec fn view(&self) -> Seq<TaskView> {
        task_views(self.tasks@)
    }
}

impl Default for Queue {
    fn default() -> (r: Self)
        ensures
            r@ == Seq::<TaskView>::empty(),
    {
        let r = Queue { tasks: VecDeque::new() };
        assert(r@ =~= Seq::<TaskView>::empty());
        r
    }
}

impl Queue {
    pub fn tasks(&self) -> (r: &VecDeque<QueueTask>)
        ensures
            task_views(r@) == self@,
    {
        &self.tasks
    }

    fn position(&self, id: &str) -> (r: Option<usize>)
        ensures
            match r {
                Some(i) => first_with_id(self@, id@, i as int) && i == position_of(self@, id@)
                    && has_id(self@, id@),
                None => !has_id(self@, id@),
            },
            self@.len() == self.tasks@.len(),
    {
        let mut i: usize = 0;
        while i < self.tasks.len()
            invariant
                i <= self.tasks@.len(),
                self@.len() == self.tasks@.len(),
                forall|j: int| 0 <= j < i ==> (#[trigger] self@[j]).id != id@,
            decreases self.tasks@.len() - i,
        {
            assert(self@[i as int] == self.tasks@[i as int]@);
            if same_text(self.tasks[i].id.as_str(), id) {
                proof {
                    lemma_first_is_unique(self@, id@, i as int, i as int);
                }
                return Some(i);
            }
            i = i + 1;
        }
        None
    }

    /// Adds a task at the end of the queue, unless its identifier is already used.
    pub fn add(&mut self, task: QueueTask) -> (r: Result<(), QueueError>)
        ensures
            has_id(old(self)@, task.id@) ==> final(self)@ == old(self)@ && (
            r matches Err(QueueError::DuplicateId(x)) && x@ == task.id@),
            !has_id(old(self)@, task.id@) ==> r is Ok && final(self)@ == old(self)@.push(task@),
    {
        if self.position(task.id.as_str()).is_some() {
            return Err(QueueError::DuplicateId(task.id));
        }
        self.tasks.push_back(task);
        assert(self@ =~= old(self)@.push(task@));
        Ok(())
    }

    /// Removes and returns the first task with this identifier.
    pub fn remove(&mut self, id: &str) -> (r: Result<QueueTask, QueueError>)
        ensures
            has_id(old(self)@, id@) ==> {
                let i = position_of(old(self)@, id@);
                (r matches Ok(t) && t@ == old(self)@[i]) && final(self)@ == old(self)@.remove(i)
            },
            !has_id(old(self)@, id@) ==> final(self)@ == old(self)@ && refused_unknown(r, id@),
    {
        match self.position(id) {
            Some(i) => {
                match self.tasks.remove(i) {
                    Some(task) => {
                        assert(self@ =~= old(self)@.remove(i as int));
                        Ok(task)
                    },
                    None => Err(QueueError::UnknownId(id.to_owned())),
                }
            },
            None => Err(QueueError::UnknownId(id.to_owned())),
        }
    }

    pub fn clear(&mut self)
        ensures
            final(self)@ == Seq::<TaskView>::empty(),
    {
        self.tasks.clear();
        assert(self@ =~= Seq::<TaskView>::empty());
    }

    /// Moves a task by a signed number of positions.
    pub fn move_by(&mut self, id: &str, delta: isize) -> (r: Result<(), QueueError>)
        ensures
            !has_id(old(self)@, id@) ==> final(self)@ == old(self)@ && refused_unknown(r, id@),
            has_id(old(self)@, id@) ==> {
                let from = position_of(old(self)@, id@);
                let to = from + delta;
                if 0 <= to < old(self)@.len() {
                    r is Ok && final(self)@ == moved(old(self)@, from, to)
                } else {
                    r == Err::<(), QueueError>(QueueError::InvalidMove) && final(self)@
                        == old(self)@
                }
            },
    {
        match self.position(id) {
            Some(from) => {
                let to: i128 = (from as i128) + (delta as i128);
                if to < 0 || to >= self.tasks.len() as i128 {
                    return Err(QueueError::InvalidMove);
                }
                if let Some(task) = self.tasks.remove(from) {
                    self.tasks.insert(to as usize, task);
                }
                assert(self@ =~= moved(old(self)@, from as int, to as int));
                Ok(())
            },
            None => Err(QueueError::UnknownId(id.to_owned())),
        }
    }

    /// Moves a task to a position.
    pub fn move_to(&mut self, id: &str, to: usize) -> (r: Result<(), QueueError>)
        ensures
            !has_id(old(self)@, id@) ==> final(self)@ == old(self)@ && refused_unknown(r, id@),
            has_id(old(self)@, id@) ==> {
                let from = position_of(old(self)@, id@);
                if to < old(self)@.len() {
                    r is Ok && final(self)@ == moved(old(self)@, from, to as int)
                } else {
                    r == Err::<(), QueueError>(QueueError::InvalidMove) && final(self)@
                        == old(self)@
                }
            },
    {
        match self.position(id) {
            Some(from) => {
                if to >= self.tasks.len() {
                    return Err(QueueError::InvalidMove);
                }
                if from == to {
                    assert(moved(old(self)@, from as int, to as int) =~= old(self)@);
                    return Ok(());
                }
                if let Some(task) = self.tasks.remove(from) {
                    self.tasks.insert(to, task);
                }
                assert(self@ =~= moved(old(self)@, from as int, to as int));
                Ok(())
            },
            None => Err(QueueError::UnknownId(id.to_owned())),
        }
    }

    /// The identifier of the first task that waits to run.
    pub fn next_pending_id(&self) -> (r: Option<&str>)
        ensures
            match r {
                Some(id) => next_pending(self@) == Some(id@),
                None => next_pending(self@) is None,
            },
            r is None <==> forall|i: int|
                0 <= i < self@.len() ==> (#[trigger] self@[i]).status != QueueStatus::Pending,
    {
        let mut i: usize = 0;
        while i < self.tasks.len()
            invariant
                i <= self.tasks@.len(),
                self@.len() == self.tasks@.len(),
                forall|j: int| 0 <= j < i ==> (#[trigger] self@[j]).status != QueueStatus::Pending,
            decreases self.tasks@.len() - i,
        {
            assert(self@[i as int] == self.tasks@[i as int]@);
            if self.tasks[i].status == QueueStatus::Pending {
                proof {
                    assert(first_pending_at(self@, i as int));
                    lemma_first_pending(self@, i as int);
                }
                return Some(self.tasks[i].id.as_str());
            }
            i = i + 1;
        }
        None
    }

    /// Updates the status of a task.
    pub fn set_status(&mut self, id: &str, status: QueueStatus) -> (r: Result<(), QueueError>)
        ensures
            !has_id(old(self)@, id@) ==> final(self)@ == old(self)@ && refused_unknown(r, id@),
            has_id(old(self)@, id@) ==> {
                let i = position_of(old(self)@, id@);
                r is Ok && final(self)@ == old(self)@.update(
                    i,
                    TaskView { status, ..old(self)@[i] },
                )
            },
    {
        match self.position(id) {
            Some(i) => {
                task_at(&mut self.tasks, i).status = status;
                assert(self@ =~= old(self)@.update(
                    i as int,
                    TaskView { status, ..old(self)@[i as int] },
                ));
                Ok(())
            },
            None => Err(QueueError::UnknownId(id.to_owned())),
        }
    }

    /// Stores or clears the last error of a task.
    pub fn set_error(&mut self, id: &str, error: Option<String>) -> (r: Result<(), QueueError>)
        ensures
            !has_id(old(self)@, id@) ==> final(self)@ == old(self)@ && refused_unknown(r, id@),
            has_id(old(self)@, id@) ==> {
                let i = position_of(old(self)@, id@);
                r is Ok && final(self)@ == old(self)@.update(
                    i,
                    TaskView { error: opt_text(error), ..old(self)@[i] },
                )
            },
    {
        match self.position(id) {
            Some(i) => {
                task_at(&mut self.tasks, i).error = error;
                assert(self@ =~= old(self)@.update(
                    i as int,
                    TaskView { error: opt_text(error), ..old(self)@[i as int] },
                ));
                Ok(())
            },
            None => Err(QueueError::UnknownId(id.to_owned())),
        }
    }

    /// The first task with this identifier.
    pub fn task(&self, id: &str) -> (r: Option<&QueueTask>)
        ensures
            match r {
                Some(t) => has_id(self@, id@) && t@ == self@[position_of(self@, id@)] && t.id@
                    == id@,
                None => !has_id(self@, id@),
            },
    {
        match self.position(id) {
            Some(i) => Some(&self.tasks[i]),
            None => None,
        }
    }

    /// The first task with this identifier, for changing it in place.
    pub fn task_mut(&mut self, id: &str) -> (r: Option<&mut QueueTask>)
        ensures
            match r {
                Some(t) => {
                    let i = position_of(old(self)@, id@);
                    &&& has_id(old(self)@, id@)
                    &&& t@ == old(self)@[i]
                    &&& final(self)@ == old(self)@.update(i, final(t)@)
                },
                None => !has_id(old(self)@, id@) && final(self)@ == old(self)@,
            },
    {
        match self.position(id) {
            Some(i) => {
                let ghost before = self.tasks@;
                let t = task_at(&mut self.tasks, i);
                assert(task_views(before.update(i as int, *final(t))) =~= task_views(
                    before,
                ).update(i as int, final(t)@));
                Some(t)
            },
            None => None,
        }
    }
}

/// Moving a task keeps every task: the reordered queue is a permutation of the queue.
pub proof fn law_move_is_a_permutation(tasks: Seq<TaskView>, from: int, to: int)
    requires
        0 <= from < tasks.len(),
        0 <= to < tasks.len(),
    ensures
        moved(tasks, from, to).to_multiset() == tasks.to_multiset(),
        moved(tasks, from, to)[to] == tasks[from],
        moved(tasks, from, to).len() == tasks.len(),
{
    lemma_moved_permutes(tasks, from, to);
}

/// Taking an item out and putting it back elsewhere keeps the items.
pub proof fn lemma_moved_permutes<A>(s: Seq<A>, from: int, to: int)
    requires
        0 <= from < s.len(),
        0 <= to < s.len(),
    ensures
        moved(s, from, to).to_multiset() == s.to_multiset(),
{
    broadcast use vstd::seq_lib::group_to_multiset_ensures;

    let rest = s.remove(from);
    vstd::seq_lib::to_multiset_remove(s, from);
    vstd::seq_lib::to_multiset_insert(rest, to, s[from]);
    assert(rest.to_multiset().insert(s[from]) =~= s.to_multiset());
}

/// Every operation of the queue keeps identifiers unique.
pub proof fn law_identifiers_stay_unique(
    tasks: Seq<TaskView>,
    task: TaskView,
    id: Seq<char>,
    to: int,
    status: QueueStatus,
    error: Option<Seq<char>>,
)
    requires
        unique_ids(tasks),
    ensures
        !has_id(tasks, task.id) ==> unique_ids(tasks.push(task)),
        has_id(tasks, id) ==> {
            let i = position_of(tasks, id);
            &&& unique_ids(tasks.remove(i))
            &&& !has_id(tasks.remove(i), id)
            &&& 0 <= to < tasks.len() ==> unique_ids(moved(tasks, i, to))
            &&& unique_ids(tasks.update(i, TaskView { status, ..tasks[i] }))
            &&& unique_ids(tasks.update(i, TaskView { error, ..tasks[i] }))
        },
        unique_ids(Seq::<TaskView>::empty()),
{
    if !has_id(tasks, task.id) {
        assert forall|i: int| 0 <= i < tasks.len() implies (#[trigger] tasks[i]).id != task.id by {
            lemma_no_id(tasks, task.id, i);
        }
    }
    if has_id(tasks, id) {
        let i = position_of(tasks, id);
        assert(first_with_id(tasks, id, i));
        let rest = tasks.remove(i);
        assert forall|k: int| 0 <= k < rest.len() implies (#[trigger] rest[k]).id != id by {
            if k < i {
                assert(rest[k] == tasks[k]);
            } else {
                assert(rest[k] == tasks[k + 1]);
            }
        }
        if 0 <= to < tasks.len() {
            let m = moved(tasks, i, to);
            assert forall|a: int, b: int| 0 <= a < b < m.len() implies (#[trigger] m[a]).id != (
            #[trigger] m[b]).id by {
                let ra = if a < to {
                    a
                } else {
                    a - 1
                };
                let rb = if b < to {
                    b
                } else {
                    b - 1
                };
                assert(a != to ==> m[a] == rest[ra]);
                assert(b != to ==> m[b] == rest[rb]);
                assert(m[to] == tasks[i]);
            }
        }
    }
}

/// Where no task has an identifier, the task at any position has another one.
pub proof fn lemma_no_id(tasks: Seq<TaskView>, id: Seq<char>, i: int)
    requires
        !has_id(tasks, id),
        0 <= i < tasks.len(),
    ensures
        tasks[i].id != id,
    decreases i,
{
    if tasks[i].id == id {
        assert forall|j: int| 0 <= j < i implies (#[trigger] tasks[j]).id != id by {
            lemma_no_id(tasks, id, j);
        }
        assert(first_with_id(tasks, id, i));
    }
}

/// A task's identifier has a position in the queue.
pub proof fn lemma_has_position(tasks: Seq<TaskView>, id: Seq<char>, i: int)
    requires
        0 <= i < tasks.len(),
        tasks[i].id == id,
    ensures
        has_id(tasks, id),
        first_with_id(tasks, id, position_of(tasks, id)),
    decreases i,
{
    if forall|j: int| 0 <= j < i ==> (#[trigger] tasks[j]).id != id {
        assert(first_with_id(tasks, id, i));
    } else {
        let j = choose|j: int| 0 <= j < i && (#[trigger] tasks[j]).id == id;
        lemma_has_position(tasks, id, j);
    }
}

} // verus!
