//! Automation tasks and the registry that holds them.
//!
//! A task is the record of one run of a batch on one device: what it works
//! through, how far it has come, and where it stands. The registry holds the
//! tasks of a process by their identifiers. It is a plain value: whoever
//! shares it between threads puts it behind a lock and holds the lock for the
//! length of one call.
//!
//! The tasks stand in a list in which no identifier occurs twice, and a
//! lookup walks the list. A hash map keyed by the identifier would rest on an
//! assumption about how texts are hashed and compared; the list rests on
//! none, and a process holds few tasks.

use crate::text::str_eq;
use crate::workflow::{Outcome, OutcomeView};
use vstd::prelude::*;

verus! {

/// Where a task stands.
#[derive(Clone, Copy, Debug, PartialEq, Eq, Structural)]
pub enum TaskStatus {
    Created,
    Running,
    Paused,
    Stopped,
    Completed,
    Failed,
}

/// The word for a status.
pub open spec fn status_name(status: TaskStatus) -> Seq<char> {
    match status {
        TaskStatus::Created => "created"@,
        TaskStatus::Running => "running"@,
        TaskStatus::Paused => "paused"@,
        TaskStatus::Stopped => "stopped"@,
        TaskStatus::Completed => "completed"@,
        TaskStatus::Failed => "failed"@,
    }
}

/// Whether a task in this status has come to its end.
pub open spec fn is_final(status: TaskStatus) -> bool {
    status == TaskStatus::Stopped || status == TaskStatus::Completed || status
        == TaskStatus::Failed
}

impl TaskStatus {
    /// The word for the status.
    pub fn as_str(&self) -> (name: &'static str)
        ensures
            name@ == status_name(*self),
    {
        match self {
            TaskStatus::Created => "created",
            TaskStatus::Running => "running",
            TaskStatus::Paused => "paused",
            TaskStatus::Stopped => "stopped",
            TaskStatus::Completed => "completed",
            TaskStatus::Failed => "failed",
        }
    }

    /// Whether a task in this status has come to its end.
    pub fn is_terminal(&self) -> (r: bool)
        ensures
            r == is_final(*self),
    {
        match self {
            TaskStatus::Stopped | TaskStatus::Completed | TaskStatus::Failed => true,
            _ => false,
        }
    }
}

/// One run of a batch on one device.
#[derive(Debug)]
pub struct AutomationTask {
    /// The identifier under which the registry holds the task.
    pub id: String,
    /// The device that the task works on.
    pub device_id: String,
    /// What the task works through, in order: the names of its items.
    pub items: Vec<String>,
    /// Where the task stands.
    pub status: TaskStatus,
    /// How the items worked on so far have ended, in order.
    pub results: Vec<Outcome>,
}

/// A task, as mathematical values.
pub ghost struct TaskView {
    pub id: Seq<char>,
    pub device_id: Seq<char>,
    pub items: Seq<Seq<char>>,
    pub status: TaskStatus,
    pub results: Seq<OutcomeView>,
}

impl View for AutomationTask {
    type V = TaskView;

    open spec fn view(&self) -> TaskView {
        TaskView {
            id: self.id@,
            device_id: self.device_id@,
            items: self.items@.map_values(|s: String| s@),
            status: self.status,
            results: self.results@.map_values(|o: Outcome| o@),
        }
    }
}

/// The status that starting leads to: a task starts when it has been created,
/// and again after a pause.
pub open spec fn started(from: TaskStatus) -> Option<TaskStatus> {
    if from == TaskStatus::Created || from == TaskStatus::Paused {
        Some(TaskStatus::Running)
    } else {
        None
    }
}

/// The status that pausing leads to: only a running task pauses.
pub open spec fn paused(from: TaskStatus) -> Option<TaskStatus> {
    if from == TaskStatus::Running {
        Some(TaskStatus::Paused)
    } else {
        None
    }
}

/// The status that stopping leads to: a task stops unless it has come to its
/// end.
pub open spec fn stopped(from: TaskStatus) -> Option<TaskStatus> {
    if is_final(from) {
        None
    } else {
        Some(TaskStatus::Stopped)
    }
}

/// What a task can be asked to do from outside its run.
#[derive(Clone, Copy, Debug, PartialEq, Eq, Structural)]
pub enum Request {
    Start,
    Pause,
    Stop,
}

/// The status that a request leads to, or none where the request does not
/// apply to a task in the status `from`.
pub open spec fn requested(from: TaskStatus, request: Request) -> Option<TaskStatus> {
    match request {
        Request::Start => started(from),
        Request::Pause => paused(from),
        Request::Stop => stopped(from),
    }
}

/// A task that has come to its end stays as it is, whatever it is asked.
pub proof fn lemma_final_status_stays(from: TaskStatus, request: Request, completed: bool)
    requires
        is_final(from),
    ensures
        requested(from, request) is None,
        ended(from, completed) is None,
{
}

/// The status that the end of the run leads to.
pub open spec fn ended(from: TaskStatus, completed: bool) -> Option<TaskStatus> {
    if from == TaskStatus::Running {
        Some(
            if completed {
                TaskStatus::Completed
            } else {
                TaskStatus::Failed
            },
        )
    } else {
        None
    }
}

impl AutomationTask {
    /// A task that has not started.
    pub fn new(id: String, device_id: String, items: Vec<String>) -> (task: Self)
        ensures
            task@ == (TaskView {
                id: id@,
                device_id: device_id@,
                items: items@.map_values(|s: String| s@),
                status: TaskStatus::Created,
                results: Seq::empty(),
            }),
    {
        let task = AutomationTask {
            id,
            device_id,
            items,
            status: TaskStatus::Created,
            results: Vec::new(),
        };
        assert(task@.results =~= Seq::empty());
        task
    }

    /// Moves the task to `to`, if there is such a status.
    fn move_to(&mut self, to: Option<TaskStatus>) -> (moved: bool)
        ensures
            moved == to is Some,
            final(self)@ == (TaskView {
                status: match to {
                    Some(s) => s,
                    None => old(self)@.status,
                },
                ..old(self)@
            }),
    {
        match to {
            Some(s) => {
                self.status = s;
                true
            },
            None => false,
        }
    }

    /// Starts the task, or takes it up again after a pause. A task in any
    /// other status stays as it is.
    pub fn start(&mut self) -> (moved: bool)
        ensures
            moved == started(old(self)@.status) is Some,
            final(self)@ == (TaskView {
                status: match started(old(self)@.status) {
                    Some(s) => s,
                    None => old(self)@.status,
                },
                ..old(self)@
            }),
    {
        let to = match self.status {
            TaskStatus::Created | TaskStatus::Paused => Some(TaskStatus::Running),
            _ => None,
        };
        self.move_to(to)
    }

    /// Pauses the task if it is running.
    pub fn pause(&mut self) -> (moved: bool)
        ensures
            moved == paused(old(self)@.status) is Some,
            final(self)@ == (TaskView {
                status: match paused(old(self)@.status) {
                    Some(s) => s,
                    None => old(self)@.status,
                },
                ..old(self)@
            }),
    {
        let to = match self.status {
            TaskStatus::Running => Some(TaskStatus::Paused),
            _ => None,
        };
        self.move_to(to)
    }

    /// Stops the task unless it has come to its end already.
    pub fn stop(&mut self) -> (moved: bool)
        ensures
            moved == stopped(old(self)@.status) is Some,
            final(self)@ == (TaskView {
                status: match stopped(old(self)@.status) {
                    Some(s) => s,
                    None => old(self)@.status,
                },
                ..old(self)@
            }),
    {
        let to = if self.status.is_terminal() {
            None
        } else {
            Some(TaskStatus::Stopped)
        };
        self.move_to(to)
    }

    /// Ends the run of a task that is running: as completed, or as failed.
    pub fn finish(&mut self, completed: bool) -> (moved: bool)
        ensures
            moved == ended(old(self)@.status, completed) is Some,
            final(self)@ == (TaskView {
                status: match ended(old(self)@.status, completed) {
                    Some(s) => s,
                    None => old(self)@.status,
                },
                ..old(self)@
            }),
    {
        let to = match self.status {
            TaskStatus::Running => Some(
                if completed {
                    TaskStatus::Completed
                } else {
                    TaskStatus::Failed
                },
            ),
            _ => None,
        };
        self.move_to(to)
    }

    /// Whether the run goes on with its next item: the task is running and
    /// has items left. This is what the run asks between two items.
    pub fn goes_on(&self) -> (r: bool)
        ensures
            r == (self@.status == TaskStatus::Running && self@.results.len() < self@.items.len()),
    {
        match self.status {
            TaskStatus::Running => self.results.len() < self.items.len(),
            _ => false,
        }
    }

    /// Notes how the item that the run was working on has ended. A task that
    /// is not running, or that has no item left, stays as it is.
    pub fn record(&mut self, outcome: Outcome) -> (noted: bool)
        ensures
            noted == (old(self)@.status == TaskStatus::Running && old(self)@.results.len() < old(
                self,
            )@.items.len()),
            final(self)@ == if noted {
                TaskView { results: old(self)@.results.push(outcome@), ..old(self)@ }
            } else {
                old(self)@
            },
    {
        if self.goes_on() {
            self.results.push(outcome);
            assert(self@.results =~= old(self)@.results.push(outcome@));
            true
        } else {
            false
        }
    }
}

/// The first of the tasks with the identifier `id`.
pub open spec fn lookup(tasks: Seq<AutomationTask>, id: Seq<char>) -> Option<AutomationTask>
    decreases tasks.len(),
{
    if tasks.len() == 0 {
        None
    } else if tasks[0]@.id == id {
        Some(tasks[0])
    } else {
        lookup(tasks.drop_first(), id)
    }
}

/// Whether no two of the tasks have the same identifier.
pub open spec fn distinct(tasks: Seq<AutomationTask>) -> bool {
    forall|i: int, j: int|
        0 <= i < j < tasks.len() ==> (#[trigger] tasks[i])@.id != (#[trigger] tasks[j])@.id
}

/// The place of the task with the identifier `id` among tasks with distinct
/// identifiers is where `lookup` finds it, and nothing is found for an
/// identifier that no task has.
pub proof fn lemma_lookup(tasks: Seq<AutomationTask>, id: Seq<char>)
    ensures
        match lookup(tasks, id) {
            Some(t) => t@.id == id && exists|i: int| 0 <= i < tasks.len() && tasks[i] == t,
            None => forall|i: int| 0 <= i < tasks.len() ==> (#[trigger] tasks[i])@.id != id,
        },
    decreases tasks.len(),
{
    if tasks.len() > 0 {
        if tasks[0]@.id == id {
            assert(tasks[0] == lookup(tasks, id)->0);
        } else {
            let rest = tasks.drop_first();
            lemma_lookup(rest, id);
            match lookup(rest, id) {
                Some(t) => {
                    let i = choose|i: int| 0 <= i < rest.len() && rest[i] == t;
                    assert(tasks[i + 1] == t);
                },
                None => {
                    assert forall|i: int| 0 <= i < tasks.len() implies (#[trigger] tasks[i])@.id
                        != id by {
                        if i > 0 {
                            assert(rest[i - 1] == tasks[i]);
                        }
                    }
                },
            }
        }
    }
}

/// Among tasks with distinct identifiers, the task at a place is the one
/// that is found by its identifier.
pub proof fn lemma_lookup_at(tasks: Seq<AutomationTask>, i: int)
    requires
        distinct(tasks),
        0 <= i < tasks.len(),
    ensures
        lookup(tasks, tasks[i]@.id) == Some(tasks[i]),
    decreases tasks.len(),
{
    if i > 0 {
        let rest = tasks.drop_first();
        assert forall|a: int, b: int| 0 <= a < b < rest.len() implies (#[trigger] rest[a])@.id != (
        #[trigger] rest[b])@.id by {
            assert(rest[a] == tasks[a + 1]);
            assert(rest[b] == tasks[b + 1]);
        }
        assert(rest[i - 1] == tasks[i]);
        lemma_lookup_at(rest, i - 1);
        assert(tasks[0]@.id != tasks[i]@.id);
    }
}

/// The tasks of a process, by their identifiers.
pub struct TaskRegistry {
    tasks: Vec<AutomationTask>,
}

impl TaskRegistry {
    #[verifier::type_invariant]
    spec fn inv(self) -> bool {
        distinct(self.tasks@)
    }

    /// The task that the registry holds under `id`, if any.
    pub closed spec fn find(&self, id: Seq<char>) -> Option<AutomationTask> {
        lookup(self.tasks@, id)
    }

    /// How many tasks the registry holds.
    pub closed spec fn count(&self) -> nat {
        self.tasks@.len()
    }

    /// A registry without tasks.
    pub fn new() -> (registry: Self)
        ensures
            registry.count() == 0,
            forall|id: Seq<char>| registry.find(id) is None,
    {
        TaskRegistry { tasks: Vec::new() }
    }

    /// How many tasks the registry holds.
    pub fn len(&self) -> (n: usize)
        ensures
            n == self.count(),
    {
        self.tasks.len()
    }

    /// The place of the task with the identifier `id`.
    fn position(&self, id: &str) -> (r: Option<usize>)
        ensures
            match r {
                Some(i) => i < self.tasks.len() && self.tasks@[i as int]@.id == id@ && lookup(
                    self.tasks@,
                    id@,
                ) == Some(self.tasks@[i as int]),
                None => lookup(self.tasks@, id@) is None && forall|i: int|
                    0 <= i < self.tasks.len() ==> (#[trigger] self.tasks@[i])@.id != id@,
            },
    {
        proof {
            use_type_invariant(self);
        }
        let mut i: usize = 0;
        while i < self.tasks.len()
            invariant
                i <= self.tasks.len(),
                distinct(self.tasks@),
                forall|k: int| 0 <= k < i ==> (#[trigger] self.tasks@[k])@.id != id@,
            decreases self.tasks.len() - i,
        {
            if str_eq(self.tasks[i].id.as_str(), id) {
                proof {
                    lemma_lookup_at(self.tasks@, i as int);
                }
                return Some(i);
            }
            i += 1;
        }
        proof {
            lemma_lookup(self.tasks@, id@);
        }
        None
    }

    /// The task that the registry holds under `id`.
    pub fn get(&self, id: &str) -> (r: Option<&AutomationTask>)
        ensures
            match r {
                Some(t) => self.find(id@) == Some(*t),
                None => self.find(id@) is None,
            },
    {
        match self.position(id) {
            Some(i) => Some(&self.tasks[i]),
            None => None,
        }
    }

    /// Puts a task into the registry, under its own identifier, in place of
    /// the task that the registry held under that identifier, which is handed
    /// back. Every other task stays where it is.
    pub fn insert(&mut self, task: AutomationTask) -> (previous: Option<AutomationTask>)
        ensures
            previous == old(self).find(task@.id),
            final(self).find(task@.id) == Some(task),
            forall|id: Seq<char>| id != task@.id ==> final(self).find(id) == old(self).find(id),
            final(self).count() == old(self).count() + if previous is Some {
                0nat
            } else {
                1nat
            },
    {
        proof {
            use_type_invariant(&*self);
        }
        let ghost before = self.tasks@;
        let found = self.position(task.id.as_str());
        let mut tasks: Vec<AutomationTask> = Vec::new();
        core::mem::swap(&mut tasks, &mut self.tasks);
        let previous = match found {
            Some(i) => {
                tasks.push(task);
                let old_task = tasks.swap_remove(i);
                proof {
                    let after = tasks@;
                    assert(after =~= before.update(i as int, task));
                    lemma_update_keeps_others(before, i as int, task);
                }
                Some(old_task)
            },
            None => {
                tasks.push(task);
                proof {
                    lemma_push_keeps_others(before, task);
                }
                None
            },
        };
        *self = TaskRegistry { tasks };
        previous
    }

    /// Takes the task with the identifier `id` out of the registry and hands
    /// it back. Every other task stays where it is.
    pub fn remove(&mut self, id: &str) -> (removed: Option<AutomationTask>)
        ensures
            removed == old(self).find(id@),
            final(self).find(id@) is None,
            forall|other: Seq<char>|
                other != id@ ==> final(self).find(other) == old(self).find(other),
            final(self).count() == old(self).count() - if removed is Some {
                1nat
            } else {
                0nat
            },
    {
        proof {
            use_type_invariant(&*self);
        }
        let ghost before = self.tasks@;
        match self.position(id) {
            Some(i) => {
                let mut tasks: Vec<AutomationTask> = Vec::new();
                core::mem::swap(&mut tasks, &mut self.tasks);
                let task = tasks.remove(i);
                proof {
                    lemma_remove_keeps_others(before, i as int);
                }
                *self = TaskRegistry { tasks };
                Some(task)
            },
            None => None,
        }
    }

    /// Whether `after` and `r` are what comes of asking the task with the
    /// identifier `task_id` in `self` to move on as `request` says: the task
    /// has the status that the request leads to, or the one it had where the
    /// request does not apply, and `r` tells whether it has moved; where
    /// there is no such task, `r` says so. Every other task is as it was.
    pub open spec fn answered(
        &self,
        after: &TaskRegistry,
        task_id: Seq<char>,
        request: Request,
        r: Result<bool, String>,
    ) -> bool {
        &&& match r {
            Ok(moved) => self.find(task_id) matches Some(was) && after.find(task_id) matches Some(
                is,
            ) && moved == requested(was@.status, request) is Some && is@ == (TaskView {
                status: match requested(was@.status, request) {
                    Some(s) => s,
                    None => was@.status,
                },
                ..was@
            }),
            Err(message) => message@ == "Task not found"@ && self.find(task_id) is None
                && after.find(task_id) is None,
        }
        &&& forall|id: Seq<char>| id != task_id ==> after.find(id) == self.find(id)
        &&& after.count() == self.count()
    }

    /// Asks the task with the identifier `task_id` to move on: to start, to
    /// pause or to stop, as `request` says.
    pub fn request(&mut self, task_id: &str, request: Request) -> (r: Result<bool, String>)
        ensures
            old(self).answered(final(self), task_id@, request, r),
    {
        match self.remove(task_id) {
            Some(task) => {
                let mut task = task;
                proof {
                    lemma_lookup(old(self).tasks@, task_id@);
                }
                let moved = match request {
                    Request::Start => task.start(),
                    Request::Pause => task.pause(),
                    Request::Stop => task.stop(),
                };
                self.insert(task);
                Ok(moved)
            },
            None => Err("Task not found".to_owned()),
        }
    }

    /// Starts the task with the identifier `task_id`.
    pub fn start_task(&mut self, task_id: &str) -> (r: Result<bool, String>)
        ensures
            old(self).answered(final(self), task_id@, Request::Start, r),
    {
        self.request(task_id, Request::Start)
    }

    /// Pauses the task with the identifier `task_id`.
    pub fn pause_task(&mut self, task_id: &str) -> (r: Result<bool, String>)
        ensures
            old(self).answered(final(self), task_id@, Request::Pause, r),
    {
        self.request(task_id, Request::Pause)
    }

    /// Stops the task with the identifier `task_id`.
    pub fn stop_task(&mut self, task_id: &str) -> (r: Result<bool, String>)
        ensures
            old(self).answered(final(self), task_id@, Request::Stop, r),
    {
        self.request(task_id, Request::Stop)
    }

    /// Replaces the task that the registry holds under the identifier of
    /// `task` by `task`. Where the registry holds no such task, nothing is
    /// changed and `task` is handed back.
    pub fn update(&mut self, task: AutomationTask) -> (r: Result<(), AutomationTask>)
        ensures
            match r {
                Ok(_) => old(self).find(task@.id) is Some && final(self).find(task@.id) == Some(
                    task,
                ),
                Err(back) => back == task && old(self).find(task@.id) is None && final(self).find(
                    task@.id,
                ) is None,
            },
            forall|id: Seq<char>| id != task@.id ==> final(self).find(id) == old(self).find(id),
            final(self).count() == old(self).count(),
    {
        match self.position(task.id.as_str()) {
            Some(_) => {
                self.insert(task);
                Ok(())
            },
            None => Err(task),
        }
    }
}

/// A task put in the place of another with the same identifier is found by
/// that identifier, and every other task is found as before.
proof fn lemma_update_keeps_others(tasks: Seq<AutomationTask>, i: int, task: AutomationTask)
    requires
        distinct(tasks),
        0 <= i < tasks.len(),
        tasks[i]@.id == task@.id,
    ensures
        distinct(tasks.update(i, task)),
        lookup(tasks.update(i, task), task@.id) == Some(task),
        forall|id: Seq<char>|
            id != task@.id ==> lookup(tasks.update(i, task), id) == lookup(tasks, id),
{
    let after = tasks.update(i, task);
    assert forall|a: int, b: int| 0 <= a < b < after.len() implies (#[trigger] after[a])@.id != (
    #[trigger] after[b])@.id by {
        assert(tasks[a]@.id != tasks[b]@.id);
    }
    lemma_lookup_at(after, i);
    assert forall|id: Seq<char>| id != task@.id implies lookup(after, id) == lookup(tasks, id) by {
        lemma_same_lookup(tasks, after, id);
    }
}

/// Two rows of tasks that hold the same task wherever a task has the
/// identifier `id` give the same for `id`.
proof fn lemma_same_lookup(a: Seq<AutomationTask>, b: Seq<AutomationTask>, id: Seq<char>)
    requires
        a.len() == b.len(),
        forall|i: int|
            0 <= i < a.len() ==> (#[trigger] a[i] == b[i] || (a[i]@.id != id && b[i]@.id != id)),
    ensures
        lookup(a, id) == lookup(b, id),
    decreases a.len(),
{
    if a.len() > 0 {
        assert(a[0] == b[0] || (a[0]@.id != id && b[0]@.id != id));
        if a[0]@.id != id {
            let x = a.drop_first();
            let y = b.drop_first();
            assert forall|i: int| 0 <= i < x.len() implies (#[trigger] x[i] == y[i] || (x[i]@.id
                != id && y[i]@.id != id)) by {
                assert(a[i + 1] == b[i + 1] || (a[i + 1]@.id != id && b[i + 1]@.id != id));
            }
            lemma_same_lookup(x, y, id);
        }
    }
}

/// A task with a new identifier, put at the end, is found by that
/// identifier, and every other task is found as before.
proof fn lemma_push_keeps_others(tasks: Seq<AutomationTask>, task: AutomationTask)
    requires
        distinct(tasks),
        forall|i: int| 0 <= i < tasks.len() ==> (#[trigger] tasks[i])@.id != task@.id,
    ensures
        distinct(tasks.push(task)),
        lookup(tasks.push(task), task@.id) == Some(task),
        forall|id: Seq<char>| id != task@.id ==> lookup(tasks.push(task), id) == lookup(tasks, id),
{
    let after = tasks.push(task);
    assert forall|a: int, b: int| 0 <= a < b < after.len() implies (#[trigger] after[a])@.id != (
    #[trigger] after[b])@.id by {
        if b < tasks.len() {
            assert(tasks[a]@.id != tasks[b]@.id);
        } else {
            assert(tasks[a]@.id != task@.id);
        }
    }
    lemma_lookup_at(after, tasks.len() as int);
    assert forall|id: Seq<char>| id != task@.id implies lookup(after, id) == lookup(tasks, id) by {
        lemma_lookup_push(tasks, task, id);
    }
}

/// A task at the end does not change what is found for another identifier.
proof fn lemma_lookup_push(tasks: Seq<AutomationTask>, task: AutomationTask, id: Seq<char>)
    requires
        id != task@.id,
    ensures
        lookup(tasks.push(task), id) == lookup(tasks, id),
    decreases tasks.len(),
{
    let after = tasks.push(task);
    if tasks.len() == 0 {
        assert(after.drop_first() =~= Seq::<AutomationTask>::empty());
    } else {
        assert(after[0] == tasks[0]);
        assert(after.drop_first() =~= tasks.drop_first().push(task));
        if tasks[0]@.id != id {
            lemma_lookup_push(tasks.drop_first(), task, id);
        }
    }
}

/// Without the task at a place, nothing is found for its identifier, and
/// every other task is found as before.
proof fn lemma_remove_keeps_others(tasks: Seq<AutomationTask>, i: int)
    requires
        distinct(tasks),
        0 <= i < tasks.len(),
    ensures
        distinct(tasks.remove(i)),
        lookup(tasks.remove(i), tasks[i]@.id) is None,
        forall|id: Seq<char>|
            id != tasks[i]@.id ==> lookup(tasks.remove(i), id) == lookup(tasks, id),
{
    let after = tasks.remove(i);
    assert forall|a: int, b: int| 0 <= a < b < after.len() implies (#[trigger] after[a])@.id != (
    #[trigger] after[b])@.id by {
        let x = if a < i {
            a
        } else {
            a + 1
        };
        let y = if b < i {
            b
        } else {
            b + 1
        };
        assert(tasks[x]@.id != tasks[y]@.id);
    }
    lemma_lookup(after, tasks[i]@.id);
    match lookup(after, tasks[i]@.id) {
        Some(t) => {
            let k = choose|k: int| 0 <= k < after.len() && after[k] == t;
            let x = if k < i {
                k
            } else {
                k + 1
            };
            assert(tasks[x] == t);
            assert(tasks[x]@.id != tasks[i]@.id || tasks[i]@.id != tasks[x]@.id);
        },
        None => {},
    }
    assert forall|id: Seq<char>| id != tasks[i]@.id implies lookup(after, id) == lookup(
        tasks,
        id,
    ) by {
        lemma_lookup_remove(tasks, i, id);
    }
}

/// Taking out a task does not change what is found for another identifier.
proof fn lemma_lookup_remove(tasks: Seq<AutomationTask>, i: int, id: Seq<char>)
    requires
        0 <= i < tasks.len(),
        id != tasks[i]@.id,
    ensures
        lookup(tasks.remove(i), id) == lookup(tasks, id),
    decreases tasks.len(),
{
    let after = tasks.remove(i);
    if i == 0 {
        assert(after =~= tasks.drop_first());
    } else {
        assert(after[0] == tasks[0]);
        assert(after.drop_first() =~= tasks.drop_first().remove(i - 1));
        if tasks[0]@.id != id {
            assert(tasks.drop_first()[i - 1] == tasks[i]);
            lemma_lookup_remove(tasks.drop_first(), i - 1, id);
        }
    }
}

} // verus!
