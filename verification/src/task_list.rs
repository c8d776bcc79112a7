//! The ephemeral task list: an ordered list of tasks, each moving from
//! pending through in progress to completed.
use vstd::prelude::*;
use crate::error::MojenticError;
use crate::text::{decimal, decimal_string};
use vstd::string::StringExecFns;

verus! {

/// Where a task stands in its life cycle.
#[derive(Debug, Clone, Copy, PartialEq, Eq, Structural)]
pub enum TaskStatus {
    Pending,
    InProgress,
    Completed,
}

/// The order of the life cycle: pending, then in progress, then completed.
pub open spec fn status_rank(s: TaskStatus) -> nat {
    match s {
        TaskStatus::Pending => 0,
        TaskStatus::InProgress => 1,
        TaskStatus::Completed => 2,
    }
}

/// The wire name of a status.
pub open spec fn status_name(s: TaskStatus) -> Seq<char> {
    match s {
        TaskStatus::Pending => "pending"@,
        TaskStatus::InProgress => "in_progress"@,
        TaskStatus::Completed => "completed"@,
    }
}

impl TaskStatus {
    /// The wire name of the status: `pending`, `in_progress` or `completed`.
    pub fn as_str(&self) -> (r: &'static str)
        ensures
            r@ == status_name(*self),
    {
        match self {
            TaskStatus::Pending => "pending",
            TaskStatus::InProgress => "in_progress",
            TaskStatus::Completed => "completed",
        }
    }
}

/// One task: its identifier, what it is about, and where it stands.
#[derive(Debug, Clone)]
pub struct Task {
    pub id: usize,
    pub description: String,
    pub status: TaskStatus,
}

impl Task {
    /// A fresh pending task.
    pub fn new(id: usize, description: String) -> (t: Task)
        ensures
            t == (Task { id, description, status: TaskStatus::Pending }),
    {
        Task { id, description, status: TaskStatus::Pending }
    }

    /// An equal copy of the task.
    pub fn duplicate(&self) -> (t: Task)
        ensures
            t == *self,
    {
        Task { id: self.id, description: self.description.clone(), status: self.status }
    }
}

/// Some task in `tasks` has identifier `id`.
pub open spec fn has_id(tasks: Seq<Task>, id: usize) -> bool {
    exists|i: int| 0 <= i < tasks.len() && tasks[i].id == id
}

/// No two tasks share an identifier.
pub open spec fn ids_unique(tasks: Seq<Task>) -> bool {
    forall|i: int, j: int|
        0 <= i < tasks.len() && 0 <= j < tasks.len() && i != j ==> tasks[i].id != tasks[j].id
}

/// Every identifier is positive and below `next`.
pub open spec fn ids_below(tasks: Seq<Task>, next: nat) -> bool {
    forall|i: int| 0 <= i < tasks.len() ==> 1 <= tasks[i].id && tasks[i].id < next
}

/// Every task that is in both lists kept its identifier's description and
/// did not move back in its life cycle.
pub open spec fn history_respected(before: Seq<Task>, after: Seq<Task>) -> bool {
    forall|i: int, j: int|
        0 <= i < before.len() && 0 <= j < after.len() && before[i].id == after[j].id ==> {
            &&& after[j].description == before[i].description
            &&& status_rank(before[i].status) <= status_rank(after[j].status)
        }
}

/// The message for an identifier that names no task.
pub open spec fn missing_task_message(id: usize) -> Seq<char> {
    "No task with ID '"@ + decimal(id as nat) + "' exists"@
}

/// The message for starting a task that is not pending.
pub open spec fn not_pending_message(id: usize) -> Seq<char> {
    "Task '"@ + decimal(id as nat) + "' cannot be started because it is not in PENDING status"@
}

/// The message for completing a task that is not in progress.
pub open spec fn not_in_progress_message(id: usize) -> Seq<char> {
    "Task '"@ + decimal(id as nat)
        + "' cannot be completed because it is not in IN_PROGRESS status"@
}

/// `e` is a tool error whose message is `msg`.
pub open spec fn is_tool_error(e: MojenticError, msg: Seq<char>) -> bool {
    match e {
        MojenticError::ToolError(m) => m@ == msg,
        _ => false,
    }
}

/// An ordered list of tasks with identifiers handed out from a counter that
/// starts at one and never goes back.
#[derive(Debug, Clone)]
pub struct TaskList {
    tasks: Vec<Task>,
    next_id: usize,
}

impl TaskList {
    /// The tasks, in list order.
    pub closed spec fn tasks(&self) -> Seq<Task> {
        self.tasks@
    }

    /// The identifier the next new task receives.
    pub closed spec fn next_id(&self) -> nat {
        self.next_id as nat
    }

    /// Identifiers are unique, positive and below the counter.
    pub open spec fn wf(&self) -> bool {
        &&& self.next_id() >= 1
        &&& ids_unique(self.tasks())
        &&& ids_below(self.tasks(), self.next_id())
    }

    /// An empty list whose first task gets identifier 1.
    pub fn new() -> (l: TaskList)
        ensures
            l.wf(),
            l.tasks() == Seq::<Task>::empty(),
            l.next_id() == 1,
    {
        TaskList { tasks: Vec::new(), next_id: 1 }
    }

    /// Whether another identifier can be handed out.
    pub fn has_free_id(&self) -> (b: bool)
        ensures
            b == (self.next_id() < usize::MAX),
    {
        self.next_id < usize::MAX
    }

    /// Hands out the next identifier and advances the counter.
    fn claim_next_id(&mut self) -> (id: usize)
        requires
            old(self).next_id() < usize::MAX,
        ensures
            id == old(self).next_id(),
            final(self).next_id() == old(self).next_id() + 1,
            final(self).tasks() == old(self).tasks(),
    {
        let id = self.next_id;
        self.next_id = self.next_id + 1;
        id
    }

    /// Adds a pending task at the end of the list and returns it.
    pub fn append_task(&mut self, description: String) -> (t: Task)
        requires
            old(self).wf(),
            old(self).next_id() < usize::MAX,
        ensures
            final(self).wf(),
            t == (Task { id: old(self).next_id() as usize, description, status: TaskStatus::Pending }),
            final(self).tasks() == old(self).tasks().push(t),
            final(self).next_id() == old(self).next_id() + 1,
            history_respected(old(self).tasks(), final(self).tasks()),
    {
        let id = self.claim_next_id();
        let task = Task::new(id, description);
        self.tasks.push(task.duplicate());
        task
    }

    /// Adds a pending task at the front of the list and returns it.
    pub fn prepend_task(&mut self, description: String) -> (t: Task)
        requires
            old(self).wf(),
            old(self).next_id() < usize::MAX,
        ensures
            final(self).wf(),
            t == (Task { id: old(self).next_id() as usize, description, status: TaskStatus::Pending }),
            final(self).tasks() == old(self).tasks().insert(0, t),
            final(self).next_id() == old(self).next_id() + 1,
            history_respected(old(self).tasks(), final(self).tasks()),
    {
        let id = self.claim_next_id();
        let task = Task::new(id, description);
        self.tasks.insert(0, task.duplicate());
        task
    }

    /// The position of the task with identifier `id`, if any.
    fn position_of(&self, id: usize) -> (p: Option<usize>)
        ensures
            match p {
                Some(i) => i < self.tasks().len() && self.tasks()[i as int].id == id,
                None => !has_id(self.tasks(), id),
            },
    {
        let mut i: usize = 0;
        while i < self.tasks.len()
            invariant
                i <= self.tasks@.len(),
                forall|k: int| 0 <= k < i ==> self.tasks@[k].id != id,
            decreases self.tasks@.len() - i,
        {
            if self.tasks[i].id == id {
                return Some(i);
            }
            i = i + 1;
        }
        None
    }

    /// Inserts a pending task right after the task `existing_task_id`.
    /// Fails, changing nothing, when no task has that identifier.
    pub fn insert_task_after(&mut self, existing_task_id: usize, description: String) -> (r:
        Result<Task, MojenticError>)
        requires
            old(self).wf(),
            old(self).next_id() < usize::MAX,
        ensures
            final(self).wf(),
            history_respected(old(self).tasks(), final(self).tasks()),
            has_id(old(self).tasks(), existing_task_id) <==> r is Ok,
            match r {
                Ok(t) => {
                    &&& t == (Task {
                        id: old(self).next_id() as usize,
                        description,
                        status: TaskStatus::Pending,
                    })
                    &&& exists|i: int|
                        0 <= i < old(self).tasks().len() && old(self).tasks()[i].id
                            == existing_task_id && final(self).tasks() == old(self).tasks().insert(
                            i + 1,
                            t,
                        )
                    &&& final(self).next_id() == old(self).next_id() + 1
                },
                Err(e) => {
                    &&& is_tool_error(e, missing_task_message(existing_task_id))
                    &&& final(self).tasks() == old(self).tasks()
                    &&& final(self).next_id() == old(self).next_id()
                },
            },
    {
        match self.position_of(existing_task_id) {
            None => Err(MojenticError::ToolError(missing_task_msg(existing_task_id))),
            Some(pos) => {
                let ghost before = self.tasks@;
                let id = self.claim_next_id();
                let task = Task::new(id, description);
                let len = self.tasks.len();
                assert(pos < len);
                self.tasks.insert(pos + 1, task.duplicate());
                assert(before[pos as int].id == existing_task_id);
                Ok(task)
            },
        }
    }

    /// Moves a pending task to in progress and returns it.
    /// Fails, changing nothing, when no task has the identifier or the task
    /// is not pending.
    pub fn start_task(&mut self, task_id: usize) -> (r: Result<Task, MojenticError>)
        requires
            old(self).wf(),
        ensures
            final(self).wf(),
            final(self).next_id() == old(self).next_id(),
            history_respected(old(self).tasks(), final(self).tasks()),
            match r {
                Ok(t) => exists|i: int|
                    0 <= i < old(self).tasks().len() && old(self).tasks()[i].id == task_id
                        && old(self).tasks()[i].status == TaskStatus::Pending
                        && t == (Task { status: TaskStatus::InProgress, ..old(self).tasks()[i] })
                        && final(self).tasks() == old(self).tasks().update(i, t),
                Err(e) => {
                    &&& final(self).tasks() == old(self).tasks()
                    &&& if has_id(old(self).tasks(), task_id) {
                        &&& is_tool_error(e, not_pending_message(task_id))
                        &&& forall|i: int|
                            0 <= i < old(self).tasks().len() && old(self).tasks()[i].id == task_id
                                ==> old(self).tasks()[i].status != TaskStatus::Pending
                    } else {
                        is_tool_error(e, missing_task_message(task_id))
                    }
                },
            },
    {
        match self.position_of(task_id) {
            None => Err(MojenticError::ToolError(missing_task_msg(task_id))),
            Some(pos) => {
                if self.tasks[pos].status != TaskStatus::Pending {
                    return Err(MojenticError::ToolError(not_pending_msg(task_id)));
                }
                let mut task = self.tasks[pos].duplicate();
                task.status = TaskStatus::InProgress;
                self.tasks.set(pos, task.duplicate());
                Ok(task)
            },
        }
    }

    /// Moves an in-progress task to completed and returns it.
    /// Fails, changing nothing, when no task has the identifier or the task
    /// is not in progress.
    pub fn complete_task(&mut self, task_id: usize) -> (r: Result<Task, MojenticError>)
        requires
            old(self).wf(),
        ensures
            final(self).wf(),
            final(self).next_id() == old(self).next_id(),
            history_respected(old(self).tasks(), final(self).tasks()),
            match r {
                Ok(t) => exists|i: int|
                    0 <= i < old(self).tasks().len() && old(self).tasks()[i].id == task_id
                        && old(self).tasks()[i].status == TaskStatus::InProgress
                        && t == (Task { status: TaskStatus::Completed, ..old(self).tasks()[i] })
                        && final(self).tasks() == old(self).tasks().update(i, t),
                Err(e) => {
                    &&& final(self).tasks() == old(self).tasks()
                    &&& if has_id(old(self).tasks(), task_id) {
                        &&& is_tool_error(e, not_in_progress_message(task_id))
                        &&& forall|i: int|
                            0 <= i < old(self).tasks().len() && old(self).tasks()[i].id == task_id
                                ==> old(self).tasks()[i].status != TaskStatus::InProgress
                    } else {
                        is_tool_error(e, missing_task_message(task_id))
                    }
                },
            },
    {
        match self.position_of(task_id) {
            None => Err(MojenticError::ToolError(missing_task_msg(task_id))),
            Some(pos) => {
                if self.tasks[pos].status != TaskStatus::InProgress {
                    return Err(MojenticError::ToolError(not_in_progress_msg(task_id)));
                }
                let mut task = self.tasks[pos].duplicate();
                task.status = TaskStatus::Completed;
                self.tasks.set(pos, task.duplicate());
                Ok(task)
            },
        }
    }

    /// All tasks, in list order.
    pub fn list_tasks(&self) -> (v: Vec<Task>)
        ensures
            v@ == self.tasks(),
    {
        let mut v: Vec<Task> = Vec::new();
        let mut i: usize = 0;
        while i < self.tasks.len()
            invariant
                i <= self.tasks@.len(),
                v@ == self.tasks@.take(i as int),
            decreases self.tasks@.len() - i,
        {
            v.push(self.tasks[i].duplicate());
            assert(self.tasks@.take(i + 1) == self.tasks@.take(i as int).push(self.tasks@[i as int]));
            i = i + 1;
        }
        assert(self.tasks@.take(self.tasks@.len() as int) == self.tasks@);
        v
    }

    /// Removes every task and returns how many there were. The identifier
    /// counter keeps its value, so later tasks never reuse an identifier.
    pub fn clear_tasks(&mut self) -> (n: usize)
        requires
            old(self).wf(),
        ensures
            final(self).wf(),
            n == old(self).tasks().len(),
            final(self).tasks() == Seq::<Task>::empty(),
            final(self).next_id() == old(self).next_id(),
    {
        let n = self.tasks.len();
        self.tasks.clear();
        n
    }
}

/// Builds `"No task with ID '<id>' exists"`.
pub fn missing_task_msg(id: usize) -> (s: String)
    ensures
        s@ == missing_task_message(id),
{
    let mut s = String::from_str("No task with ID '");
    let d = decimal_string(id as u64);
    s.append(d.as_str());
    s.append("' exists");
    s
}

fn not_pending_msg(id: usize) -> (s: String)
    ensures
        s@ == not_pending_message(id),
{
    let mut s = String::from_str("Task '");
    let d = decimal_string(id as u64);
    s.append(d.as_str());
    s.append("' cannot be started because it is not in PENDING status");
    s
}

fn not_in_progress_msg(id: usize) -> (s: String)
    ensures
        s@ == not_in_progress_message(id),
{
    let mut s = String::from_str("Task '");
    let d = decimal_string(id as u64);
    s.append(d.as_str());
    s.append("' cannot be completed because it is not in IN_PROGRESS status");
    s
}


impl Default for TaskList {
    /// An empty list whose first task gets identifier 1.
    fn default() -> (l: TaskList)
        ensures
            l.wf(),
            l.tasks() == Seq::<Task>::empty(),
            l.next_id() == 1,
    {
        TaskList::new()
    }
}

/// The identifier the next task receives belongs to no task of the list,
/// cleared or not: identifiers are never reused.
pub proof fn lemma_next_id_is_fresh(l: TaskList)
    requires
        l.wf(),
    ensures
        !has_id(l.tasks(), l.next_id() as usize),
{
}
} // verus!
