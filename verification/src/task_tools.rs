//! The task-manager tools: each turns a tool call into one task-list
//! operation and a report for the model.
use vstd::prelude::*;
use crate::error::MojenticError;
use crate::task_list::{
    has_id, is_tool_error, missing_task_message, not_in_progress_message, not_pending_message,
    status_name, Task, TaskList, TaskStatus,
};
use crate::text::{decimal, decimal_string};
use vstd::string::StringExecFns;

verus! {

/// A new pending task.
pub open spec fn pending_task(id: usize, description: String) -> Task {
    Task { id, description, status: TaskStatus::Pending }
}

/// What a tool reports about the task it created or changed.
#[derive(Debug)]
pub struct TaskReport {
    pub id: usize,
    pub description: String,
    pub status: String,
    pub summary: String,
}

/// What the listing tool reports.
#[derive(Debug)]
pub struct TaskListReport {
    pub count: usize,
    pub tasks: String,
    pub summary: String,
}

/// What the clearing tool reports.
#[derive(Debug)]
pub struct ClearReport {
    pub count: usize,
    pub summary: String,
}

/// `"Task '<id>' <verb> successfully"`.
pub open spec fn task_summary(id: usize, verb: Seq<char>) -> Seq<char> {
    "Task '"@ + decimal(id as nat) + "' "@ + verb + " successfully"@
}

/// The report for task `t` with the given summary.
pub open spec fn report_of(r: TaskReport, t: Task, summary: Seq<char>) -> bool {
    &&& r.id == t.id
    &&& r.description == t.description
    &&& r.status@ == status_name(t.status)
    &&& r.summary@ == summary
}

/// One line of a task listing: `"<id>. <description> (<status>)"`.
pub open spec fn task_line(t: Task) -> Seq<char> {
    decimal(t.id as nat) + ". "@ + t.description@ + " ("@ + status_name(t.status) + ")"@
}

/// The lines of the listing, joined with newlines.
pub open spec fn task_lines(tasks: Seq<Task>) -> Seq<char>
    decreases tasks.len(),
{
    if tasks.len() == 0 {
        Seq::empty()
    } else if tasks.len() == 1 {
        task_line(tasks[0])
    } else {
        task_lines(tasks.drop_last()) + "\n"@ + task_line(tasks.last())
    }
}

/// The listing text: a fixed sentence for an empty list, else one line per task.
pub open spec fn format_tasks_spec(tasks: Seq<Task>) -> Seq<char> {
    if tasks.len() == 0 {
        "No tasks found."@
    } else {
        task_lines(tasks)
    }
}

fn summary_for(id: usize, verb: &str) -> (s: String)
    ensures
        s@ == task_summary(id, verb@),
{
    let mut s = String::from_str("Task '");
    let d = decimal_string(id as u64);
    s.append(d.as_str());
    s.append("' ");
    s.append(verb);
    s.append(" successfully");
    s
}

fn report(t: &Task, summary: String) -> (r: TaskReport)
    ensures
        report_of(r, *t, summary@),
{
    TaskReport {
        id: t.id,
        description: t.description.clone(),
        status: String::from_str(t.status.as_str()),
        summary,
    }
}

/// Appends a task to the end of the shared list.
pub struct AppendTaskTool;

impl AppendTaskTool {
    pub fn new() -> Self {
        AppendTaskTool
    }

    /// The tool's name as the model calls it.
    pub fn name(&self) -> (s: &'static str)
        ensures
            s@ == "append_task"@,
    {
        "append_task"
    }

    /// Appends a pending task with the given description.
    pub fn run(&self, tasks: &mut TaskList, description: String) -> (r: TaskReport)
        requires
            old(tasks).wf(),
            old(tasks).next_id() < usize::MAX,
        ensures
            final(tasks).wf(),
            final(tasks).next_id() == old(tasks).next_id() + 1,
            final(tasks).tasks() == old(tasks).tasks().push(
                pending_task(old(tasks).next_id() as usize, description),
            ),
            report_of(
                r,
                pending_task(old(tasks).next_id() as usize, description),
                task_summary(old(tasks).next_id() as usize, "appended"@),
            ),
    {
        let t = tasks.append_task(description);
        let s = summary_for(t.id, "appended");
        report(&t, s)
    }
}

/// Puts a task at the front of the shared list.
pub struct PrependTaskTool;

impl PrependTaskTool {
    pub fn new() -> Self {
        PrependTaskTool
    }

    /// The tool's name as the model calls it.
    pub fn name(&self) -> (s: &'static str)
        ensures
            s@ == "prepend_task"@,
    {
        "prepend_task"
    }

    /// Prepends a pending task with the given description.
    pub fn run(&self, tasks: &mut TaskList, description: String) -> (r: TaskReport)
        requires
            old(tasks).wf(),
            old(tasks).next_id() < usize::MAX,
        ensures
            final(tasks).wf(),
            final(tasks).next_id() == old(tasks).next_id() + 1,
            final(tasks).tasks() == old(tasks).tasks().insert(
                0,
                pending_task(old(tasks).next_id() as usize, description),
            ),
            report_of(
                r,
                pending_task(old(tasks).next_id() as usize, description),
                task_summary(old(tasks).next_id() as usize, "prepended"@),
            ),
    {
        let t = tasks.prepend_task(description);
        let s = summary_for(t.id, "prepended");
        report(&t, s)
    }
}

/// Inserts a task after a named task of the shared list.
pub struct InsertTaskAfterTool;

/// `"Task '<id>' inserted after task '<existing>' successfully"`.
pub open spec fn insert_summary(id: usize, existing: usize) -> Seq<char> {
    "Task '"@ + decimal(id as nat) + "' inserted after task '"@ + decimal(existing as nat)
        + "' successfully"@
}

impl InsertTaskAfterTool {
    pub fn new() -> Self {
        InsertTaskAfterTool
    }

    /// The tool's name as the model calls it.
    pub fn name(&self) -> (s: &'static str)
        ensures
            s@ == "insert_task_after"@,
    {
        "insert_task_after"
    }

    /// Inserts a pending task after task `existing_task_id`; fails when no
    /// task has that identifier.
    pub fn run(&self, tasks: &mut TaskList, existing_task_id: usize, description: String) -> (r:
        Result<TaskReport, MojenticError>)
        requires
            old(tasks).wf(),
            old(tasks).next_id() < usize::MAX,
        ensures
            final(tasks).wf(),
            has_id(old(tasks).tasks(), existing_task_id) <==> r is Ok,
            match r {
                Ok(rep) => {
                    &&& report_of(
                        rep,
                        pending_task(old(tasks).next_id() as usize, description),
                        insert_summary(old(tasks).next_id() as usize, existing_task_id),
                    )
                    &&& exists|i: int|
                        0 <= i < old(tasks).tasks().len() && old(tasks).tasks()[i].id
                            == existing_task_id && final(tasks).tasks() == old(tasks).tasks().insert(
                            i + 1,
                            pending_task(old(tasks).next_id() as usize, description),
                        )
                },
                Err(e) => {
                    &&& is_tool_error(e, missing_task_message(existing_task_id))
                    &&& final(tasks).tasks() == old(tasks).tasks()
                    &&& final(tasks).next_id() == old(tasks).next_id()
                },
            },
    {
        let t = tasks.insert_task_after(existing_task_id, description)?;
        let mut s = String::from_str("Task '");
        let d = decimal_string(t.id as u64);
        s.append(d.as_str());
        s.append("' inserted after task '");
        let e = decimal_string(existing_task_id as u64);
        s.append(e.as_str());
        s.append("' successfully");
        Ok(report(&t, s))
    }
}

/// Starts a pending task of the shared list.
pub struct StartTaskTool;

impl StartTaskTool {
    pub fn new() -> Self {
        StartTaskTool
    }

    /// The tool's name as the model calls it.
    pub fn name(&self) -> (s: &'static str)
        ensures
            s@ == "start_task"@,
    {
        "start_task"
    }

    /// Starts task `task_id`; the errors are those of the task list.
    pub fn run(&self, tasks: &mut TaskList, task_id: usize) -> (r: Result<TaskReport, MojenticError>)
        requires
            old(tasks).wf(),
        ensures
            final(tasks).wf(),
            final(tasks).next_id() == old(tasks).next_id(),
            match r {
                Ok(rep) => exists|i: int| {
                    &&& 0 <= i < old(tasks).tasks().len()
                    &&& old(tasks).tasks()[i].id == task_id
                    &&& old(tasks).tasks()[i].status == TaskStatus::Pending
                    &&& final(tasks).tasks() == old(tasks).tasks().update(i, (Task { status: TaskStatus::InProgress, ..old(tasks).tasks()[i] }))
                    &&& report_of(rep, (Task { status: TaskStatus::InProgress, ..old(tasks).tasks()[i] }), task_summary(task_id, "started"@))
                },
                Err(e) => {
                    &&& final(tasks).tasks() == old(tasks).tasks()
                    &&& if has_id(old(tasks).tasks(), task_id) {
                        is_tool_error(e, not_pending_message(task_id))
                    } else {
                        is_tool_error(e, missing_task_message(task_id))
                    }
                },
            },
    {
        let t = tasks.start_task(task_id)?;
        let s = summary_for(task_id, "started");
        Ok(report(&t, s))
    }
}

/// Completes an in-progress task of the shared list.
pub struct CompleteTaskTool;

impl CompleteTaskTool {
    pub fn new() -> Self {
        CompleteTaskTool
    }

    /// The tool's name as the model calls it.
    pub fn name(&self) -> (s: &'static str)
        ensures
            s@ == "complete_task"@,
    {
        "complete_task"
    }

    /// Completes task `task_id`; the errors are those of the task list.
    pub fn run(&self, tasks: &mut TaskList, task_id: usize) -> (r: Result<TaskReport, MojenticError>)
        requires
            old(tasks).wf(),
        ensures
            final(tasks).wf(),
            final(tasks).next_id() == old(tasks).next_id(),
            match r {
                Ok(rep) => exists|i: int| {
                    &&& 0 <= i < old(tasks).tasks().len()
                    &&& old(tasks).tasks()[i].id == task_id
                    &&& old(tasks).tasks()[i].status == TaskStatus::InProgress
                    &&& final(tasks).tasks() == old(tasks).tasks().update(i, (Task { status: TaskStatus::Completed, ..old(tasks).tasks()[i] }))
                    &&& report_of(rep, (Task { status: TaskStatus::Completed, ..old(tasks).tasks()[i] }), task_summary(task_id, "completed"@))
                },
                Err(e) => {
                    &&& final(tasks).tasks() == old(tasks).tasks()
                    &&& if has_id(old(tasks).tasks(), task_id) {
                        is_tool_error(e, not_in_progress_message(task_id))
                    } else {
                        is_tool_error(e, missing_task_message(task_id))
                    }
                },
            },
    {
        let t = tasks.complete_task(task_id)?;
        let s = summary_for(task_id, "completed");
        Ok(report(&t, s))
    }
}

/// Lists the tasks of the shared list.
pub struct ListTasksTool;

fn task_line_string(t: &Task) -> (s: String)
    ensures
        s@ == task_line(*t),
{
    let mut s = decimal_string(t.id as u64);
    s.append(". ");
    s.append(t.description.as_str());
    s.append(" (");
    s.append(t.status.as_str());
    s.append(")");
    s
}

/// `"Found <n> tasks\n\n<listing>"`.
pub open spec fn list_summary(n: nat, listing: Seq<char>) -> Seq<char> {
    "Found "@ + decimal(n) + " tasks\n\n"@ + listing
}

impl ListTasksTool {
    pub fn new() -> Self {
        ListTasksTool
    }

    /// The tool's name as the model calls it.
    pub fn name(&self) -> (s: &'static str)
        ensures
            s@ == "list_tasks"@,
    {
        "list_tasks"
    }

    /// Renders tasks one per line as `<id>. <description> (<status>)`, or
    /// `No tasks found.` for an empty list.
    pub fn format_tasks(&self, tasks: &[Task]) -> (s: String)
        ensures
            s@ == format_tasks_spec(tasks@),
    {
        if tasks.len() == 0 {
            return String::from_str("No tasks found.");
        }
        let mut s = task_line_string(&tasks[0]);
        let mut i: usize = 1;
        assert(tasks@.take(1).drop_last() =~= Seq::<Task>::empty());
        while i < tasks.len()
            invariant
                1 <= i <= tasks@.len(),
                s@ == task_lines(tasks@.take(i as int)),
            decreases tasks@.len() - i,
        {
            s.append("\n");
            let line = task_line_string(&tasks[i]);
            s.append(line.as_str());
            assert(tasks@.take(i + 1).drop_last() =~= tasks@.take(i as int));
            i = i + 1;
        }
        assert(tasks@.take(tasks@.len() as int) =~= tasks@);
        s
    }

    /// Reports how many tasks there are and lists them.
    pub fn run(&self, tasks: &TaskList) -> (r: TaskListReport)
        ensures
            r.count == tasks.tasks().len(),
            r.tasks@ == format_tasks_spec(tasks.tasks()),
            r.summary@ == list_summary(tasks.tasks().len(), format_tasks_spec(tasks.tasks())),
    {
        let all = tasks.list_tasks();
        let listing = self.format_tasks(all.as_slice());
        let mut summary = String::from_str("Found ");
        let d = decimal_string(all.len() as u64);
        summary.append(d.as_str());
        summary.append(" tasks\n\n");
        summary.append(listing.as_str());
        TaskListReport { count: all.len(), tasks: listing, summary }
    }
}

/// Empties the shared list.
pub struct ClearTasksTool;

impl ClearTasksTool {
    pub fn new() -> Self {
        ClearTasksTool
    }

    /// The tool's name as the model calls it.
    pub fn name(&self) -> (s: &'static str)
        ensures
            s@ == "clear_tasks"@,
    {
        "clear_tasks"
    }

    /// Removes every task and reports how many were removed.
    pub fn run(&self, tasks: &mut TaskList) -> (r: ClearReport)
        requires
            old(tasks).wf(),
        ensures
            final(tasks).wf(),
            final(tasks).tasks() == Seq::<Task>::empty(),
            final(tasks).next_id() == old(tasks).next_id(),
            r.count == old(tasks).tasks().len(),
            r.summary@ == "Cleared "@ + decimal(old(tasks).tasks().len()) + " tasks from the list"@,
    {
        let n = tasks.clear_tasks();
        let mut s = String::from_str("Cleared ");
        let d = decimal_string(n as u64);
        s.append(d.as_str());
        s.append(" tasks from the list");
        ClearReport { count: n, summary: s }
    }
}

} // verus!
