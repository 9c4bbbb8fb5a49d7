//! Tasks, projects, plans and study records: what a request must hold to be
//! accepted, and the record it becomes.
use vstd::prelude::*;
use crate::errors::PlannerError;
use crate::text::{str_eq, trim, trim_str};

verus! {

/// A request to create a task, as the task form sends it.
pub struct CreateTask {
    pub title: String,
    pub description: Option<String>,
    pub planned_date: Option<String>,
    pub priority: Option<String>,
    pub estimated_minutes: Option<i64>,
    pub plan_id: Option<String>,
    pub stage_id: Option<String>,
    pub due_at: Option<String>,
    pub is_important: Option<bool>,
    pub project_id: Option<String>,
    pub schedule_start: Option<String>,
    pub schedule_end: Option<String>,
    pub recurrence: Option<String>,
    pub remind_on_open: Option<bool>,
}

/// The task row that an accepted request becomes; it starts as `todo`.
pub struct NewTask {
    pub title: String,
    pub description: String,
    pub priority: String,
    pub planned_date: Option<String>,
    pub estimated_minutes: Option<i64>,
    pub plan_id: Option<String>,
    pub stage_id: Option<String>,
    pub due_at: Option<String>,
    pub is_important: bool,
    pub project_id: Option<String>,
    pub schedule_start: Option<String>,
    pub schedule_end: Option<String>,
    pub recurrence: String,
    pub remind_on_open: bool,
}

pub open spec fn text_or(o: Option<String>, default: Seq<char>) -> Seq<char> {
    match o {
        Some(s) => s@,
        None => default,
    }
}

pub open spec fn is_priority(p: Seq<char>) -> bool {
    p == "low"@ || p == "medium"@ || p == "high"@ || p == "urgent"@
}

pub open spec fn is_task_status(s: Seq<char>) -> bool {
    s == "todo"@ || s == "doing"@ || s == "done"@
}

/// The priority a request asks for: `medium` unless it names one.
pub open spec fn requested_priority(input: CreateTask) -> Seq<char> {
    text_or(input.priority, "medium"@)
}

/// The request is accepted exactly when `r` is `Ok` and it holds the
/// trimmed title and the defaults for what the request leaves out.
pub open spec fn new_task_result(input: CreateTask, r: Result<NewTask, PlannerError>) -> bool {
    if trim(input.title@).len() == 0 {
        r == Err::<NewTask, PlannerError>(PlannerError::TaskTitleEmpty)
    } else if !is_priority(requested_priority(input)) {
        r == Err::<NewTask, PlannerError>(PlannerError::InvalidPriority)
    } else {
        match r {
            Ok(t) => {
                &&& t.title@ == trim(input.title@)
                &&& t.description@ == text_or(input.description, seq![])
                &&& t.priority@ == requested_priority(input)
                &&& t.planned_date == input.planned_date
                &&& t.estimated_minutes == input.estimated_minutes
                &&& t.plan_id == input.plan_id
                &&& t.stage_id == input.stage_id
                &&& t.due_at == input.due_at
                &&& t.is_important == (match input.is_important {
                    Some(b) => b,
                    None => false,
                })
                &&& t.project_id == input.project_id
                &&& t.schedule_start == input.schedule_start
                &&& t.schedule_end == input.schedule_end
                &&& t.recurrence@ == text_or(input.recurrence, "none"@)
                &&& t.remind_on_open == (match input.remind_on_open {
                    Some(b) => b,
                    None => true,
                })
            },
            Err(_) => false,
        }
    }
}

fn text_or_default(o: Option<String>, default: &str) -> (s: String)
    ensures
        s@ == text_or(o, default@),
{
    match o {
        Some(s) => s,
        None => default.to_owned(),
    }
}

/// Whether `p` is one of the task priorities.
pub fn check_priority(p: &str) -> (ok: bool)
    ensures
        ok == is_priority(p@),
{
    str_eq(p, "low") || str_eq(p, "medium") || str_eq(p, "high") || str_eq(p, "urgent")
}

/// Checks a request to create a task and fills in its defaults: a
/// non-empty trimmed title, priority `medium`, empty description,
/// recurrence `none`, not important, reminded on open.
pub fn new_task(input: CreateTask) -> (r: Result<NewTask, PlannerError>)
    ensures
        new_task_result(input, r),
        r is Ok <==> trim(input.title@).len() > 0 && is_priority(requested_priority(input)),
        r matches Ok(t) ==> {
            &&& t.title@ == trim(input.title@)
            &&& t.planned_date == input.planned_date
            &&& t.estimated_minutes == input.estimated_minutes
            &&& t.plan_id == input.plan_id
            &&& t.stage_id == input.stage_id
            &&& t.due_at == input.due_at
            &&& t.project_id == input.project_id
            &&& t.schedule_start == input.schedule_start
            &&& t.schedule_end == input.schedule_end
        },
{
    let title = trim_str(input.title.as_str());
    if title.as_str().is_empty() {
        return Err(PlannerError::TaskTitleEmpty);
    }
    let priority = text_or_default(input.priority, "medium");
    if !check_priority(priority.as_str()) {
        return Err(PlannerError::InvalidPriority);
    }
    let description = text_or_default(input.description, "");
    proof {
        reveal_strlit("");
        assert(""@ =~= Seq::<char>::empty());
    }
    let recurrence = text_or_default(input.recurrence, "none");
    let is_important = match input.is_important {
        Some(b) => b,
        None => false,
    };
    let remind_on_open = match input.remind_on_open {
        Some(b) => b,
        None => true,
    };
    Ok(NewTask {
        title,
        description,
        priority,
        planned_date: input.planned_date,
        estimated_minutes: input.estimated_minutes,
        plan_id: input.plan_id,
        stage_id: input.stage_id,
        due_at: input.due_at,
        is_important,
        project_id: input.project_id,
        schedule_start: input.schedule_start,
        schedule_end: input.schedule_end,
        recurrence,
        remind_on_open,
    })
}

/// An accepted task request is stored as asked: the title trimmed, and the
/// dates, schedule, estimate and the plan, stage and project it belongs to
/// each kept in its own field, unchanged.
pub proof fn lemma_accepted_task_keeps_request(input: CreateTask, r: Result<NewTask, PlannerError>)
    requires
        new_task_result(input, r),
        r is Ok,
    ensures
        trim(input.title@).len() > 0,
        r->Ok_0.title@ == trim(input.title@),
        r->Ok_0.planned_date == input.planned_date,
        r->Ok_0.estimated_minutes == input.estimated_minutes,
        r->Ok_0.plan_id == input.plan_id,
        r->Ok_0.stage_id == input.stage_id,
        r->Ok_0.due_at == input.due_at,
        r->Ok_0.project_id == input.project_id,
        r->Ok_0.schedule_start == input.schedule_start,
        r->Ok_0.schedule_end == input.schedule_end,
{
}

/// A task request is refused exactly when its trimmed title is empty or it
/// names a priority other than `low`, `medium`, `high` and `urgent`; the
/// empty title is reported first.
pub proof fn lemma_task_refusals(input: CreateTask, r: Result<NewTask, PlannerError>)
    requires
        new_task_result(input, r),
    ensures
        trim(input.title@).len() == 0 ==> r == Err::<NewTask, PlannerError>(
            PlannerError::TaskTitleEmpty,
        ),
        trim(input.title@).len() > 0 && !is_priority(requested_priority(input)) ==> r == Err::<
            NewTask,
            PlannerError,
        >(PlannerError::InvalidPriority),
        trim(input.title@).len() > 0 && is_priority(requested_priority(input)) ==> r is Ok,
{
}

/// A task's status may only be set to `todo`, `doing` or `done`.
pub fn check_task_status(status: &str) -> (r: Result<(), PlannerError>)
    ensures
        r == (if is_task_status(status@) {
            Ok::<(), PlannerError>(())
        } else {
            Err::<(), PlannerError>(PlannerError::InvalidStatus)
        }),
{
    if str_eq(status, "todo") || str_eq(status, "doing") || str_eq(status, "done") {
        Ok(())
    } else {
        Err(PlannerError::InvalidStatus)
    }
}

/// A text that must not be blank: its trimmed form, or `blank` when nothing
/// is left (task titles, daily items, category and project names).
pub fn required_text(text: &str, blank: PlannerError) -> (r: Result<String, PlannerError>)
    ensures
        trim(text@).len() == 0 ==> r == Err::<String, PlannerError>(blank),
        trim(text@).len() > 0 ==> (r matches Ok(t) && t@ == trim(text@)),
{
    let t = trim_str(text);
    if t.as_str().is_empty() {
        Err(blank)
    } else {
        Ok(t)
    }
}

/// An update that changed no row refers to something that does not exist.
pub fn require_changed(changed: usize, missing: PlannerError) -> (r: Result<(), PlannerError>)
    ensures
        r == (if changed == 0 {
            Err::<(), PlannerError>(missing)
        } else {
            Ok::<(), PlannerError>(())
        }),
{
    if changed == 0 {
        Err(missing)
    } else {
        Ok(())
    }
}

/// A study session must last at least a minute.
pub fn check_study_minutes(minutes: i64) -> (r: Result<(), PlannerError>)
    ensures
        r == (if minutes > 0 {
            Ok::<(), PlannerError>(())
        } else {
            Err::<(), PlannerError>(PlannerError::StudyMinutesNotPositive)
        }),
{
    if minutes > 0 {
        Ok(())
    } else {
        Err(PlannerError::StudyMinutesNotPositive)
    }
}

/// The sort order each task gets when the tasks are put in the order `ids`:
/// its position in the list.
pub fn task_sort_orders(ids: Vec<String>) -> (orders: Vec<(String, i64)>)
    requires
        ids.len() <= i64::MAX,
    ensures
        orders.len() == ids.len(),
        forall|k: int| 0 <= k < ids.len() ==> #[trigger] orders@[k] == (ids@[k], k as i64),
{
    let n = ids.len();
    let mut ids = ids;
    let ghost original = ids@;
    let mut rev: Vec<(String, i64)> = Vec::new();
    while ids.len() > 0
        invariant
            ids@ == original.take(ids.len() as int),
            n == original.len(),
            ids.len() + rev.len() == n,
            n <= i64::MAX,
            forall|k: int|
                0 <= k < rev.len() ==> #[trigger] rev@[k] == (
                    original[n - 1 - k],
                    (n - 1 - k) as i64,
                ),
        decreases ids.len(),
    {
        let position = ids.len() - 1;
        let id = ids.pop().unwrap();
        assert(original.take(position as int) =~= original.take(position + 1).drop_last());
        rev.push((id, position as i64));
    }
    let mut orders: Vec<(String, i64)> = Vec::new();
    while rev.len() > 0
        invariant
            orders.len() + rev.len() == n,
            n == original.len(),
            forall|k: int|
                0 <= k < rev.len() ==> #[trigger] rev@[k] == (
                    original[n - 1 - k],
                    (n - 1 - k) as i64,
                ),
            forall|k: int| 0 <= k < orders.len() ==> #[trigger] orders@[k] == (original[k], k as i64),
        decreases rev.len(),
    {
        let entry = rev.pop().unwrap();
        orders.push(entry);
    }
    orders
}

pub open spec fn restore_table_of(item_type: Seq<char>) -> Option<Seq<char>> {
    if item_type == "task"@ {
        Some("tasks"@)
    } else if item_type == "plan"@ {
        Some("plans"@)
    } else if item_type == "note"@ {
        Some("documents"@)
    } else {
        None
    }
}

/// The table that holds a kind of item in the trash: tasks, plans and notes.
pub fn restore_table(item_type: &str) -> (r: Result<String, PlannerError>)
    ensures
        match restore_table_of(item_type@) {
            Some(t) => r matches Ok(s) && s@ == t,
            None => r == Err::<String, PlannerError>(PlannerError::ItemTypeInvalid),
        },
{
    if str_eq(item_type, "task") {
        Ok("tasks".to_owned())
    } else if str_eq(item_type, "plan") {
        Ok("plans".to_owned())
    } else if str_eq(item_type, "note") {
        Ok("documents".to_owned())
    } else {
        Err(PlannerError::ItemTypeInvalid)
    }
}

/// A project or plan as it is stored.
pub struct PlanRecord {
    pub title: String,
    pub description: String,
    pub kind: String,
}

/// A new project: the trimmed title, and an empty description unless one is given.
pub fn project_record(title: &str, description: Option<String>) -> (r: PlanRecord)
    ensures
        r.title@ == trim(title@),
        r.description@ == text_or(description, seq![]),
        r.kind@ == "active"@,
{
    proof {
        reveal_strlit("");
    }
    assert(""@ =~= Seq::<char>::empty());
    PlanRecord {
        title: trim_str(title),
        description: text_or_default(description, ""),
        kind: "active".to_owned(),
    }
}

/// A new plan: the trimmed title, an empty description and the kind
/// `study` unless they are given.
pub fn plan_record(title: &str, description: Option<String>, kind: Option<String>) -> (r:
    PlanRecord)
    ensures
        r.title@ == trim(title@),
        r.description@ == text_or(description, seq![]),
        r.kind@ == text_or(kind, "study"@),
{
    proof {
        reveal_strlit("");
    }
    assert(""@ =~= Seq::<char>::empty());
    PlanRecord {
        title: trim_str(title),
        description: text_or_default(description, ""),
        kind: text_or_default(kind, "study"),
    }
}

} // verus!
