//! The task tracker: the life cycle of one copy task and the decisions of
//! the loop that drives it over the tables of a job.

use crate::keyed::{first_index, lemma_first_index, lemma_first_index_absent, lemma_first_index_is};
use crate::model::{clone_opt_text, Progress, ProgressView, TaskState, TaskStatus, TaskStatusView};
use crate::text::same_text;
use vstd::prelude::*;

verus! {

/// Whether the state is one that a task never leaves.
pub open spec fn is_terminal(state: TaskState) -> bool {
    state == TaskState::Completed || state == TaskState::Failed
}

/// Whether the progress counter, where there is one, is within its total.
pub open spec fn in_bounds(t: TaskStatusView) -> bool {
    t.progress is Some ==> t.progress->Some_0.current <= t.progress->Some_0.total
}

/// The progress counter, or zero where the task has none.
pub open spec fn position(t: TaskStatusView) -> nat {
    match t.progress {
        Some(p) => p.current,
        None => 0,
    }
}

/// Whether the task may turn to the table at `index`: it has not ended, and
/// the index is neither behind its counter nor beyond its total.
pub open spec fn can_enter(t: TaskStatusView, index: nat) -> bool {
    &&& !is_terminal(t.status)
    &&& t.progress is Some
    &&& t.progress->Some_0.current <= index < t.progress->Some_0.total
}

/// The task as it stands when work on the table at `index` begins.
pub open spec fn entered(t: TaskStatusView, index: nat, name: Seq<char>) -> TaskStatusView {
    if can_enter(t, index) {
        TaskStatusView {
            status: TaskState::Running,
            progress: Some(
                ProgressView {
                    current: index,
                    total: t.progress->Some_0.total,
                    table_name: name,
                },
            ),
            ..t
        }
    } else {
        t
    }
}

/// The task after a pending task is taken up at `now`.
pub open spec fn taken_up(t: TaskStatusView, now: Seq<char>) -> TaskStatusView {
    if t.status == TaskState::Pending {
        TaskStatusView { status: TaskState::Running, start_time: Some(now), ..t }
    } else {
        t
    }
}

/// The message of a task that failed on a table.
pub open spec fn table_failure(name: Seq<char>, cause: Seq<char>) -> Seq<char> {
    "copy of table "@ + name + " failed: "@ + cause
}

/// The message of a task that failed before any table was touched.
pub open spec fn setup_failure(cause: Seq<char>) -> Seq<char> {
    "初始化失败: "@ + cause
}

/// The message of a task that copied every table.
pub open spec fn success_message() -> Seq<char> {
    "复制完成"@
}

/// The task after it failed at `now` with `message`; a task that is not
/// running stays as it is.
pub open spec fn failed(t: TaskStatusView, now: Seq<char>, message: Seq<char>) -> TaskStatusView {
    if t.status == TaskState::Running {
        TaskStatusView {
            status: TaskState::Failed,
            end_time: Some(now),
            message: Some(message),
            ..t
        }
    } else {
        t
    }
}

/// The task after its last table was copied at `now`: the counter stands at
/// the total. A task that is not running stays as it is.
pub open spec fn completed(t: TaskStatusView, now: Seq<char>) -> TaskStatusView {
    if t.status == TaskState::Running {
        TaskStatusView {
            status: TaskState::Completed,
            end_time: Some(now),
            message: Some(success_message()),
            progress: match t.progress {
                Some(p) => Some(ProgressView { current: p.total, ..p }),
                None => None,
            },
            ..t
        }
    } else {
        t
    }
}

impl Progress {
    /// A copy of the record.
    pub fn duplicate(&self) -> (r: Progress)
        ensures
            r == *self,
    {
        Progress { current: self.current, total: self.total, table_name: self.table_name.clone() }
    }
}

impl TaskStatus {
    /// A running task over `total` tables that has not yet turned to any.
    pub fn started(id: String, start_time: String, total: usize) -> (task: TaskStatus)
        ensures
            task@ == (TaskStatusView {
                id: id@,
                status: TaskState::Running,
                start_time: Some(start_time@),
                end_time: None,
                message: None,
                progress: Some(
                    ProgressView { current: 0, total: total as nat, table_name: Seq::empty() },
                ),
            }),
    {
        TaskStatus {
            id,
            status: TaskState::Running,
            start_time: Some(start_time),
            end_time: None,
            message: None,
            progress: Some(Progress { current: 0, total, table_name: String::new() }),
        }
    }

    /// A copy of the snapshot.
    pub fn duplicate(&self) -> (r: TaskStatus)
        ensures
            r == *self,
    {
        TaskStatus {
            id: self.id.clone(),
            status: self.status,
            start_time: clone_opt_text(&self.start_time),
            end_time: clone_opt_text(&self.end_time),
            message: clone_opt_text(&self.message),
            progress: match &self.progress {
                Some(p) => Some(p.duplicate()),
                None => None,
            },
        }
    }

    /// Whether the task has ended.
    pub fn has_ended(&self) -> (r: bool)
        ensures
            r == is_terminal(self.status),
    {
        self.status == TaskState::Completed || self.status == TaskState::Failed
    }

    /// Takes up a pending task: it runs from `now` on. Says whether the
    /// task was pending.
    pub fn take_up(&mut self, now: String) -> (applied: bool)
        ensures
            applied == (old(self).status == TaskState::Pending),
            final(self)@ == taken_up(old(self)@, now@),
    {
        if self.status == TaskState::Pending {
            self.status = TaskState::Running;
            self.start_time = Some(now);
            true
        } else {
            false
        }
    }

    /// Records that work on the table at `index` begins. Says whether the
    /// record was made: a task that has ended is left alone, and the counter
    /// neither goes back nor passes the total.
    pub fn begin_table(&mut self, index: usize, table_name: &str) -> (applied: bool)
        ensures
            applied == can_enter(old(self)@, index as nat),
            final(self)@ == entered(old(self)@, index as nat, table_name@),
            position(old(self)@) <= position(final(self)@),
            in_bounds(old(self)@) ==> in_bounds(final(self)@),
            is_terminal(old(self).status) ==> final(self)@ == old(self)@,
    {
        if self.status == TaskState::Completed || self.status == TaskState::Failed {
            return false;
        }
        let total = match &self.progress {
            Some(p) => {
                if p.current <= index && index < p.total {
                    p.total
                } else {
                    return false;
                }
            },
            None => {
                return false;
            },
        };
        self.status = TaskState::Running;
        self.progress = Some(Progress { current: index, total, table_name: table_name.to_owned() });
        true
    }

    fn fail_with(&mut self, now: String, message: String) -> (applied: bool)
        ensures
            applied == (old(self).status == TaskState::Running),
            final(self)@ == failed(old(self)@, now@, message@),
    {
        if self.status == TaskState::Running {
            self.status = TaskState::Failed;
            self.end_time = Some(now);
            self.message = Some(message);
            true
        } else {
            false
        }
    }

    /// Ends a running task as failed on the table `table_name`: the end time
    /// is stamped and the message names the table and the cause. The counter
    /// stays where it is. Says whether the task was running.
    pub fn fail_table(&mut self, now: String, table_name: &str, cause: &str) -> (applied: bool)
        ensures
            applied == (old(self).status == TaskState::Running),
            final(self)@ == failed(old(self)@, now@, table_failure(table_name@, cause@)),
            position(old(self)@) == position(final(self)@),
            is_terminal(old(self).status) ==> final(self)@ == old(self)@,
    {
        let mut message = "copy of table ".to_owned();
        message.append(table_name);
        message.append(" failed: ");
        message.append(cause);
        self.fail_with(now, message)
    }

    /// Ends a running task as failed before any table was touched. Says
    /// whether the task was running.
    pub fn fail_setup(&mut self, now: String, cause: &str) -> (applied: bool)
        ensures
            applied == (old(self).status == TaskState::Running),
            final(self)@ == failed(old(self)@, now@, setup_failure(cause@)),
            position(old(self)@) == position(final(self)@),
            is_terminal(old(self).status) ==> final(self)@ == old(self)@,
    {
        let mut message = "初始化失败: ".to_owned();
        message.append(cause);
        self.fail_with(now, message)
    }

    /// Ends a running task as completed: the end time is stamped, the
    /// counter is set to the total and the message says so. Says whether the
    /// task was running.
    pub fn complete(&mut self, now: String) -> (applied: bool)
        ensures
            applied == (old(self).status == TaskState::Running),
            final(self)@ == completed(old(self)@, now@),
            in_bounds(old(self)@) ==> position(old(self)@) <= position(final(self)@),
            in_bounds(final(self)@) || !applied,
            is_terminal(old(self).status) ==> final(self)@ == old(self)@,
    {
        if self.status == TaskState::Running {
            self.status = TaskState::Completed;
            self.end_time = Some(now);
            self.message = Some("复制完成".to_owned());
            let progress = match &self.progress {
                Some(p) => Some(
                    Progress { current: p.total, total: p.total, table_name: p.table_name.clone() },
                ),
                None => None,
            };
            self.progress = progress;
            true
        } else {
            false
        }
    }
}

/// What happened since the driver last decided.
#[derive(Clone, Debug, PartialEq, Eq)]
pub enum JobEvent {
    /// Both sessions are open.
    Connected,
    /// A session could not be opened; the cause is attached.
    ConnectFailed(String),
    /// The table that the task stands at was copied.
    TableCopied,
    /// The table that the task stands at failed; the cause is attached.
    TableFailed(String),
}

/// What the driver does next.
#[derive(Clone, Copy, Debug, PartialEq, Eq, Structural)]
pub enum JobAction {
    /// Copy the table at this index.
    CopyTable(usize),
    /// Nothing is left to do.
    Finished,
}

/// The table that follows the event: the first after the sessions open, the
/// one after the counter once a table was copied.
pub open spec fn following(t: TaskStatusView, event: JobEvent) -> nat {
    match event {
        JobEvent::Connected => 0,
        _ => position(t) + 1,
    }
}

/// The name that the task holds of the table it stands at.
pub open spec fn standing_at(t: TaskStatusView) -> Seq<char> {
    match t.progress {
        Some(p) => p.table_name,
        None => Seq::empty(),
    }
}

/// The task after the event, at `now`, for a job over the tables `names`.
/// A task that is still pending is taken up first, so that it ends the way
/// a running task does.
pub open spec fn after_event(
    t: TaskStatusView,
    names: Seq<Seq<char>>,
    event: JobEvent,
    now: Seq<char>,
) -> TaskStatusView {
    let t = taken_up(t, now);
    match event {
        JobEvent::ConnectFailed(cause) => failed(t, now, setup_failure(cause@)),
        JobEvent::TableFailed(cause) => failed(t, now, table_failure(standing_at(t), cause@)),
        _ => {
            let next = following(t, event);
            if next < names.len() && can_enter(t, next) {
                entered(t, next, names[next as int])
            } else {
                completed(t, now)
            }
        },
    }
}

/// What the driver does after the event.
pub open spec fn action_after(t: TaskStatusView, names: Seq<Seq<char>>, event: JobEvent) -> JobAction {
    match event {
        JobEvent::ConnectFailed(_) => JobAction::Finished,
        JobEvent::TableFailed(_) => JobAction::Finished,
        _ => {
            let next = following(t, event);
            if next < names.len() && can_enter(t, next) {
                JobAction::CopyTable(next as usize)
            } else {
                JobAction::Finished
            }
        },
    }
}

/// How far a task is through its life: pending, then running, then ended.
pub open spec fn stage(state: TaskState) -> nat {
    match state {
        TaskState::Pending => 0,
        TaskState::Running => 1,
        TaskState::Completed => 2,
        TaskState::Failed => 2,
    }
}

/// Whether `after` is `before` or a later stand of the same task: no
/// earlier in its life, unchanged if `before` has ended, and with a counter
/// that has not gone back and is within its total.
pub open spec fn moves_forward(before: TaskStatusView, after: TaskStatusView) -> bool {
    &&& after.id == before.id
    &&& stage(before.status) <= stage(after.status)
    &&& (is_terminal(before.status) ==> after == before)
    &&& position(before) <= position(after)
    &&& in_bounds(after)
}

/// Whatever happens to a task, it only moves forward: through pending,
/// running and ended in that order, never out of an end state, and with a
/// counter that neither goes back nor passes its total.
pub proof fn lemma_task_only_moves_forward(
    t: TaskStatusView,
    names: Seq<Seq<char>>,
    event: JobEvent,
    now: Seq<char>,
    index: nat,
    name: Seq<char>,
    message: Seq<char>,
)
    requires
        in_bounds(t),
    ensures
        moves_forward(t, taken_up(t, now)),
        moves_forward(t, entered(t, index, name)),
        moves_forward(t, failed(t, now, message)),
        moves_forward(t, completed(t, now)),
        moves_forward(t, after_event(t, names, event, now)),
{
}

/// One decision of the loop that drives a task over the tables `names`: the
/// task is updated for the event and the next action is returned. The update
/// for a table is complete before the action to copy it is handed out; the
/// first failure ends the task and no further table is handed out.
pub fn advance(task: &mut TaskStatus, names: &Vec<String>, event: JobEvent, now: String) -> (action:
    JobAction)
    ensures
        final(task)@ == after_event(old(task)@, crate::text::texts(names@), event, now@),
        action == action_after(old(task)@, crate::text::texts(names@), event),
        position(old(task)@) <= position(final(task)@) || !in_bounds(old(task)@),
        in_bounds(old(task)@) ==> in_bounds(final(task)@),
        is_terminal(old(task).status) ==> final(task)@ == old(task)@ && action
            == JobAction::Finished,
        action is CopyTable ==> final(task).status == TaskState::Running && position(final(task)@)
            == action->CopyTable_0 && standing_at(final(task)@) == names@[action->CopyTable_0 as int]@,
        action is Finished && !is_terminal(old(task).status) ==> is_terminal(final(task).status),
{
    task.take_up(now.clone());
    match event {
        JobEvent::ConnectFailed(cause) => {
            task.fail_setup(now, cause.as_str());
            JobAction::Finished
        },
        JobEvent::TableFailed(cause) => {
            let name = match &task.progress {
                Some(p) => p.table_name.clone(),
                None => String::new(),
            };
            task.fail_table(now, name.as_str(), cause.as_str());
            JobAction::Finished
        },
        JobEvent::Connected => advance_to(task, names, 0, now),
        JobEvent::TableCopied => {
            let current = match &task.progress {
                Some(p) => p.current,
                None => 0,
            };
            if current < names.len() {
                advance_to(task, names, current + 1, now)
            } else {
                task.complete(now);
                JobAction::Finished
            }
        },
    }
}

fn advance_to(task: &mut TaskStatus, names: &Vec<String>, next: usize, now: String) -> (action:
    JobAction)
    ensures
        next < names.len() && can_enter(old(task)@, next as nat) ==> final(task)@ == entered(
            old(task)@,
            next as nat,
            names@[next as int]@,
        ) && action == JobAction::CopyTable(next),
        !(next < names.len() && can_enter(old(task)@, next as nat)) ==> final(task)@ == completed(
            old(task)@,
            now@,
        ) && action == JobAction::Finished,
{
    if next < names.len() {
        if task.begin_table(next, names[next].as_str()) {
            return JobAction::CopyTable(next);
        }
    }
    task.complete(now);
    JobAction::Finished
}

/// The snapshots held in memory, by task id. A reader looks here first and
/// falls back on what was persisted.
pub struct TaskStore {
    tasks: Vec<TaskStatus>,
}

impl TaskStore {
    /// The ids of the snapshots, in the order in which they came.
    pub closed spec fn ids(&self) -> Seq<Seq<char>> {
        Seq::new(self.tasks@.len(), |i: int| self.tasks@[i].id@)
    }

    /// The snapshots, by task id.
    pub closed spec fn view(&self) -> Map<Seq<char>, TaskStatusView> {
        Map::new(
            |id: Seq<char>| first_index(self.ids(), id) >= 0,
            |id: Seq<char>| self.tasks@[first_index(self.ids(), id)]@,
        )
    }

    /// A store that holds nothing: no snapshot under any id, and none in
    /// the list that is laid over what was persisted.
    pub fn new() -> (store: TaskStore)
        ensures
            store@ == Map::<Seq<char>, TaskStatusView>::empty(),
            store.snapshots() == Seq::<TaskStatusView>::empty(),
    {
        let store = TaskStore { tasks: Vec::new() };
        proof {
            assert(store.ids() =~= Seq::empty());
            assert(store@ =~= Map::<Seq<char>, TaskStatusView>::empty());
            assert(store.snapshots() =~= Seq::<TaskStatusView>::empty());
        }
        store
    }

    fn find(&self, id: &str) -> (at: Option<usize>)
        ensures
            at is Some <==> first_index(self.ids(), id@) >= 0,
            at is Some ==> at->Some_0 == first_index(self.ids(), id@),
            at is Some ==> at->Some_0 < self.tasks@.len(),
    {
        let mut i: usize = 0;
        while i < self.tasks.len()
            invariant
                i <= self.tasks.len(),
                forall|j: int| 0 <= j < i ==> self.ids()[j] != id@,
            decreases self.tasks.len() - i,
        {
            if same_text(self.tasks[i].id.as_str(), id) {
                proof {
                    lemma_first_index_is(self.ids(), id@, i as int);
                }
                return Some(i);
            }
            i += 1;
        }
        proof {
            lemma_first_index_absent(self.ids(), id@);
        }
        None
    }

    /// The snapshot held for the id, if there is one.
    pub fn get(&self, id: &str) -> (found: Option<TaskStatus>)
        ensures
            found is Some <==> self@.contains_key(id@),
            found is Some ==> found->Some_0@ == self@[id@],
    {
        match self.find(id) {
            Some(i) => Some(self.tasks[i].duplicate()),
            None => None,
        }
    }

    /// Holds the snapshot under its id, in place of an earlier one.
    pub fn put(&mut self, task: TaskStatus)
        ensures
            final(self)@ == old(self)@.insert(task.id@, task@),
    {
        let ghost before = self.ids();
        let ghost key = task.id@;
        let ghost snapshot = task@;
        match self.find(task.id.as_str()) {
            Some(i) => {
                proof {
                    lemma_first_index(before, key);
                }
                self.tasks.set(i, task);
                proof {
                    assert(self.ids() =~= before);
                    assert forall|id: Seq<char>|
                        first_index(before, id) < before.len() && (first_index(before, id) >= 0
                            ==> before[first_index(before, id)] == id) by {
                        lemma_first_index(before, id);
                    }
                    assert(final(self)@ =~= old(self)@.insert(key, snapshot));
                }
            },
            None => {
                self.tasks.push(task);
                proof {
                    let after = self.ids();
                    assert(after.drop_last() =~= before);
                    assert(after.last() == key);
                    assert forall|id: Seq<char>|
                        first_index(after, id) == if first_index(before, id) >= 0 {
                            first_index(before, id)
                        } else if id == key {
                            before.len() as int
                        } else {
                            -1
                        } by {}
                    assert forall|id: Seq<char>| first_index(before, id) < before.len() by {
                        lemma_first_index(before, id);
                    }
                    assert(final(self)@ =~= old(self)@.insert(key, snapshot));
                }
            },
        }
    }

    /// The snapshots held, in the order in which they came.
    pub closed spec fn snapshots(&self) -> Seq<TaskStatusView> {
        crate::history::views(self.tasks@)
    }

    /// All tasks as a reader sees them: what was persisted, with each held
    /// snapshot in the place of the persisted one of its id or else at the
    /// end, ordered newest first by start time.
    pub fn merged_with(&self, persisted: Vec<TaskStatus>) -> (out: Vec<TaskStatus>)
        ensures
            crate::history::views(out@) == crate::history::newest_first(
                crate::history::merged(crate::history::views(persisted@), self.snapshots()),
            ),
    {
        crate::history::merge_newest_first(persisted, &self.tasks)
    }

    /// The snapshot of a task as a reader sees it: the one held in memory,
    /// or else the one that was persisted.
    pub fn status(&self, id: &str, persisted: Option<TaskStatus>) -> (found: Option<TaskStatus>)
        ensures
            self@.contains_key(id@) ==> found is Some && found->Some_0@ == self@[id@],
            !self@.contains_key(id@) ==> found == persisted,
    {
        match self.get(id) {
            Some(task) => Some(task),
            None => persisted,
        }
    }
}

} // verus!
