//! The bookkeeping of the print queue: which tasks wait, which one prints,
//! how many finished, and the record of every task.
//!
//! Tasks are processed one at a time, in the order they were enqueued; the
//! queue's owner moves each task through `start_task` and `finish_task`.

use vstd::prelude::*;
use std::collections::VecDeque;
use crate::clock::now_nanos;
use crate::models::{
    CommandModel, PrintCommand, PrintResult, PrintTask, PrintTaskStatus, QueueStats, ResultModel,
    TaskModel,
};
use crate::text::same_text;

verus! {

/// The queue's records.
pub struct QueueState {
    pending: VecDeque<String>,
    active: Option<String>,
    completed: usize,
    failed: usize,
    tasks: Vec<PrintTask>,
}

pub struct QueueModel {
    /// Ids of the tasks that wait, in order.
    pub pending: Seq<Seq<char>>,
    /// Id of the task that prints.
    pub active: Option<Seq<char>>,
    pub completed: usize,
    pub failed: usize,
    /// Every task ever enqueued, in order, as last recorded.
    pub tasks: Seq<TaskModel>,
}

impl View for QueueState {
    type V = QueueModel;

    open spec fn view(&self) -> QueueModel {
        self.model()
    }
}

/// `ps` without the entries equal to `id`, the others in order.
pub open spec fn without(ps: Seq<Seq<char>>, id: Seq<char>) -> Seq<Seq<char>>
    decreases ps.len(),
{
    if ps.len() == 0 {
        Seq::empty()
    } else if ps.last() == id {
        without(ps.drop_last(), id)
    } else {
        without(ps.drop_last(), id).push(ps.last())
    }
}

/// The index of the first task whose id is `id`; -1 when there is none.
pub open spec fn first_index(ts: Seq<TaskModel>, id: Seq<char>) -> int
    decreases ts.len(),
{
    if ts.len() == 0 {
        -1
    } else if ts[0].command.id == id {
        0
    } else {
        let r = first_index(ts.drop_first(), id);
        if r < 0 {
            -1
        } else {
            r + 1
        }
    }
}

/// The record with the first task of the same id as `t` replaced by `t`;
/// unchanged when no task has that id.
pub open spec fn replace_first(ts: Seq<TaskModel>, t: TaskModel) -> Seq<TaskModel> {
    let i = first_index(ts, t.command.id);
    if i < 0 {
        ts
    } else {
        ts.update(i, t)
    }
}

/// The command of the first task whose id is `id`.
pub open spec fn command_of(ts: Seq<TaskModel>, id: Seq<char>) -> Option<CommandModel> {
    let i = first_index(ts, id);
    if i < 0 {
        None
    } else {
        Some(ts[i].command)
    }
}

/// A task as it starts printing at `now`.
pub open spec fn started(t: TaskModel, now: i64) -> TaskModel {
    TaskModel { status: PrintTaskStatus::Printing, started_at: Some(now), ..t }
}

/// A task as it ends at `now` with `outcome` (the error's message on
/// failure).
pub open spec fn finished(t: TaskModel, outcome: Result<(), Seq<char>>, now: i64) -> TaskModel {
    match outcome {
        Ok(_) => TaskModel { status: PrintTaskStatus::Success, completed_at: Some(now), ..t },
        Err(e) => TaskModel {
            status: PrintTaskStatus::Failed,
            completed_at: Some(now),
            error: Some(e),
            ..t
        },
    }
}

/// The result reported for a task with id `id` that ended with `outcome`.
pub open spec fn outcome_result(id: Seq<char>, outcome: Result<(), Seq<char>>) -> ResultModel {
    match outcome {
        Ok(_) => ResultModel { task_id: id, status: PrintTaskStatus::Success, error: None },
        Err(e) => ResultModel { task_id: id, status: PrintTaskStatus::Failed, error: Some(e) },
    }
}

/// The counts that a queue in state `q` reports.
pub open spec fn stats_of(q: QueueModel) -> QueueStats {
    QueueStats {
        pending: q.pending.len() as usize,
        active: if q.active is Some { 1 } else { 0 },
        completed: q.completed,
        failed: q.failed,
    }
}

pub open spec fn outcome_view(outcome: Result<(), String>) -> Result<(), Seq<char>> {
    match outcome {
        Ok(_) => Ok(()),
        Err(e) => Err(e@),
    }
}

/// The queue after `t` is enqueued.
pub open spec fn enqueued(q: QueueModel, t: TaskModel) -> QueueModel {
    QueueModel { pending: q.pending.push(t.command.id), tasks: q.tasks.push(t), ..q }
}

/// The queue after `t` starts printing; `t` is the task before it started
/// and `now` the time it starts.
pub open spec fn start_step(q: QueueModel, t: TaskModel, now: i64) -> QueueModel {
    QueueModel {
        pending: without(q.pending, t.command.id),
        active: Some(t.command.id),
        tasks: replace_first(q.tasks, started(t, now)),
        ..q
    }
}

/// The queue after `t` ends with `outcome` at `now`; `t` is the task as it
/// was while it printed.
pub open spec fn finish_step(q: QueueModel, t: TaskModel, outcome: Result<(), Seq<char>>, now: i64) -> QueueModel {
    QueueModel {
        active: None,
        completed: if outcome is Ok { (q.completed + 1) as usize } else { q.completed },
        failed: if outcome is Err { (q.failed + 1) as usize } else { q.failed },
        tasks: replace_first(q.tasks, finished(t, outcome, now)),
        ..q
    }
}

pub(crate) proof fn lemma_first_index(ts: Seq<TaskModel>, id: Seq<char>, i: int)
    requires
        0 <= i <= ts.len(),
        forall|j: int| 0 <= j < i ==> ts[j].command.id != id,
    ensures
        i < ts.len() && ts[i].command.id == id ==> first_index(ts, id) == i,
        i == ts.len() ==> first_index(ts, id) == -1,
    decreases i,
{
    if i > 0 {
        let rest = ts.drop_first();
        assert forall|j: int| 0 <= j < i - 1 implies rest[j].command.id != id by {
            assert(rest[j] == ts[j + 1]);
        }
        lemma_first_index(rest, id, i - 1);
    } else if ts.len() > 0 {
    }
}

impl QueueState {
    pub closed spec fn model(&self) -> QueueModel {
        QueueModel {
            pending: self.pending@.map_values(|s: String| s@),
            active: self.active.deep_view(),
            completed: self.completed,
            failed: self.failed,
            tasks: self.tasks@.map_values(|t: PrintTask| t@),
        }
    }

    /// An empty queue.
    pub fn new() -> (q: QueueState)
        ensures
            q@.pending == Seq::<Seq<char>>::empty(),
            q@.active is None,
            q@.completed == 0,
            q@.failed == 0,
            q@.tasks == Seq::<TaskModel>::empty(),
    {
        let q = QueueState {
            pending: VecDeque::new(),
            active: None,
            completed: 0,
            failed: 0,
            tasks: Vec::new(),
        };
        assert(q@.pending =~= Seq::<Seq<char>>::empty());
        assert(q@.tasks =~= Seq::<TaskModel>::empty());
        q
    }

    /// Records a new task: its id joins the waiting line and the task joins
    /// the record.
    pub fn enqueue(&mut self, task: PrintTask)
        ensures
            final(self)@ == enqueued(old(self)@, task@),
    {
        let ghost before = self@;
        let ghost t = task@;
        self.pending.push_back(task.command.id.clone());
        self.tasks.push(task);
        assert(self@.pending =~= before.pending.push(t.command.id));
        assert(self@.tasks =~= before.tasks.push(t));
    }

    /// The queue's counts.
    pub fn stats(&self) -> (s: QueueStats)
        ensures
            s == stats_of(self@),
    {
        QueueStats {
            pending: self.pending.len(),
            active: if self.active.is_some() { 1 } else { 0 },
            completed: self.completed,
            failed: self.failed,
        }
    }

    /// A copy of the record of every task.
    pub fn all_tasks(&self) -> (r: Vec<PrintTask>)
        ensures
            r@.map_values(|t: PrintTask| t@) == self@.tasks,
    {
        let mut r: Vec<PrintTask> = Vec::new();
        let mut i: usize = 0;
        while i < self.tasks.len()
            invariant
                i <= self.tasks.len(),
                r.len() == i,
                forall|j: int| 0 <= j < i ==> (#[trigger] r@[j])@ == self.tasks@[j]@,
            decreases self.tasks.len() - i,
        {
            r.push(self.tasks[i].clone());
            i = i + 1;
        }
        assert(r@.map_values(|t: PrintTask| t@) =~= self.tasks@.map_values(|t: PrintTask| t@));
        r
    }

    /// The command of the first recorded task whose id is `task_id`.
    pub fn task_command(&self, task_id: &str) -> (r: Option<PrintCommand>)
        ensures
            match command_of(self@.tasks, task_id@) {
                Some(c) => r matches Some(x) && x@ == c,
                None => r is None,
            },
    {
        let ghost ts = self@.tasks;
        let mut i: usize = 0;
        while i < self.tasks.len()
            invariant
                i <= self.tasks.len(),
                ts == self@.tasks,
                ts.len() == self.tasks.len(),
                forall|j: int| 0 <= j < i ==> ts[j].command.id != task_id@,
            decreases self.tasks.len() - i,
        {
            assert(ts[i as int] == self.tasks@[i as int]@);
            if same_text(self.tasks[i].command.id.as_str(), task_id) {
                proof {
                    lemma_first_index(ts, task_id@, i as int);
                }
                return Some(self.tasks[i].command.clone());
            }
            i = i + 1;
        }
        proof {
            lemma_first_index(ts, task_id@, i as int);
        }
        None
    }

    /// Overwrites the first recorded task of the same id as `task`.
    fn update_task(&mut self, task: &PrintTask)
        ensures
            final(self)@ == (QueueModel { tasks: replace_first(old(self)@.tasks, task@), ..old(self)@ }),
    {
        let ghost ts = self@.tasks;
        let mut i: usize = 0;
        while i < self.tasks.len()
            invariant
                i <= self.tasks.len(),
                self@ == old(self)@,
                ts == old(self)@.tasks,
                ts.len() == self.tasks.len(),
                forall|j: int| 0 <= j < i ==> ts[j].command.id != task@.command.id,
            decreases self.tasks.len() - i,
        {
            assert(ts[i as int] == self.tasks@[i as int]@);
            if same_text(self.tasks[i].command.id.as_str(), task.command.id.as_str()) {
                proof {
                    lemma_first_index(ts, task@.command.id, i as int);
                }
                self.tasks.set(i, task.clone());
                assert(self@.tasks =~= replace_first(ts, task@));
                assert(self@.pending == old(self)@.pending);
                return;
            }
            i = i + 1;
        }
        proof {
            lemma_first_index(ts, task@.command.id, i as int);
        }
        assert(replace_first(ts, task@) == ts);
    }

    /// Removes every waiting entry of `id`.
    fn remove_pending(&mut self, id: &str)
        ensures
            final(self)@ == (QueueModel { pending: without(old(self)@.pending, id@), ..old(self)@ }),
    {
        let ghost ps = old(self)@.pending;
        let mut kept: VecDeque<String> = VecDeque::new();
        let mut i: usize = 0;
        assert(ps.take(0) =~= Seq::<Seq<char>>::empty());
        assert(kept@.map_values(|s: String| s@) =~= Seq::<Seq<char>>::empty());
        while i < self.pending.len()
            invariant
                i <= self.pending.len(),
                self@ == old(self)@,
                ps == old(self)@.pending,
                ps.len() == self.pending@.len(),
                kept@.map_values(|s: String| s@) == without(ps.take(i as int), id@),
            decreases self.pending.len() - i,
        {
            let entry = &self.pending[i];
            assert(ps[i as int] == entry@);
            assert(ps.take(i + 1).drop_last() =~= ps.take(i as int));
            if !same_text(entry.as_str(), id) {
                let ghost before = kept@;
                kept.push_back(entry.clone());
                assert(kept@.map_values(|s: String| s@) =~= before.map_values(|s: String| s@).push(
                    entry@,
                ));
            }
            i = i + 1;
        }
        assert(ps.take(ps.len() as int) =~= ps);
        self.pending = kept;
    }

    /// The task `task` starts printing at `now`: its id leaves the waiting
    /// line and becomes the active one, and the task, marked as printing
    /// since `now`, is recorded.
    pub fn start_task_at(&mut self, task: &mut PrintTask, now: i64)
        ensures
            final(task)@ == started(old(task)@, now),
            final(self)@ == start_step(old(self)@, old(task)@, now),
    {
        let id = task.command.id.clone();
        self.remove_pending(id.as_str());
        self.active = Some(id);
        task.status = PrintTaskStatus::Printing;
        task.started_at = Some(now);
        self.update_task(task);
    }

    /// The task `task` starts printing now.  Returns `false`, and changes
    /// nothing, when the clock cannot be read as nanoseconds since the Unix
    /// epoch.
    pub fn start_task(&mut self, task: &mut PrintTask) -> (done: bool)
        ensures
            done ==> exists|now: i64|
                now >= 0 && final(task)@ == started(old(task)@, now)
                    && final(self)@ == #[trigger] start_step(old(self)@, old(task)@, now),
            !done ==> final(task)@ == old(task)@ && final(self)@ == old(self)@,
    {
        match now_nanos() {
            Some(now) => {
                self.start_task_at(task, now);
                true
            },
            None => false,
        }
    }

    /// The task `task` ends at `now` with `outcome` (the error's message on
    /// failure): it is marked as succeeded or failed, completed at `now`,
    /// recorded; nothing is active any more, and the count of completed or of
    /// failed tasks grows by one.  Returns the result to report.
    pub fn finish_task_at(&mut self, task: &mut PrintTask, outcome: Result<(), String>, now: i64) -> (r: PrintResult)
        requires
            outcome is Ok ==> old(self)@.completed < usize::MAX,
            outcome is Err ==> old(self)@.failed < usize::MAX,
        ensures
            final(task)@ == finished(old(task)@, outcome_view(outcome), now),
            r@ == outcome_result(old(task)@.command.id, outcome_view(outcome)),
            final(self)@ == finish_step(old(self)@, old(task)@, outcome_view(outcome), now),
    {
        let task_id = task.command.id.clone();
        let result = match outcome {
            Ok(()) => {
                task.status = PrintTaskStatus::Success;
                task.completed_at = Some(now);
                PrintResult { task_id, status: PrintTaskStatus::Success, error: None }
            },
            Err(error) => {
                task.status = PrintTaskStatus::Failed;
                task.completed_at = Some(now);
                task.error = Some(error.clone());
                PrintResult { task_id, status: PrintTaskStatus::Failed, error: Some(error) }
            },
        };
        self.update_task(task);
        self.active = None;
        match result.status {
            PrintTaskStatus::Success => {
                self.completed = self.completed + 1;
            },
            _ => {
                self.failed = self.failed + 1;
            },
        }
        result
    }

    /// The task `task` ends now with `outcome`.  Returns `None`, and changes
    /// nothing, when the clock cannot be read as nanoseconds since the Unix
    /// epoch.
    pub fn finish_task(&mut self, task: &mut PrintTask, outcome: Result<(), String>) -> (r: Option<PrintResult>)
        requires
            outcome is Ok ==> old(self)@.completed < usize::MAX,
            outcome is Err ==> old(self)@.failed < usize::MAX,
        ensures
            r matches Some(x) ==> x@ == outcome_result(old(task)@.command.id, outcome_view(outcome)),
            r is Some ==> exists|now: i64|
                now >= 0 && final(task)@ == finished(old(task)@, outcome_view(outcome), now)
                    && final(self)@ == #[trigger] finish_step(old(self)@, old(task)@, outcome_view(outcome), now),
            r is None ==> final(task)@ == old(task)@ && final(self)@ == old(self)@,
    {
        match now_nanos() {
            Some(now) => Some(self.finish_task_at(task, outcome, now)),
            None => None,
        }
    }
}

} // verus!

verus! {

proof fn lemma_first_index_push(ts: Seq<TaskModel>, t: TaskModel, id: Seq<char>)
    ensures
        first_index(ts.push(t), id) == if first_index(ts, id) >= 0 {
            first_index(ts, id)
        } else if t.command.id == id {
            ts.len() as int
        } else {
            -1
        },
        -1 <= first_index(ts, id) < ts.len(),
        first_index(ts, id) >= 0 ==> ts[first_index(ts, id)].command.id == id,
    decreases ts.len(),
{
    if ts.len() > 0 {
        assert(ts.push(t)[0] == ts[0]);
        assert(ts.push(t).drop_first() =~= ts.drop_first().push(t));
        lemma_first_index_push(ts.drop_first(), t, id);
        if first_index(ts.drop_first(), id) >= 0 {
            assert(ts.drop_first()[first_index(ts.drop_first(), id)] == ts[first_index(ts.drop_first(), id) + 1]);
        }
    } else {
        assert(ts.push(t)[0] == t);
        assert(ts.push(t).drop_first() =~= Seq::<TaskModel>::empty());
        assert(first_index(Seq::<TaskModel>::empty(), id) == -1);
    }
}

proof fn lemma_without_absent(ps: Seq<Seq<char>>, id: Seq<char>)
    requires
        !ps.contains(id),
    ensures
        without(ps, id) == ps,
    decreases ps.len(),
{
    if ps.len() > 0 {
        assert(!ps.drop_last().contains(id)) by {
            if ps.drop_last().contains(id) {
                let k = choose|k: int| 0 <= k < ps.drop_last().len() && ps.drop_last()[k] == id;
                assert(ps[k] == id);
            }
        }
        lemma_without_absent(ps.drop_last(), id);
        assert(ps.last() != id) by {
            assert(ps[ps.len() - 1] == ps.last());
        }
        assert(ps.drop_last().push(ps.last()) =~= ps);
    }
}

/// Removing an id from the waiting line leaves no entry of it and keeps
/// every other entry.
pub proof fn law_removed_id_no_longer_waits(ps: Seq<Seq<char>>, id: Seq<char>)
    ensures
        !without(ps, id).contains(id),
        forall|i: int| 0 <= i < ps.len() && ps[i] != id ==> without(ps, id).contains(#[trigger] ps[i]),
        without(ps, id).len() <= ps.len(),
    decreases ps.len(),
{
    if ps.len() > 0 {
        let rest = ps.drop_last();
        law_removed_id_no_longer_waits(rest, id);
        let w = without(rest, id);
        if ps.last() != id {
            assert(!w.push(ps.last()).contains(id)) by {
                if w.push(ps.last()).contains(id) {
                    let k = choose|k: int| 0 <= k < w.push(ps.last()).len() && w.push(ps.last())[k] == id;
                    if k < w.len() {
                        assert(w[k] == id);
                    }
                }
            }
            assert forall|i: int| 0 <= i < ps.len() && ps[i] != id implies without(ps, id).contains(
                #[trigger] ps[i],
            ) by {
                if i < ps.len() - 1 {
                    assert(rest[i] == ps[i]);
                    let k = choose|k: int| 0 <= k < w.len() && w[k] == rest[i];
                    assert(w.push(ps.last())[k] == ps[i]);
                } else {
                    assert(w.push(ps.last())[w.len() as int] == ps[i]);
                }
            }
        } else {
            assert forall|i: int| 0 <= i < ps.len() && ps[i] != id implies without(ps, id).contains(
                #[trigger] ps[i],
            ) by {
                assert(rest[i] == ps[i]);
            }
        }
    }
}

/// Enqueuing a task makes its command findable by its id: the task's own
/// command when no earlier task has that id, else the earliest such task's.
pub proof fn law_enqueued_command_is_found(q: QueueModel, t: TaskModel)
    ensures
        command_of(enqueued(q, t).tasks, t.command.id) == match command_of(q.tasks, t.command.id) {
            Some(c) => Some(c),
            None => Some(t.command),
        },
{
    lemma_first_index_push(q.tasks, t, t.command.id);
    let i = first_index(q.tasks, t.command.id);
    if i >= 0 {
        assert(q.tasks.push(t)[i] == q.tasks[i]);
    } else {
        assert(q.tasks.push(t)[q.tasks.len() as int] == t);
    }
}

/// One task's way through the queue.  Enqueuing it adds one waiting entry;
/// starting it makes it the active task and, when its id was not waiting
/// before, brings the waiting count back to where it was; finishing it
/// leaves nothing active and adds one to exactly one of the completed and
/// failed counts.  When no earlier task had its id, the record ends with
/// the finished task, successful exactly when the outcome is.
pub proof fn law_task_lifecycle(
    q: QueueModel,
    t: TaskModel,
    start: i64,
    outcome: Result<(), Seq<char>>,
    end: i64,
)
    requires
        q.completed < usize::MAX,
        q.failed < usize::MAX,
        q.pending.len() < usize::MAX,
    ensures
        ({
            let q1 = enqueued(q, t);
            let q2 = start_step(q1, t, start);
            let q3 = finish_step(q2, started(t, start), outcome, end);
            &&& stats_of(q1).pending == stats_of(q).pending + 1
            &&& stats_of(q2).active == 1
            &&& !q.pending.contains(t.command.id) ==> stats_of(q2).pending == stats_of(q).pending
            &&& stats_of(q3).active == 0
            &&& stats_of(q3).pending == stats_of(q2).pending
            &&& stats_of(q3).completed + stats_of(q3).failed == q.completed + q.failed + 1
            &&& (outcome is Ok <==> stats_of(q3).completed == q.completed + 1)
            &&& first_index(q.tasks, t.command.id) < 0 ==> {
                &&& q3.tasks == q.tasks.push(finished(started(t, start), outcome, end))
                &&& (q3.tasks.last().status == PrintTaskStatus::Success <==> outcome is Ok)
            }
        }),
{
    let id = t.command.id;
    let q1 = enqueued(q, t);
    let q2 = start_step(q1, t, start);
    if !q.pending.contains(id) {
        lemma_without_absent(q.pending, id);
        assert(q1.pending.drop_last() =~= q.pending);
    }
    lemma_first_index_push(q.tasks, t, id);
    if first_index(q.tasks, id) < 0 {
        let s = started(t, start);
        assert(q2.tasks =~= q.tasks.push(s));
        lemma_first_index_push(q.tasks, s, id);
        assert(q2.tasks.drop_last() =~= q.tasks);
        let f = finished(s, outcome, end);
        assert(replace_first(q2.tasks, f) =~= q.tasks.push(f));
    }
}

/// The reported result and the recorded task agree: same id, succeeded
/// exactly when the outcome is a success, and on failure the same error.
pub proof fn law_result_matches_record(t: TaskModel, outcome: Result<(), Seq<char>>, now: i64)
    ensures
        outcome_result(t.command.id, outcome).task_id == finished(t, outcome, now).command.id,
        outcome_result(t.command.id, outcome).status == finished(t, outcome, now).status,
        outcome is Err ==> outcome_result(t.command.id, outcome).error == finished(t, outcome, now).error,
        (finished(t, outcome, now).status == PrintTaskStatus::Success) <==> outcome is Ok,
{
}

} // verus!

verus! {

/// Every waiting id is the id of a recorded task.
pub open spec fn waiting_are_recorded(q: QueueModel) -> bool {
    forall|k: int| 0 <= k < q.pending.len() ==> #[trigger] is_recorded(q.tasks, q.pending[k])
}

/// Whether some recorded task has the id `id`.
pub open spec fn is_recorded(ts: Seq<TaskModel>, id: Seq<char>) -> bool {
    exists|j: int| 0 <= j < ts.len() && (#[trigger] ts[j]).command.id == id
}

proof fn lemma_without_subset(ps: Seq<Seq<char>>, id: Seq<char>)
    ensures
        forall|k: int| 0 <= k < without(ps, id).len() ==> ps.contains(#[trigger] without(ps, id)[k]),
    decreases ps.len(),
{
    if ps.len() > 0 {
        let rest = ps.drop_last();
        lemma_without_subset(rest, id);
        let w = without(rest, id);
        assert forall|k: int| 0 <= k < without(ps, id).len() implies ps.contains(
            #[trigger] without(ps, id)[k],
        ) by {
            if k < w.len() {
                assert(without(ps, id)[k] == w[k]);
                let m = choose|m: int| 0 <= m < rest.len() && rest[m] == w[k];
                assert(ps[m] == rest[m]);
            } else {
                assert(without(ps, id)[k] == ps.last());
                assert(ps[ps.len() - 1] == ps.last());
            }
        }
    }
}

proof fn lemma_replace_first_keeps_ids(ts: Seq<TaskModel>, t: TaskModel)
    ensures
        replace_first(ts, t).len() == ts.len(),
        forall|j: int| 0 <= j < ts.len() ==> (#[trigger] replace_first(ts, t)[j]).command.id == ts[j].command.id,
{
    lemma_first_index_push(ts, t, t.command.id);
}

/// Every waiting id stays the id of a recorded task through enqueuing,
/// starting and finishing tasks, and the record never shrinks.
pub proof fn law_waiting_tasks_stay_recorded(
    q: QueueModel,
    t: TaskModel,
    outcome: Result<(), Seq<char>>,
    now: i64,
)
    requires
        waiting_are_recorded(q),
    ensures
        waiting_are_recorded(enqueued(q, t)),
        waiting_are_recorded(start_step(q, t, now)),
        waiting_are_recorded(finish_step(q, t, outcome, now)),
        enqueued(q, t).tasks.len() == q.tasks.len() + 1,
        start_step(q, t, now).tasks.len() == q.tasks.len(),
        finish_step(q, t, outcome, now).tasks.len() == q.tasks.len(),
{
    let e = enqueued(q, t);
    assert forall|k: int| 0 <= k < e.pending.len() implies #[trigger] is_recorded(e.tasks, e.pending[k]) by {
        if k < q.pending.len() {
            assert(e.pending[k] == q.pending[k]);
            assert(is_recorded(q.tasks, q.pending[k]));
            let j = choose|j: int| 0 <= j < q.tasks.len() && (#[trigger] q.tasks[j]).command.id == q.pending[k];
            assert(e.tasks[j] == q.tasks[j]);
        } else {
            assert(e.tasks[q.tasks.len() as int] == t);
        }
    }
    let s = start_step(q, t, now);
    lemma_replace_first_keeps_ids(q.tasks, started(t, now));
    lemma_without_subset(q.pending, t.command.id);
    assert forall|k: int| 0 <= k < s.pending.len() implies #[trigger] is_recorded(s.tasks, s.pending[k]) by {
        assert(q.pending.contains(s.pending[k]));
        let m = choose|m: int| 0 <= m < q.pending.len() && q.pending[m] == s.pending[k];
        assert(is_recorded(q.tasks, q.pending[m]));
        let j = choose|j: int| 0 <= j < q.tasks.len() && (#[trigger] q.tasks[j]).command.id == q.pending[m];
        assert(s.tasks[j].command.id == q.tasks[j].command.id);
    }
    let f = finish_step(q, t, outcome, now);
    lemma_replace_first_keeps_ids(q.tasks, finished(t, outcome, now));
    assert forall|k: int| 0 <= k < f.pending.len() implies #[trigger] is_recorded(f.tasks, f.pending[k]) by {
        assert(is_recorded(q.tasks, q.pending[k]));
        let j = choose|j: int| 0 <= j < q.tasks.len() && (#[trigger] q.tasks[j]).command.id == q.pending[k];
        assert(f.tasks[j].command.id == q.tasks[j].command.id);
    }
}

} // verus!
