//! The queue's worker over a whole run.  Commands are enqueued as new
//! tasks; the worker takes the tasks one at a time, in the order they were
//! enqueued, starts each and finishes it, and sends one result back per
//! finished task.  A run is a sequence of such events, replayed with the
//! queue's own steps.

use vstd::prelude::*;
use crate::models::{CommandModel, PrintTaskStatus, TaskModel, new_task};
use crate::queue::{
    QueueModel, enqueued, finish_step, finished, start_step, started, without,
};

verus! {

/// Something that happens to the queue.
pub enum QueueEvent {
    /// A command is enqueued as a new task created at the given time.
    Enqueue(CommandModel, i64),
    /// The worker takes the next task and starts it at the given time.
    Start(i64),
    /// The task that prints ends with the outcome (the error's message on
    /// failure) at the given time.
    Finish(Result<(), Seq<char>>, i64),
}

/// The queue together with what the worker has seen.
pub struct WorkerRun {
    /// The queue's records.
    pub queue: QueueModel,
    /// Every task handed to the worker, in order, as it was enqueued.
    pub sent: Seq<TaskModel>,
    /// How many of them the worker has taken.
    pub taken: nat,
    /// The task that prints, as the worker holds it.
    pub current: Option<TaskModel>,
    /// How many results the worker has sent back.
    pub replies: nat,
}

/// An empty queue and a worker that has seen nothing.
pub open spec fn idle_run() -> WorkerRun {
    WorkerRun {
        queue: QueueModel {
            pending: Seq::empty(),
            active: None,
            completed: 0,
            failed: 0,
            tasks: Seq::empty(),
        },
        sent: Seq::empty(),
        taken: 0,
        current: None,
        replies: 0,
    }
}

/// The ids of `ts`, in order.
pub open spec fn task_ids(ts: Seq<TaskModel>) -> Seq<Seq<char>> {
    ts.map_values(|t: TaskModel| t.command.id)
}

/// Whether `e` can happen in `r`: any command can be enqueued; the worker
/// starts a task only while none prints and one waits for it; it finishes
/// one only while one prints, and while the count that the outcome raises is
/// below `usize::MAX`.
pub open spec fn can_take(r: WorkerRun, e: QueueEvent) -> bool {
    match e {
        QueueEvent::Enqueue(_, _) => true,
        QueueEvent::Start(_) => r.current is None && r.taken < r.sent.len(),
        QueueEvent::Finish(outcome, _) => {
            &&& r.current is Some
            &&& outcome is Ok ==> r.queue.completed < usize::MAX
            &&& outcome is Err ==> r.queue.failed < usize::MAX
        },
    }
}

/// `r` after `e`.
pub open spec fn run_step(r: WorkerRun, e: QueueEvent) -> WorkerRun {
    match e {
        QueueEvent::Enqueue(c, at) => WorkerRun {
            queue: enqueued(r.queue, new_task(c, at)),
            sent: r.sent.push(new_task(c, at)),
            ..r
        },
        QueueEvent::Start(now) => {
            let t = r.sent[r.taken as int];
            WorkerRun {
                queue: start_step(r.queue, t, now),
                taken: r.taken + 1,
                current: Some(started(t, now)),
                ..r
            }
        },
        QueueEvent::Finish(outcome, now) => match r.current {
            Some(t) => WorkerRun {
                queue: finish_step(r.queue, t, outcome, now),
                current: None,
                replies: r.replies + 1,
                ..r
            },
            None => r,
        },
    }
}

/// The state after the events `es`, from an empty queue.
pub open spec fn run_of(es: Seq<QueueEvent>) -> WorkerRun
    decreases es.len(),
{
    if es.len() == 0 {
        idle_run()
    } else {
        run_step(run_of(es.drop_last()), es.last())
    }
}

/// Whether each of the events `es` can happen when it comes.
pub open spec fn can_run(es: Seq<QueueEvent>) -> bool
    decreases es.len(),
{
    es.len() == 0 || (can_run(es.drop_last()) && can_take(run_of(es.drop_last()), es.last()))
}

/// Whether `e`, where it enqueues a command, enqueues it under an id that no
/// earlier task had.
pub open spec fn fresh_id(r: WorkerRun, e: QueueEvent) -> bool {
    match e {
        QueueEvent::Enqueue(c, _) => !task_ids(r.sent).contains(c.id),
        _ => true,
    }
}

/// Whether every command that the events `es` enqueue has an id of its own.
pub open spec fn ids_fresh(es: Seq<QueueEvent>) -> bool
    decreases es.len(),
{
    es.len() == 0 || (ids_fresh(es.drop_last()) && fresh_id(run_of(es.drop_last()), es.last()))
}

/// How many tasks of `ts` have status `s`.
pub open spec fn status_count(ts: Seq<TaskModel>, s: PrintTaskStatus) -> nat
    decreases ts.len(),
{
    if ts.len() == 0 {
        0
    } else {
        status_count(ts.drop_last(), s) + if ts.last().status == s {
            1nat
        } else {
            0nat
        }
    }
}

/// How far a status is along the way pending, printing, ended.
pub open spec fn status_rank(s: PrintTaskStatus) -> int {
    match s {
        PrintTaskStatus::Pending => 0,
        PrintTaskStatus::Printing => 1,
        PrintTaskStatus::Success => 2,
        PrintTaskStatus::Failed => 2,
    }
}

/// `b` is `a` as it is now or further along: same command, the same status
/// or a later one, and the start and end times that `a` had kept.
pub open spec fn task_moved_on(a: TaskModel, b: TaskModel) -> bool {
    &&& b.command == a.command
    &&& b.status == a.status || status_rank(a.status) < status_rank(b.status)
    &&& a.started_at is Some ==> b.started_at == a.started_at
    &&& a.completed_at is Some ==> b.completed_at == a.completed_at
}

/// `y` is `x` as it is now or further along: every task of `x` moved on,
/// and neither count went down.
pub open spec fn queue_moved_on(x: QueueModel, y: QueueModel) -> bool {
    &&& x.tasks.len() <= y.tasks.len()
    &&& forall|j: int| 0 <= j < x.tasks.len() ==> task_moved_on(#[trigger] x.tasks[j], y.tasks[j])
    &&& x.completed <= y.completed
    &&& x.failed <= y.failed
}

/// What holds of every state that a run reaches, whatever the ids.
spec fn run_balanced(r: WorkerRun) -> bool {
    &&& r.queue.completed + r.queue.failed == r.replies
    &&& match r.current {
        Some(t) => r.queue.active == Some(t.command.id),
        None => r.queue.active is None,
    }
}

/// What holds of every state that a run with ids of their own reaches.
spec fn run_invariant(r: WorkerRun) -> bool {
    let n = r.sent.len();
    let ts = r.queue.tasks;
    &&& ts.len() == n
    &&& r.taken <= n
    &&& forall|i: int, j: int| 0 <= i < j < n ==> (#[trigger] r.sent[i]).command.id != (#[trigger] r.sent[j]).command.id
    &&& forall|j: int| 0 <= j < n ==> (#[trigger] ts[j]).command == r.sent[j].command
    &&& forall|j: int| r.taken <= j < n ==> #[trigger] ts[j] == r.sent[j]
    &&& forall|j: int| 0 <= j < n ==> #[trigger] r.sent[j] == new_task(r.sent[j].command, r.sent[j].created_at)
    &&& r.queue.pending == task_ids(r.sent).subrange(r.taken as int, n as int)
    &&& match r.current {
        Some(t) => {
            &&& r.taken >= 1
            &&& r.queue.active == Some(t.command.id)
            &&& ts[r.taken - 1] == t
            &&& t.status == PrintTaskStatus::Printing
            &&& t.started_at is Some
            &&& t.completed_at is None
        },
        None => r.queue.active is None,
    }
    &&& r.queue.completed == status_count(ts, PrintTaskStatus::Success)
    &&& r.queue.failed == status_count(ts, PrintTaskStatus::Failed)
    &&& status_count(ts, PrintTaskStatus::Printing) == if r.current is Some { 1nat } else { 0nat }
    &&& r.queue.completed + r.queue.failed == r.replies
}

proof fn lemma_count_push(ts: Seq<TaskModel>, t: TaskModel, s: PrintTaskStatus)
    ensures
        status_count(ts.push(t), s) == status_count(ts, s) + if t.status == s { 1nat } else { 0nat },
{
    assert(ts.push(t).drop_last() =~= ts);
}

proof fn lemma_count_update(ts: Seq<TaskModel>, i: int, t: TaskModel, s: PrintTaskStatus)
    requires
        0 <= i < ts.len(),
    ensures
        status_count(ts.update(i, t), s) as int == status_count(ts, s) as int
            - (if ts[i].status == s { 1int } else { 0int }) + (if t.status == s { 1int } else { 0int }),
    decreases ts.len(),
{
    let u = ts.update(i, t);
    if i == ts.len() - 1 {
        assert(u.drop_last() =~= ts.drop_last());
    } else {
        assert(u.drop_last() =~= ts.drop_last().update(i, t));
        lemma_count_update(ts.drop_last(), i, t, s);
    }
}

proof fn lemma_without_first(ps: Seq<Seq<char>>, id: Seq<char>)
    requires
        ps.len() > 0,
        ps[0] == id,
        forall|k: int| 0 < k < ps.len() ==> ps[k] != id,
    ensures
        without(ps, id) == ps.drop_first(),
    decreases ps.len(),
{
    if ps.len() == 1 {
        assert(ps.last() == id);
        assert(ps.drop_last() =~= Seq::<Seq<char>>::empty());
        assert(without(Seq::<Seq<char>>::empty(), id) == Seq::<Seq<char>>::empty());
        assert(ps.drop_first() =~= Seq::<Seq<char>>::empty());
    } else {
        let rest = ps.drop_last();
        assert(ps.last() == ps[ps.len() - 1]);
        assert(ps.last() != id);
        assert(rest[0] == id);
        assert forall|k: int| 0 < k < rest.len() implies rest[k] != id by {
            assert(rest[k] == ps[k]);
        }
        lemma_without_first(rest, id);
        assert(rest.drop_first().push(ps.last()) =~= ps.drop_first());
    }
}

proof fn lemma_moved_on_transitive(x: QueueModel, y: QueueModel, z: QueueModel)
    requires
        queue_moved_on(x, y),
        queue_moved_on(y, z),
    ensures
        queue_moved_on(x, z),
{
    assert forall|j: int| 0 <= j < x.tasks.len() implies task_moved_on(#[trigger] x.tasks[j], z.tasks[j]) by {
        assert(task_moved_on(x.tasks[j], y.tasks[j]));
        assert(task_moved_on(y.tasks[j], z.tasks[j]));
    }
}

proof fn lemma_step_balanced(r: WorkerRun, e: QueueEvent)
    requires
        run_balanced(r),
        can_take(r, e),
    ensures
        run_balanced(run_step(r, e)),
        r.queue.completed <= run_step(r, e).queue.completed,
        r.queue.failed <= run_step(r, e).queue.failed,
{
}

proof fn lemma_step(r: WorkerRun, e: QueueEvent)
    requires
        run_invariant(r),
        can_take(r, e),
        fresh_id(r, e),
    ensures
        run_invariant(run_step(r, e)),
        queue_moved_on(r.queue, run_step(r, e).queue),
{
    let n = r.sent.len();
    let ts = r.queue.tasks;
    let r2 = run_step(r, e);
    let ts2 = r2.queue.tasks;
    match e {
        QueueEvent::Enqueue(c, at) => {
            let t = new_task(c, at);
            assert forall|i: int| 0 <= i < n implies r.sent[i].command.id != c.id by {
                assert(task_ids(r.sent)[i] == r.sent[i].command.id);
            }
            assert forall|i: int, j: int| 0 <= i < j < n + 1 implies (#[trigger] r2.sent[i]).command.id
                != (#[trigger] r2.sent[j]).command.id by {
                assert(r2.sent[i] == r.sent[i]);
                if j < n {
                    assert(r2.sent[j] == r.sent[j]);
                }
            }
            assert forall|j: int| 0 <= j < n + 1 implies (#[trigger] ts2[j]).command == r2.sent[j].command by {
                if j < n {
                    assert(ts2[j] == ts[j]);
                }
            }
            assert forall|j: int| r2.taken <= j < n + 1 implies #[trigger] ts2[j] == r2.sent[j] by {
                if j < n {
                    assert(ts2[j] == ts[j]);
                }
            }
            assert(task_ids(r2.sent).subrange(r.taken as int, n + 1int) =~= r.queue.pending.push(c.id));
            lemma_count_push(ts, t, PrintTaskStatus::Success);
            lemma_count_push(ts, t, PrintTaskStatus::Failed);
            lemma_count_push(ts, t, PrintTaskStatus::Printing);
            if r.current is Some {
                assert(ts2[r.taken - 1] == ts[r.taken - 1]);
            }
            assert forall|j: int| 0 <= j < ts.len() implies task_moved_on(#[trigger] ts[j], ts2[j]) by {
                assert(ts2[j] == ts[j]);
            }
        },
        QueueEvent::Start(now) => {
            let i = r.taken as int;
            let t = r.sent[i];
            let s = started(t, now);
            assert(ts[i] == t);
            assert forall|j: int| 0 <= j < i implies (#[trigger] ts[j]).command.id != ts[i].command.id by {
                assert(ts[j].command == r.sent[j].command);
            }
            crate::queue::lemma_first_index(ts, t.command.id, i);
            assert(ts2 == ts.update(i, s));
            let ps = r.queue.pending;
            assert(ps[0] == t.command.id);
            assert forall|k: int| 0 < k < ps.len() implies ps[k] != t.command.id by {
                assert(ps[k] == r.sent[i + k].command.id);
            }
            lemma_without_first(ps, t.command.id);
            assert(r2.queue.pending =~= task_ids(r.sent).subrange(i + 1, n as int));
            lemma_count_update(ts, i, s, PrintTaskStatus::Success);
            lemma_count_update(ts, i, s, PrintTaskStatus::Failed);
            lemma_count_update(ts, i, s, PrintTaskStatus::Printing);
            assert forall|j: int| 0 <= j < n implies (#[trigger] ts2[j]).command == r2.sent[j].command by {}
            assert forall|j: int| r2.taken <= j < n implies #[trigger] ts2[j] == r2.sent[j] by {}
            assert forall|j: int| 0 <= j < ts.len() implies task_moved_on(#[trigger] ts[j], ts2[j]) by {}
        },
        QueueEvent::Finish(outcome, now) => {
            let t = r.current->Some_0;
            let i = r.taken - 1;
            let f = finished(t, outcome, now);
            assert(ts[i] == t);
            assert forall|j: int| 0 <= j < i implies (#[trigger] ts[j]).command.id != ts[i].command.id by {
                assert(ts[j].command == r.sent[j].command);
                assert(ts[i].command == r.sent[i].command);
            }
            crate::queue::lemma_first_index(ts, t.command.id, i);
            assert(ts2 == ts.update(i, f));
            lemma_count_update(ts, i, f, PrintTaskStatus::Success);
            lemma_count_update(ts, i, f, PrintTaskStatus::Failed);
            lemma_count_update(ts, i, f, PrintTaskStatus::Printing);
            assert forall|j: int| 0 <= j < n implies (#[trigger] ts2[j]).command == r2.sent[j].command by {}
            assert forall|j: int| r2.taken <= j < n implies #[trigger] ts2[j] == r2.sent[j] by {}
            assert forall|j: int| 0 <= j < ts.len() implies task_moved_on(#[trigger] ts[j], ts2[j]) by {}
        },
    }
}

proof fn lemma_run_balanced(es: Seq<QueueEvent>)
    requires
        can_run(es),
    ensures
        run_balanced(run_of(es)),
    decreases es.len(),
{
    if es.len() > 0 {
        lemma_run_balanced(es.drop_last());
        lemma_step_balanced(run_of(es.drop_last()), es.last());
    }
}

proof fn lemma_run(es: Seq<QueueEvent>)
    requires
        can_run(es),
        ids_fresh(es),
    ensures
        run_invariant(run_of(es)),
    decreases es.len(),
{
    if es.len() == 0 {
        let r = idle_run();
        assert(task_ids(r.sent).subrange(0, 0) =~= r.queue.pending);
    } else {
        lemma_run(es.drop_last());
        lemma_step(run_of(es.drop_last()), es.last());
    }
}

/// Over every run in which each event can happen when it comes, whatever
/// the ids of the commands: the counts of completed and of failed tasks
/// together are the number of results sent back, neither goes down from any
/// point of the run to its end, and a task is active exactly while the
/// worker holds one.
pub proof fn law_worker_replies(es: Seq<QueueEvent>, k: int)
    requires
        can_run(es),
        0 <= k <= es.len(),
    ensures
        run_of(es).queue.completed + run_of(es).queue.failed == run_of(es).replies,
        run_of(es).queue.active is Some <==> run_of(es).current is Some,
        run_of(es.take(k)).queue.completed <= run_of(es).queue.completed,
        run_of(es.take(k)).queue.failed <= run_of(es).queue.failed,
    decreases es.len(),
{
    lemma_run_balanced(es);
    if k == es.len() {
        assert(es.take(k) =~= es);
    } else {
        let rest = es.drop_last();
        assert(rest.take(k) =~= es.take(k));
        law_worker_replies(rest, k);
        lemma_run_balanced(rest);
        lemma_step_balanced(run_of(rest), es.last());
    }
}

/// Over every run in which each event can happen when it comes and every
/// enqueued command has an id of its own: the count of completed tasks is
/// the number of recorded tasks that succeeded and the count of failed tasks
/// the number that failed; the waiting count is the number of enqueued tasks
/// that the worker has not taken yet; every enqueued task is recorded; and
/// at most one recorded task is printing, exactly while the worker holds one.
pub proof fn law_worker_counts(es: Seq<QueueEvent>)
    requires
        can_run(es),
        ids_fresh(es),
    ensures
        ({
            let r = run_of(es);
            &&& r.queue.completed == status_count(r.queue.tasks, PrintTaskStatus::Success)
            &&& r.queue.failed == status_count(r.queue.tasks, PrintTaskStatus::Failed)
            &&& r.queue.pending.len() == r.sent.len() - r.taken
            &&& r.queue.tasks.len() == r.sent.len()
            &&& status_count(r.queue.tasks, PrintTaskStatus::Printing) <= 1
            &&& (status_count(r.queue.tasks, PrintTaskStatus::Printing) == 1 <==> r.current is Some)
        }),
{
    lemma_run(es);
}

/// Over every run in which each event can happen when it comes and every
/// enqueued command has an id of its own, no recorded task goes back: from
/// any point of the run to its end, each task keeps its command, its status
/// stays or moves on from pending to printing to succeeded or failed, and a
/// start or end time once set is kept.
pub proof fn law_worker_never_goes_back(es: Seq<QueueEvent>, k: int)
    requires
        can_run(es),
        ids_fresh(es),
        0 <= k <= es.len(),
    ensures
        queue_moved_on(run_of(es.take(k)).queue, run_of(es).queue),
    decreases es.len(),
{
    if k == es.len() {
        assert(es.take(k) =~= es);
        let q = run_of(es).queue;
        assert forall|j: int| 0 <= j < q.tasks.len() implies task_moved_on(#[trigger] q.tasks[j], q.tasks[j]) by {}
    } else {
        let rest = es.drop_last();
        assert(rest.take(k) =~= es.take(k));
        law_worker_never_goes_back(rest, k);
        lemma_run(rest);
        lemma_step(run_of(rest), es.last());
        lemma_moved_on_transitive(run_of(es.take(k)).queue, run_of(rest).queue, run_of(es).queue);
    }
}

} // verus!
