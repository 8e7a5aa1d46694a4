//! The task that writes balance snapshots at fixed intervals, for as long as the
//! service runs.
use vstd::prelude::*;
use crate::text::followed_by;
use crate::text::to_decimal;

verus! {

/// What has happened in the task.
#[derive(Debug)]
pub enum SnapshotEvent {
    /// The task was started.
    Started,
    /// The interval has passed.
    Slept,
    /// This many snapshots were written.
    Wrote(usize),
}

/// What the task is to do next.
#[derive(Debug)]
pub enum SnapshotStep {
    /// To print the line, if there is one, and then to wait for the interval to
    /// pass.
    Sleep { line: Option<String> },
    /// To write the snapshots.
    Write,
}

/// The line that tells how many snapshots were written.
pub open spec fn snapshot_line(count: nat) -> Seq<char> {
    "[snapshot] wrote "@ + crate::text::decimal(count) + " balance snapshots"@
}

/// Whether `step` is what follows `event`.
pub open spec fn follows(step: SnapshotStep, event: SnapshotEvent) -> bool {
    match event {
        SnapshotEvent::Started => step matches SnapshotStep::Sleep { line: None },
        SnapshotEvent::Slept => step is Write,
        SnapshotEvent::Wrote(count) => step matches SnapshotStep::Sleep { line: Some(line) }
            && line@ == snapshot_line(count as nat),
    }
}

/// What the task does after `event`: it waits for the interval to pass, writes
/// the snapshots, tells how many, and starts over.
pub fn snapshot_step(event: &SnapshotEvent) -> (r: SnapshotStep)
    ensures
        follows(r, *event),
{
    match event {
        SnapshotEvent::Started => SnapshotStep::Sleep { line: None },
        SnapshotEvent::Slept => SnapshotStep::Write,
        SnapshotEvent::Wrote(count) => {
            let counted = followed_by("[snapshot] wrote ", to_decimal(*count).as_str());
            SnapshotStep::Sleep {
                line: Some(followed_by(counted.as_str(), " balance snapshots")),
            }
        },
    }
}

/// A moment of the task: what has happened, when, and what the task does about
/// it.
pub struct Moment {
    pub event: SnapshotEvent,
    pub time: nat,
    pub step: SnapshotStep,
}

/// Whether `next` is the moment at which what the task did at `last` is done:
/// after a wait, once the interval has passed; after a write, once it is over.
pub open spec fn answers(next: Moment, last: Moment, interval: nat) -> bool {
    match last.step {
        SnapshotStep::Sleep { .. } => next.event is Slept && next.time >= last.time + interval,
        SnapshotStep::Write => next.event is Wrote && next.time >= last.time,
    }
}

/// Whether `run` is a run of the task from its start.
pub open spec fn is_run(run: Seq<Moment>, interval: nat) -> bool {
    &&& run.len() > 0
    &&& run[0].event is Started
    &&& forall|i: int| 0 <= i < run.len() ==> follows((#[trigger] run[i]).step, run[i].event)
    &&& forall|i: int, j: int|
        0 <= i && j == i + 1 && j < run.len() ==> answers(
            #[trigger] run[j],
            #[trigger] run[i],
            interval,
        )
}

/// How often snapshots are written in a run.
pub open spec fn writes(run: Seq<Moment>) -> nat
    decreases run.len(),
{
    if run.len() == 0 {
        0
    } else {
        writes(run.drop_last()) + if run.last().step is Write {
            1nat
        } else {
            0nat
        }
    }
}

/// Snapshots are written when an interval has passed and at no other time; after
/// that the next interval is waited for.
pub proof fn law_one_write_per_interval(step: SnapshotStep, event: SnapshotEvent)
    requires
        follows(step, event),
    ensures
        step is Write <==> event is Slept,
        event is Wrote ==> step is Sleep,
{
}

/// Over a whole run, snapshots are written no more often than intervals have
/// passed since the start; in particular not before the first has passed.
pub proof fn law_writes_never_outnumber_intervals(run: Seq<Moment>, interval: nat)
    requires
        is_run(run, interval),
    ensures
        writes(run) * interval <= run.last().time - run[0].time,
    decreases run.len(),
{
    let before = run.drop_last();
    if run.len() > 1 {
        assert(is_run(before, interval)) by {
            assert forall|i: int| 0 <= i < before.len() implies follows(
                (#[trigger] before[i]).step,
                before[i].event,
            ) by {
                assert(before[i] == run[i]);
            }
        }
        law_writes_never_outnumber_intervals(before, interval);
        let last = run.len() - 1;
        assert(answers(run[last], run[last - 1], interval));
        assert(follows(run[last].step, run[last].event));
        assert((writes(before) + 1) * interval == writes(before) * interval + interval)
            by (nonlinear_arith);
    } else {
        assert(follows(run[0].step, run[0].event));
        assert(before =~= Seq::empty());
        assert(writes(before) == 0);
        assert(writes(run) * interval == 0) by (nonlinear_arith)
            requires
                writes(run) == 0,
        ;
    }
}

/// Between any two writes of a run the task waits, and an interval passes.
pub proof fn law_writes_are_an_interval_apart(
    run: Seq<Moment>,
    interval: nat,
    first: int,
    second: int,
)
    requires
        is_run(run, interval),
        0 <= first < second < run.len(),
        run[first].step is Write,
        run[second].step is Write,
    ensures
        exists|between: int|
            first < between < second && (#[trigger] run[between]).step is Sleep,
        run[second].time - run[first].time >= interval,
{
    assert(answers(run[first + 1], run[first], interval));
    assert(follows(run[first + 1].step, run[first + 1].event));
    assert(run[first + 1].step is Sleep);
    assert(first + 1 < second);
    assert(answers(run[first + 2], run[first + 1], interval));
    lemma_time_passes(run, interval, first + 2, second);
}

/// The task starts by waiting, writes whenever an interval has passed, and after
/// each write tells, in decimal digits, how many snapshots were written, before it
/// waits again.
pub proof fn law_each_write_is_told_of(event: SnapshotEvent, r: SnapshotStep, digits: String)
    requires
        call_ensures(snapshot_step, (&event,), r),
        event matches SnapshotEvent::Wrote(count) ==> call_ensures(to_decimal, (count,), digits),
    ensures
        event is Started ==> (r matches SnapshotStep::Sleep { line: None }),
        event is Slept ==> r is Write,
        event matches SnapshotEvent::Wrote(count) ==> {
            &&& r matches SnapshotStep::Sleep { line: Some(line) }
            &&& line@ == "[snapshot] wrote "@ + digits@ + " balance snapshots"@
            &&& crate::text::number(digits@) == count
        },
{
    if let SnapshotEvent::Wrote(count) = event {
        crate::text::law_the_digits_denote_the_number(count, digits);
    }
}

/// Time does not run backwards in a run.
proof fn lemma_time_passes(run: Seq<Moment>, interval: nat, earlier: int, later: int)
    requires
        is_run(run, interval),
        0 <= earlier <= later < run.len(),
    ensures
        run[earlier].time <= run[later].time,
    decreases later - earlier,
{
    if earlier < later {
        lemma_time_passes(run, interval, earlier, later - 1);
        assert(answers(run[later], run[later - 1], interval));
    }
}

} // verus!
