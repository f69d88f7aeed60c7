//! What holds of the library as a whole: laws that relate several of its
//! operations, stated over the models that their contracts use.

use vstd::prelude::*;
use crate::row::{fits32, wrap32, RowView};
use crate::state::State;
use crate::store::{fresh_row, is_expired, kept_at, labels, lemma_remove_keeps, well_formed};
use crate::task::TaskView;

verus! {

/// The elapsed time of a task never goes down as the clock goes on: seen at
/// a later instant it is at least what it was at an earlier one. While the
/// task is started it grows by exactly the time between the two instants;
/// in every other state it stays.
pub proof fn lemma_elapsed_never_decreases(task: TaskView, earlier: int, later: int)
    requires
        earlier <= later,
    ensures
        task.elapsed(earlier) <= task.elapsed(later),
        task.state == State::Started ==> task.elapsed(later) - task.elapsed(earlier) == later
            - earlier,
        task.state != State::Started ==> task.elapsed(later) == task.elapsed(earlier),
{
}

/// A task that is started, paused, started again and ended has gained the
/// lengths of its two intervals and nothing else: how long the pause lasted
/// plays no part. Each of the four steps is permitted where it is taken.
pub proof fn lemma_intervals_add_up(
    task: TaskView,
    first_start: int,
    pause: int,
    second_start: int,
    end: int,
)
    requires
        task.can_start(),
    ensures
        task.started(first_start).can_pause(),
        task.started(first_start).paused(pause).can_start(),
        task.started(first_start).paused(pause).started(second_start).can_end(),
        task.started(first_start).paused(pause).started(second_start).ended(end).time == task.time
            + (pause - first_start) + (end - second_start),
        task.started(first_start).paused(pause).started(second_start).ended(end).state
            == State::Ended,
{
}

/// The ended state is final: it leads to no state, so an ended task can be
/// neither started nor paused nor ended again. And no state leads back to
/// the created state.
pub proof fn lemma_ended_is_final(task: TaskView, target: State)
    requires
        task.state == State::Ended,
    ensures
        !task.state.leads_to(target),
        !task.can_start(),
        !task.can_pause(),
        !task.can_end(),
        forall|from: State| !from.leads_to(State::Created),
{
}

/// The time of a task changes only where an open interval is closed, and
/// then by the length of that interval: a start leaves it alone, a pause
/// adds the interval, and so does the end of a started task, while the end
/// of a paused task leaves it alone. With a clock that does not run
/// backwards the time therefore never goes down.
pub proof fn lemma_time_only_grows(task: TaskView, now: int)
    ensures
        task.started(now).time == task.time,
        task.can_pause() ==> task.paused(now).time == task.time + (now - task.begin_dt),
        task.state == State::Started ==> task.ended(now).time == task.time + (now - task.begin_dt),
        task.state == State::Paused ==> task.ended(now).time == task.time,
        now >= task.begin_dt ==> task.paused(now).time >= task.time && task.ended(now).time
            >= task.time,
{
}

/// No operation of the life cycle touches the label of a task or the
/// instant of its creation.
pub proof fn lemma_creation_is_kept(task: TaskView, now: int)
    ensures
        task.started(now).label == task.label && task.started(now).created_on == task.created_on,
        task.paused(now).label == task.label && task.paused(now).created_on == task.created_on,
        task.ended(now).label == task.label && task.ended(now).created_on == task.created_on,
{
}

/// A number that fits in 32 bits is stored as it is.
pub proof fn lemma_wrap32_keeps(x: int)
    requires
        fits32(x),
    ensures
        wrap32(x) == x,
{
}

/// A task whose time and instants fit in 32 bits is read back from its row
/// as it was.
pub proof fn lemma_row_keeps_task(task: TaskView)
    requires
        fits32(task.time),
        fits32(task.created_on),
        fits32(task.begin_dt),
        fits32(task.end_dt),
    ensures
        RowView::of_task(task).task() == Some(task),
{
    State::lemma_sql_code_is_read(task.state);
    lemma_wrap32_keeps(task.time);
    lemma_wrap32_keeps(task.created_on);
    lemma_wrap32_keeps(task.begin_dt);
    lemma_wrap32_keeps(task.end_dt);
}

/// A row that stores a task is got back from that task as it was.
pub proof fn lemma_task_keeps_row(row: RowView)
    requires
        row.task() is Some,
    ensures
        RowView::of_task(row.task().unwrap()) == row,
{
    let task = row.task().unwrap();
    State::lemma_code_is_written(row.state);
    lemma_wrap32_keeps(task.time);
    lemma_wrap32_keeps(task.created_on);
    lemma_wrap32_keeps(task.begin_dt);
    lemma_wrap32_keeps(task.end_dt);
    assert(RowView::of_task(task).state =~= row.state);
}

/// A task that has just been created is found under its label.
pub proof fn lemma_created_is_found(rows: Seq<RowView>, label: Seq<char>, now: int)
    ensures
        labels(rows.push(fresh_row(label, now))).contains(label),
{
    let after = rows.push(fresh_row(label, now));
    assert(labels(after)[rows.len() as int] == label);
}

/// A task that has just been deleted is found no more, and the table it
/// leaves is well formed: to delete it once more finds nothing.
pub proof fn lemma_deleted_is_gone(rows: Seq<RowView>, label: Seq<char>)
    requires
        well_formed(rows),
        labels(rows).contains(label),
    ensures
        well_formed(rows.remove(labels(rows).index_of(label))),
        !labels(rows.remove(labels(rows).index_of(label))).contains(label),
{
    let i = labels(rows).index_of(label);
    assert(labels(rows)[i] == label);
    lemma_remove_keeps(rows, i);
}

/// Cleaning takes the rows that are due and no other: a row is in the
/// table afterwards exactly if it was there before and its task has not
/// ended before the instant of cleaning.
pub proof fn lemma_cleaning_takes_the_due(rows: Seq<RowView>, now: int, row: RowView)
    ensures
        rows.filter(kept_at(now)).contains(row) <==> rows.contains(row) && !is_expired(row, now),
{
    let kept = rows.filter(kept_at(now));
    if kept.contains(row) {
        let i = choose|i: int| 0 <= i < kept.len() && kept[i] == row;
        rows.lemma_filter_pred(kept_at(now), i);
        rows.lemma_filter_contains_rev(kept_at(now), row);
    }
    if rows.contains(row) && !is_expired(row, now) {
        let i = choose|i: int| 0 <= i < rows.len() && rows[i] == row;
        rows.lemma_filter_contains(kept_at(now), i);
    }
}

} // verus!
