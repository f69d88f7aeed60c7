//! The task table: the rows that are kept, one per label, and the
//! operations that create, find, list, change and delete them.

use vstd::prelude::*;
use vstd::string::*;
use crate::clock::{is_clock_reading, now_timestamp};
use crate::error::TaskError;
use crate::row::{RowView, SQLTask};
use crate::state::State;
use crate::task::{Task, TaskView};
use crate::text::{lowercase_of, same_text};

verus! {

/// The labels of the rows, in the order of the rows.
pub open spec fn labels(rows: Seq<RowView>) -> Seq<Seq<char>> {
    rows.map_values(|row: RowView| row.label)
}

/// Whether every row holds one of the four storage codes as its state.
pub open spec fn codes_valid(rows: Seq<RowView>) -> bool {
    forall|i: int| 0 <= i < rows.len() ==> State::of_sql_code((#[trigger] rows[i]).state) is Some
}

/// What holds of the rows of every table: no label occurs twice, and every
/// state is a storage code.
pub open spec fn well_formed(rows: Seq<RowView>) -> bool {
    labels(rows).no_duplicates() && codes_valid(rows)
}

/// The rows as the contracts see them.
pub open spec fn row_views(rows: Seq<SQLTask>) -> Seq<RowView> {
    rows.map_values(|row: SQLTask| row@)
}

/// The tasks as the contracts see them.
pub open spec fn task_views(tasks: Seq<Task>) -> Seq<TaskView> {
    tasks.map_values(|task: Task| task@)
}

/// The tasks that the rows store, in the order of the rows.
pub open spec fn stored_tasks(rows: Seq<RowView>) -> Seq<TaskView> {
    rows.map_values(|row: RowView| row.task().unwrap())
}

/// Whether the row at `i` is the first whose state is no storage code.
pub open spec fn is_first_unread(rows: Seq<RowView>, i: int) -> bool {
    &&& 0 <= i < rows.len()
    &&& State::of_sql_code(rows[i].state) is None
    &&& forall|j: int| 0 <= j < i ==> State::of_sql_code((#[trigger] rows[j]).state) is Some
}

/// The table of tasks. The label of a row is its key.
pub struct TaskTable {
    rows: Vec<SQLTask>,
}

impl View for TaskTable {
    type V = Seq<RowView>;

    closed spec fn view(&self) -> Seq<RowView> {
        row_views(self.rows@)
    }
}

impl TaskTable {
    /// Whether the table is one that the operations keep: see `well_formed`.
    pub open spec fn wf(&self) -> bool {
        well_formed(self@)
    }

    /// Makes a table without rows.
    pub fn new() -> (table: TaskTable)
        ensures
            table.wf(),
            table@ == Seq::<RowView>::empty(),
    {
        let table = TaskTable { rows: Vec::new() };
        assert(table@ =~= Seq::<RowView>::empty());
        table
    }

    /// Makes a table of rows that were kept elsewhere. The rows are checked
    /// first: a state that is no storage code is refused and comes back in
    /// the error, the first such state if there are several; after that, a
    /// label that occurs twice is refused.
    pub fn from_rows(rows: Vec<SQLTask>) -> (res: Result<TaskTable, TaskError>)
        ensures
            well_formed(row_views(rows@)) ==> (res matches Ok(table) && table.wf() && table@
                == row_views(rows@)),
            !codes_valid(row_views(rows@)) ==> (res matches Err(TaskError::InvalidStateCode(token))
                && exists|i: int| #[trigger]
                is_first_unread(row_views(rows@), i) && token@ == row_views(rows@)[i].state),
            codes_valid(row_views(rows@)) && !labels(row_views(rows@)).no_duplicates() ==> res
                matches Err(TaskError::StorageError),
    {
        let ghost views = row_views(rows@);
        let n: usize = rows.len();
        let mut i: usize = 0;
        while i < n
            invariant
                n == rows.len(),
                views == row_views(rows@),
                i <= n,
                forall|j: int|
                    0 <= j < i ==> State::of_sql_code((#[trigger] views[j]).state) is Some,
            decreases n - i,
        {
            assert(rows[i as int]@ == views[i as int]);
            match State::from_sql(rows[i].state.as_str()) {
                Ok(_) => {},
                Err(e) => {
                    assert(is_first_unread(views, i as int));
                    return Err(e);
                },
            }
            i += 1;
        }
        let mut a: usize = 0;
        while a < n
            invariant
                n == rows.len(),
                views == row_views(rows@),
                a <= n,
                codes_valid(views),
                forall|x: int, y: int| 0 <= y < x < a ==> views[x].label != views[y].label,
            decreases n - a,
        {
            let mut b: usize = 0;
            while b < a
                invariant
                    n == rows.len(),
                    views == row_views(rows@),
                    a < n,
                    b <= a,
                    codes_valid(views),
                    forall|y: int| 0 <= y < b ==> views[a as int].label != views[y].label,
                decreases a - b,
            {
                assert(rows[a as int]@ == views[a as int] && rows[b as int]@ == views[b as int]);
                if same_text(rows[a].label.as_str(), rows[b].label.as_str()) {
                    assert(labels(views)[a as int] == labels(views)[b as int]);
                    return Err(TaskError::StorageError);
                }
                b += 1;
            }
            a += 1;
        }
        proof {
            assert forall|x: int, y: int|
                0 <= x < labels(views).len() && 0 <= y < labels(views).len() && x
                    != y implies labels(views)[x] != labels(views)[y] by {
                if y < x {
                    assert(views[x].label != views[y].label);
                } else {
                    assert(views[y].label != views[x].label);
                }
            }
        }
        Ok(TaskTable { rows })
    }

    /// The number of rows.
    pub fn len(&self) -> (n: usize)
        ensures
            n == self@.len(),
    {
        self.rows.len()
    }

    /// The rows of the table, in their order.
    pub fn rows(&self) -> (rows: &Vec<SQLTask>)
        ensures
            row_views(rows@) == self@,
    {
        &self.rows
    }

    /// Looks for the row that carries `label`.
    fn find_row(&self, label: &str) -> (found: Option<usize>)
        ensures
            match found {
                Some(i) => i < self@.len() && self@[i as int].label == label@,
                None => !labels(self@).contains(label@),
            },
    {
        let mut i: usize = 0;
        while i < self.rows.len()
            invariant
                i <= self.rows.len(),
                forall|j: int| 0 <= j < i ==> self@[j].label != label@,
            decreases self.rows.len() - i,
        {
            if same_text(self.rows[i].label.as_str(), label) {
                return Some(i);
            }
            i += 1;
        }
        None
    }
}

/// With labels that differ from row to row, a label found at `i` has its
/// place there.
pub proof fn lemma_place(rows: Seq<RowView>, label: Seq<char>, i: int)
    requires
        labels(rows).no_duplicates(),
        0 <= i < rows.len(),
        rows[i].label == label,
    ensures
        labels(rows).contains(label),
        labels(rows).index_of(label) == i,
{
    assert(labels(rows)[i] == label);
    let j = labels(rows).index_of(label);
    assert(0 <= j < labels(rows).len() && labels(rows)[j] == label);
}

/// Tells whether a task is kept under `input`.
pub fn task_exists(table: &TaskTable, input: &str) -> (found: bool)
    ensures
        found == labels(table@).contains(input@),
{
    match table.find_row(input) {
        Some(i) => {
            assert(labels(table@)[i as int] == input@);
            true
        },
        None => false,
    }
}

/// Finds the task that is kept under `input`. Nothing is returned where no
/// row carries the label.
pub fn get_task(table: &TaskTable, input: &str) -> (res: Option<Task>)
    requires
        table.wf(),
    ensures
        match res {
            Some(task) => labels(table@).contains(input@) && Some(task@)
                == table@[labels(table@).index_of(input@)].task(),
            None => !labels(table@).contains(input@),
        },
{
    match table.find_row(input) {
        Some(i) => {
            proof {
                lemma_place(table@, input@, i as int);
            }
            match table.rows[i].as_task() {
                Ok(task) => Some(task),
                Err(_) => None,
            }
        },
        None => None,
    }
}

/// The row that stores a task created under `label` at `now`.
pub open spec fn fresh_row(label: Seq<char>, now: int) -> RowView {
    RowView::of_task(TaskView::fresh(label, now))
}

/// Creates a task under `label` at `now` and returns the number of rows
/// added, which is one. A label that is kept already is refused, and the
/// table left as it is.
pub fn create_task_at(table: &mut TaskTable, label: &str, now: i64) -> (res: Result<
    usize,
    TaskError,
>)
    requires
        old(table).wf(),
    ensures
        final(table).wf(),
        !labels(old(table)@).contains(label@) ==> res == Ok::<usize, TaskError>(1) && final(table)@
            == old(table)@.push(fresh_row(label@, now as int)),
        labels(old(table)@).contains(label@) ==> res == Err::<usize, TaskError>(
            TaskError::StorageError,
        ) && final(table)@ == old(table)@,
{
    match table.find_row(label) {
        Some(i) => {
            assert(labels(table@)[i as int] == label@);
            Err(TaskError::StorageError)
        },
        None => {
            let row = SQLTask::from_task(Task::new_at(label, now));
            proof {
                State::lemma_sql_code_is_read(State::Created);
            }
            table.rows.push(row);
            proof {
                let before = old(table)@;
                let after = table@;
                assert(after =~= before.push(fresh_row(label@, now as int)));
                assert(labels(after) =~= labels(before).push(label@));
                assert forall|i: int, j: int|
                    0 <= i < labels(after).len() && 0 <= j < labels(after).len() && i
                        != j implies labels(after)[i] != labels(after)[j] by {
                    if i < before.len() && j < before.len() {
                        assert(labels(before)[i] != labels(before)[j]);
                    } else if i < before.len() {
                        assert(labels(before)[i] != label@);
                    } else {
                        assert(labels(before)[j] != label@);
                    }
                }
                assert forall|i: int| 0 <= i < after.len() implies State::of_sql_code(
                    (#[trigger] after[i]).state,
                ) is Some by {
                    if i < before.len() {
                        assert(after[i] == before[i]);
                    }
                }
            }
            Ok(1)
        },
    }
}

/// Creates a task under `label` at the instant the clock reports, read
/// once; see `create_task_at`.
pub fn create_task(table: &mut TaskTable, label: &str) -> (res: Result<usize, TaskError>)
    requires
        old(table).wf(),
    ensures
        final(table).wf(),
        !labels(old(table)@).contains(label@) ==> res == Ok::<usize, TaskError>(1) && exists|
            now: int,
        |
            is_clock_reading(now) && final(table)@ == old(table)@.push(
                #[trigger] fresh_row(label@, now),
            ),
        labels(old(table)@).contains(label@) ==> res == Err::<usize, TaskError>(
            TaskError::StorageError,
        ) && final(table)@ == old(table)@,
{
    let now: i64 = now_timestamp();
    let res = create_task_at(table, label, now);
    proof {
        if !labels(old(table)@).contains(label@) {
            assert(is_clock_reading(now as int) && table@ == old(table)@.push(
                fresh_row(label@, now as int),
            ));
        }
    }
    res
}

/// What a deletion by label comes to, given the number of rows it removed:
/// none means that the label is not kept, one is the success, and more than
/// one, which the key rules out, is reported as a fault of the storage.
pub fn delete_outcome(input: &str, affected: usize) -> (res: Result<(), TaskError>)
    ensures
        affected == 0 ==> (res matches Err(TaskError::NotFound(label)) && label@ == input@),
        affected == 1 ==> res is Ok,
        affected > 1 ==> res == Err::<(), TaskError>(TaskError::StorageError),
{
    if affected == 0 {
        Err(TaskError::NotFound(input.to_owned()))
    } else if affected == 1 {
        Ok(())
    } else {
        Err(TaskError::StorageError)
    }
}

/// Deletes the task that is kept under `input`. Where no row carries the
/// label the table is left as it is and the label comes back in the error.
pub fn delete_task(table: &mut TaskTable, input: &str) -> (res: Result<(), TaskError>)
    requires
        old(table).wf(),
    ensures
        final(table).wf(),
        labels(old(table)@).contains(input@) ==> res is Ok && final(table)@ == old(table)@.remove(
            labels(old(table)@).index_of(input@),
        ),
        !labels(old(table)@).contains(input@) ==> final(table)@ == old(table)@ && (res matches Err(
            TaskError::NotFound(label),
        ) && label@ == input@),
{
    let affected: usize = match table.find_row(input) {
        Some(i) => {
            proof {
                lemma_place(table@, input@, i as int);
            }
            table.rows.remove(i);
            proof {
                let before = old(table)@;
                let after = table@;
                assert(after =~= before.remove(i as int));
                lemma_remove_keeps(before, i as int);
            }
            1
        },
        None => 0,
    };
    delete_outcome(input, affected)
}

/// A table stays well formed when a row is taken out.
pub proof fn lemma_remove_keeps(rows: Seq<RowView>, i: int)
    requires
        well_formed(rows),
        0 <= i < rows.len(),
    ensures
        well_formed(rows.remove(i)),
        !labels(rows.remove(i)).contains(rows[i].label),
{
    let after = rows.remove(i);
    assert forall|a: int, b: int|
        0 <= a < labels(after).len() && 0 <= b < labels(after).len() && a != b implies labels(
        after,
    )[a] != labels(after)[b] by {
        let a0 = if a < i { a } else { a + 1 };
        let b0 = if b < i { b } else { b + 1 };
        assert(labels(after)[a] == labels(rows)[a0]);
        assert(labels(after)[b] == labels(rows)[b0]);
    }
    assert forall|a: int| 0 <= a < after.len() implies State::of_sql_code(
        (#[trigger] after[a]).state,
    ) is Some by {
        let a0 = if a < i { a } else { a + 1 };
        assert(after[a] == rows[a0]);
    }
    assert forall|a: int| 0 <= a < labels(after).len() implies labels(after)[a]
        != rows[i].label by {
        let a0 = if a < i { a } else { a + 1 };
        assert(labels(after)[a] == labels(rows)[a0]);
        assert(labels(rows)[i] == rows[i].label);
    }
}

/// The row with another state.
pub open spec fn restated(row: RowView, state: State) -> RowView {
    RowView { state: state.sql_code(), ..row }
}

/// Sets the state of the task that is kept under `input`; nothing else of
/// the row changes. Where no row carries the label the table is left as it
/// is and the label comes back in the error.
pub fn set_task_state(table: &mut TaskTable, input: &str, state: State) -> (res: Result<
    (),
    TaskError,
>)
    requires
        old(table).wf(),
    ensures
        final(table).wf(),
        labels(old(table)@).contains(input@) ==> res is Ok && final(table)@ == old(table)@.update(
            labels(old(table)@).index_of(input@),
            restated(old(table)@[labels(old(table)@).index_of(input@)], state),
        ),
        !labels(old(table)@).contains(input@) ==> final(table)@ == old(table)@ && (res matches Err(
            TaskError::NotFound(label),
        ) && label@ == input@),
{
    match table.find_row(input) {
        Some(i) => {
            proof {
                lemma_place(table@, input@, i as int);
                State::lemma_sql_code_is_read(state);
            }
            let code = state.to_sql().to_owned();
            table.rows[i].state = code;
            proof {
                let before = old(table)@;
                let after = table@;
                assert(after =~= before.update(i as int, restated(before[i as int], state)));
                assert(labels(after) =~= labels(before));
                assert forall|a: int| 0 <= a < after.len() implies State::of_sql_code(
                    (#[trigger] after[a]).state,
                ) is Some by {
                    if a != i {
                        assert(after[a] == before[a]);
                    }
                }
            }
            Ok(())
        },
        None => Err(TaskError::NotFound(input.to_owned())),
    }
}

/// Changes the state of the task that is kept under `input` to the one
/// that the order `new_state` asks for. The order is read first, as
/// `State::from_str` reads it: one that is no order is refused, whatever the
/// label, and comes back in the error. Then the state is set as
/// `set_task_state` sets it.
pub fn change_task_state(table: &mut TaskTable, input: &str, new_state: &str) -> (res: Result<
    (),
    TaskError,
>)
    requires
        old(table).wf(),
    ensures
        final(table).wf(),
        match State::of_order(lowercase_of(new_state@)) {
            None => final(table)@ == old(table)@ && (res matches Err(
                TaskError::InvalidStateCode(token),
            ) && token@ == new_state@),
            Some(state) => if labels(old(table)@).contains(input@) {
                res is Ok && final(table)@ == old(table)@.update(
                    labels(old(table)@).index_of(input@),
                    restated(old(table)@[labels(old(table)@).index_of(input@)], state),
                )
            } else {
                final(table)@ == old(table)@ && (res matches Err(TaskError::NotFound(label))
                    && label@ == input@)
            },
        },
{
    match State::from_str(new_state) {
        Ok(state) => set_task_state(table, input, state),
        Err(e) => Err(e),
    }
}

/// The row under another label.
pub open spec fn relabelled(row: RowView, label: Seq<char>) -> RowView {
    RowView { label, ..row }
}

/// Gives the task that is kept under `input` the label `new_label`. Where
/// no row carries `input` the label comes back in the error; where another
/// row carries `new_label` already the key refuses the change. Either way
/// the table is then left as it is.
pub fn change_task_label(table: &mut TaskTable, input: &str, new_label: &str) -> (res: Result<
    (),
    TaskError,
>)
    requires
        old(table).wf(),
    ensures
        final(table).wf(),
        !labels(old(table)@).contains(input@) ==> final(table)@ == old(table)@ && (res matches Err(
            TaskError::NotFound(label),
        ) && label@ == input@),
        labels(old(table)@).contains(input@) && new_label@ != input@ && labels(
            old(table)@,
        ).contains(new_label@) ==> final(table)@ == old(table)@ && res == Err::<(), TaskError>(
            TaskError::StorageError,
        ),
        labels(old(table)@).contains(input@) && (new_label@ == input@ || !labels(
            old(table)@,
        ).contains(new_label@)) ==> res is Ok && final(table)@ == old(table)@.update(
            labels(old(table)@).index_of(input@),
            relabelled(old(table)@[labels(old(table)@).index_of(input@)], new_label@),
        ),
{
    match table.find_row(input) {
        Some(i) => {
            proof {
                lemma_place(table@, input@, i as int);
            }
            if !same_text(input, new_label) {
                match table.find_row(new_label) {
                    Some(k) => {
                        assert(labels(table@)[k as int] == new_label@);
                        return Err(TaskError::StorageError);
                    },
                    None => {},
                }
            }
            let label = new_label.to_owned();
            table.rows[i].label = label;
            proof {
                let before = old(table)@;
                let after = table@;
                assert(after =~= before.update(i as int, relabelled(before[i as int], new_label@)));
                assert(labels(after) =~= labels(before).update(i as int, new_label@));
                assert forall|a: int, b: int|
                    0 <= a < labels(after).len() && 0 <= b < labels(after).len() && a
                        != b implies labels(after)[a] != labels(after)[b] by {
                    if a == i {
                        assert(labels(before)[b] != labels(before)[i as int]);
                    } else if b == i {
                        assert(labels(before)[a] != labels(before)[i as int]);
                    } else {
                        assert(labels(before)[a] != labels(before)[b]);
                    }
                }
                assert forall|a: int| 0 <= a < after.len() implies State::of_sql_code(
                    (#[trigger] after[a]).state,
                ) is Some by {
                    assert(after[a].state == before[a].state);
                }
            }
            Ok(())
        },
        None => Err(TaskError::NotFound(input.to_owned())),
    }
}

/// Whether a row is due for cleaning at `now`: its task has ended, and
/// ended before `now`.
pub open spec fn is_expired(row: RowView, now: int) -> bool {
    row.state == State::Ended.sql_code() && row.end_dt < now
}

/// The test that keeps the rows which are not due for cleaning at `now`.
pub open spec fn kept_at(now: int) -> spec_fn(RowView) -> bool {
    |row: RowView| !is_expired(row, now)
}

/// The test that picks the rows whose state is the code `code`.
pub open spec fn in_state(code: Seq<char>) -> spec_fn(RowView) -> bool {
    |row: RowView| row.state == code
}

/// A table stays well formed when rows are picked from it.
pub proof fn lemma_filter_keeps(rows: Seq<RowView>, test: spec_fn(RowView) -> bool)
    requires
        well_formed(rows),
    ensures
        well_formed(rows.filter(test)),
        forall|label: Seq<char>| #[trigger]
            labels(rows.filter(test)).contains(label) ==> labels(rows).contains(label),
    decreases rows.len(),
{
    reveal(Seq::filter);
    let picked = rows.filter(test);
    if rows.len() == 0 {
        assert(picked =~= rows);
    } else {
        let front = rows.drop_last();
        let last = rows.last();
        assert(well_formed(front)) by {
            assert forall|a: int, b: int|
                0 <= a < labels(front).len() && 0 <= b < labels(front).len() && a
                    != b implies labels(front)[a] != labels(front)[b] by {
                assert(labels(front)[a] == labels(rows)[a]);
                assert(labels(front)[b] == labels(rows)[b]);
            }
            assert forall|a: int| 0 <= a < front.len() implies State::of_sql_code(
                (#[trigger] front[a]).state,
            ) is Some by {
                assert(front[a] == rows[a]);
            }
        }
        lemma_filter_keeps(front, test);
        let sub = front.filter(test);
        assert forall|label: Seq<char>| #[trigger]
            labels(sub).contains(label) implies labels(rows).contains(label) by {
            assert(labels(front).contains(label));
            let a = labels(front).index_of(label);
            assert(labels(rows)[a] == label);
        }
        if test(last) {
            assert(picked == sub.push(last));
            assert(labels(picked) =~= labels(sub).push(last.label));
            assert(!labels(sub).contains(last.label)) by {
                if labels(sub).contains(last.label) {
                    assert(labels(front).contains(last.label));
                    let a = labels(front).index_of(last.label);
                    assert(labels(rows)[a] == last.label);
                    assert(labels(rows)[rows.len() - 1] == last.label);
                }
            }
            assert forall|a: int, b: int|
                0 <= a < labels(picked).len() && 0 <= b < labels(picked).len() && a
                    != b implies labels(picked)[a] != labels(picked)[b] by {
                if a < sub.len() && b < sub.len() {
                    assert(labels(sub)[a] != labels(sub)[b]);
                } else if a < sub.len() {
                    assert(labels(sub)[a] == labels(picked)[a]);
                } else {
                    assert(labels(sub)[b] == labels(picked)[b]);
                }
            }
            assert forall|a: int| 0 <= a < picked.len() implies State::of_sql_code(
                (#[trigger] picked[a]).state,
            ) is Some by {
                if a < sub.len() {
                    assert(picked[a] == sub[a]);
                } else {
                    assert(picked[a] == rows[rows.len() - 1]);
                }
            }
            assert forall|label: Seq<char>| #[trigger]
                labels(picked).contains(label) implies labels(rows).contains(label) by {
                let a = labels(picked).index_of(label);
                if a < sub.len() {
                    assert(labels(sub)[a] == label);
                    assert(labels(sub).contains(label));
                } else {
                    assert(labels(rows)[rows.len() - 1] == label);
                }
            }
        } else {
            assert(picked == sub);
        }
    }
}

/// Deletes the tasks that have ended before `now` and returns how many
/// they were. Every other row stays, in its place among those that stay.
pub fn clean_tasks_at(table: &mut TaskTable, now: i64) -> (deleted: usize)
    requires
        old(table).wf(),
    ensures
        final(table).wf(),
        final(table)@ == old(table)@.filter(kept_at(now as int)),
        deleted == old(table)@.len() - final(table)@.len(),
{
    let mut kept: Vec<SQLTask> = Vec::new();
    let mut i: usize = 0;
    let n: usize = table.rows.len();
    proof {
        reveal(Seq::filter);
        assert(table@.take(0) =~= Seq::<RowView>::empty());
        assert(row_views(kept@) =~= table@.take(0).filter(kept_at(now as int)));
    }
    while i < n
        invariant
            n == table.rows.len(),
            *table == *old(table),
            i <= n,
            row_views(kept@) == table@.take(i as int).filter(kept_at(now as int)),
        decreases n - i,
    {
        let row = &table.rows[i];
        let expired = same_text(row.state.as_str(), State::Ended.to_sql()) && (row.end_dt as i64)
            < now;
        proof {
            let front = table@.take(i as int);
            assert(table@.take(i + 1) =~= front.push(table@[i as int]));
            Seq::lemma_filter_push(front, table@[i as int], kept_at(now as int));
            assert(expired == is_expired(table@[i as int], now as int));
        }
        if !expired {
            let copy = row.duplicate();
            kept.push(copy);
            assert(row_views(kept@) =~= table@.take(i + 1).filter(kept_at(now as int)));
        }
        i += 1;
    }
    proof {
        assert(table@.take(n as int) =~= table@);
        lemma_filter_keeps(table@, kept_at(now as int));
        table@.lemma_filter_len(kept_at(now as int));
    }
    let deleted: usize = n - kept.len();
    table.rows = kept;
    deleted
}

/// Deletes the tasks that have ended before the instant the clock reports,
/// read once; see `clean_tasks_at`.
pub fn clean_tasks(table: &mut TaskTable) -> (deleted: usize)
    requires
        old(table).wf(),
    ensures
        final(table).wf(),
        exists|now: int|
            is_clock_reading(now) && final(table)@ == old(table)@.filter(#[trigger] kept_at(now)),
        deleted == old(table)@.len() - final(table)@.len(),
{
    let now: i64 = now_timestamp();
    let deleted = clean_tasks_at(table, now);
    assert(is_clock_reading(now as int) && table@ == old(table)@.filter(kept_at(now as int)));
    deleted
}

/// Lists the tasks whose stored state is the code `criteria`, in the order
/// of their rows. Nothing is returned where there is none.
pub fn get_task_with_state(table: &TaskTable, criteria: &str) -> (res: Option<Vec<Task>>)
    requires
        table.wf(),
    ensures
        match res {
            Some(tasks) => tasks@.len() > 0 && task_views(tasks@) == stored_tasks(
                table@.filter(in_state(criteria@)),
            ),
            None => table@.filter(in_state(criteria@)).len() == 0,
        },
{
    let mut tasks: Vec<Task> = Vec::new();
    let mut i: usize = 0;
    let n: usize = table.rows.len();
    proof {
        reveal(Seq::filter);
        assert(table@.take(0) =~= Seq::<RowView>::empty());
        assert(task_views(tasks@) =~= stored_tasks(table@.take(0).filter(in_state(criteria@))));
    }
    while i < n
        invariant
            n == table.rows.len(),
            table.wf(),
            i <= n,
            task_views(tasks@) == stored_tasks(table@.take(i as int).filter(in_state(criteria@))),
        decreases n - i,
    {
        let row = &table.rows[i];
        proof {
            let front = table@.take(i as int);
            assert(table@.take(i + 1) =~= front.push(table@[i as int]));
            Seq::lemma_filter_push(front, table@[i as int], in_state(criteria@));
        }
        assert(row@ == table@[i as int]);
        if same_text(row.state.as_str(), criteria) {
            match row.as_task() {
                Ok(task) => {
                    let ghost before = tasks@;
                    tasks.push(task);
                    proof {
                        let hits = table@.take(i as int).filter(in_state(criteria@));
                        assert(table@.take(i + 1).filter(in_state(criteria@)) == hits.push(
                            table@[i as int],
                        ));
                        assert(task_views(tasks@) =~= task_views(before).push(task@));
                        assert(stored_tasks(hits.push(table@[i as int])) =~= stored_tasks(
                            hits,
                        ).push(task@));
                    }
                },
                Err(_) => {
                    assert(false);
                },
            }
        }
        i += 1;
    }
    proof {
        assert(table@.take(n as int) =~= table@);
    }
    if tasks.len() == 0 {
        None
    } else {
        Some(tasks)
    }
}

/// Whether the tasks stand with the one created last first.
pub open spec fn newest_first(tasks: Seq<TaskView>) -> bool {
    forall|i: int, j: int| 0 <= i < j < tasks.len() ==> tasks[i].created_on >= tasks[j].created_on
}

/// Lists all tasks, the one created last first. Tasks created in the same
/// second stand in either order. Nothing is returned for an empty table.
pub fn get_tasks(table: &TaskTable) -> (res: Option<Vec<Task>>)
    requires
        table.wf(),
    ensures
        match res {
            Some(tasks) => table@.len() > 0 && newest_first(task_views(tasks@)) && task_views(
                tasks@,
            ).to_multiset() == stored_tasks(table@).to_multiset(),
            None => table@.len() == 0,
        },
{
    let mut tasks: Vec<Task> = Vec::new();
    let mut i: usize = 0;
    let n: usize = table.rows.len();
    proof {
        assert(table@.take(0) =~= Seq::<RowView>::empty());
        assert(task_views(tasks@) =~= stored_tasks(table@.take(0)));
    }
    while i < n
        invariant
            n == table.rows.len(),
            table.wf(),
            i <= n,
            tasks@.len() == i,
            newest_first(task_views(tasks@)),
            task_views(tasks@).to_multiset() == stored_tasks(table@.take(i as int)).to_multiset(),
        decreases n - i,
    {
        assert(table.rows[i as int]@ == table@[i as int]);
        match table.rows[i].as_task() {
            Ok(task) => {
                let mut k: usize = 0;
                while k < tasks.len() && tasks[k].created_on >= task.created_on
                    invariant
                        k <= tasks.len(),
                        forall|a: int| 0 <= a < k ==> tasks@[a].created_on >= task.created_on,
                    decreases tasks.len() - k,
                {
                    k += 1;
                }
                let ghost before = tasks@;
                let ghost added = task@;
                tasks.insert(k, task);
                proof {
                    let front = table@.take(i as int);
                    assert(table@.take(i + 1) =~= front.push(table@[i as int]));
                    assert(stored_tasks(table@.take(i + 1)) =~= stored_tasks(front).push(added));
                    assert(task_views(tasks@) =~= task_views(before).insert(k as int, added));
                    vstd::seq_lib::to_multiset_insert(task_views(before), k as int, added);
                    vstd::seq_lib::to_multiset_build(stored_tasks(front), added);
                    let sorted = task_views(before);
                    let grown = task_views(tasks@);
                    assert forall|a: int, b: int|
                        0 <= a < b < grown.len() implies grown[a].created_on
                        >= grown[b].created_on by {
                        let a0 = if a < k { a } else { a - 1 };
                        let b0 = if b < k { b } else { b - 1 };
                        if a != k && b != k {
                            assert(grown[a] == sorted[a0] && grown[b] == sorted[b0]);
                            assert(sorted[a0].created_on >= sorted[b0].created_on);
                        } else if a == k {
                            assert(grown[b] == sorted[b0]);
                            assert(sorted[k as int] == before[k as int]@);
                            if b0 > k {
                                assert(sorted[k as int].created_on >= sorted[b0].created_on);
                            }
                        } else {
                            assert(grown[a] == sorted[a0]);
                            assert(sorted[a0] == before[a0]@);
                        }
                    }
                }
            },
            Err(_) => {
                assert(false);
            },
        }
        i += 1;
    }
    proof {
        assert(table@.take(n as int) =~= table@);
    }
    if tasks.len() == 0 {
        None
    } else {
        Some(tasks)
    }
}

} // verus!
