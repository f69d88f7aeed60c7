//! A task and its life cycle: created, started, paused and ended, with the
//! time spent in the started state added up across intervals.

use vstd::prelude::*;
use vstd::string::*;
use crate::clock::{
    is_clock_reading, is_printable, local_text, now_timestamp, rfc2822_text, CLOCK_MAX, PRINT_MAX,
    PRINT_MIN,
};
use crate::error::TaskError;
use crate::readable::{readable, time_to_readable};
use crate::state::State;

verus! {

/// A named unit of tracked time.
#[derive(Debug, Clone, PartialEq, Eq)]
pub struct Task {
    /// The name that identifies the task.
    pub label: String,
    /// The seconds already spent in closed intervals.
    pub time: i64,
    /// The instant of creation.
    pub created_on: i64,
    /// The instant at which the task was last started.
    pub begin_dt: i64,
    /// The instant at which the task was last paused or ended.
    pub end_dt: i64,
    /// Where the task stands in its life cycle.
    pub state: State,
}

/// A task as the contracts see it: its label as a sequence of characters,
/// its times as unbounded integers.
pub struct TaskView {
    pub label: Seq<char>,
    pub time: int,
    pub created_on: int,
    pub begin_dt: int,
    pub end_dt: int,
    pub state: State,
}

impl View for Task {
    type V = TaskView;

    open spec fn view(&self) -> TaskView {
        TaskView {
            label: self.label@,
            time: self.time as int,
            created_on: self.created_on as int,
            begin_dt: self.begin_dt as int,
            end_dt: self.end_dt as int,
            state: self.state,
        }
    }
}

impl TaskView {
    /// The task that is created under `label` at `now`.
    pub open spec fn fresh(label: Seq<char>, now: int) -> TaskView {
        TaskView {
            label,
            time: 0,
            created_on: now,
            begin_dt: now,
            end_dt: now,
            state: State::Created,
        }
    }

    /// The length of the interval that is open since the last start, were it
    /// closed at `now`.
    pub open spec fn open_interval(self, now: int) -> int {
        now - self.begin_dt
    }

    /// Whether the interval that is open, if one is, can be closed at `now`
    /// with every number fitting in 64 bits.
    pub open spec fn closes_at(self, now: int) -> bool {
        self.state == State::Started ==> {
            &&& i64::MIN <= self.open_interval(now) <= i64::MAX
            &&& i64::MIN <= self.time + self.open_interval(now) <= i64::MAX
        }
    }

    /// Whether the open interval, if one is, can be closed at whatever
    /// instant the clock reports.
    pub open spec fn closes_by_clock(self) -> bool {
        self.closes_at(0) && self.closes_at(CLOCK_MAX as int)
    }

    /// The time spent on the task as seen at `now`: what closed intervals
    /// add up to, and the open interval on top while the task is started.
    pub open spec fn elapsed(self, now: int) -> int {
        if self.state == State::Started {
            self.time + self.open_interval(now)
        } else {
            self.time
        }
    }

    /// The line that describes the task: its tag in brackets, its label,
    /// the readable form of `elapsed` in parentheses and the text `begun` of
    /// its last start; an ended task adds the text `ended` of its end.
    pub open spec fn described(self, elapsed: int, begun: Seq<char>, ended: Seq<char>) -> Seq<
        char,
    > {
        let head = seq!['[', self.state.tag(), ']', ' '] + self.label + " ("@ + readable(elapsed)
            + ")"@ + " created on "@ + begun;
        if self.state == State::Ended {
            head + " and ended on "@ + ended
        } else {
            head
        }
    }

    /// Whether the task can be described by the clock: its open interval, if
    /// one is, can be closed at whatever instant the clock reports, the
    /// instant of its last start can be rendered, and so can the instant of
    /// its end if it has ended.
    pub open spec fn describable(self) -> bool {
        &&& self.closes_by_clock()
        &&& is_printable(self.begin_dt)
        &&& self.state == State::Ended ==> is_printable(self.end_dt)
    }

    /// Whether the task may be started.
    pub open spec fn can_start(self) -> bool {
        self.state.leads_to(State::Started)
    }

    /// Whether the task may be paused.
    pub open spec fn can_pause(self) -> bool {
        self.state.leads_to(State::Paused)
    }

    /// Whether the task may be ended.
    pub open spec fn can_end(self) -> bool {
        self.state.leads_to(State::Ended)
    }

    /// The task after a start at `now`: a new interval opens.
    pub open spec fn started(self, now: int) -> TaskView {
        TaskView { begin_dt: now, state: State::Started, ..self }
    }

    /// The task after a pause at `now`: the open interval is closed and
    /// added to the time.
    pub open spec fn paused(self, now: int) -> TaskView {
        TaskView { end_dt: now, time: self.elapsed(now), state: State::Paused, ..self }
    }

    /// The task after its end at `now`: an open interval is closed and added
    /// to the time; a paused task keeps its time.
    pub open spec fn ended(self, now: int) -> TaskView {
        TaskView { end_dt: now, time: self.elapsed(now), state: State::Ended, ..self }
    }
}

impl Task {
    /// Creates the task `label` at `now`: no time spent, every instant of
    /// the task equal to `now`.
    pub fn new_at(label: &str, now: i64) -> (task: Task)
        ensures
            task@ == TaskView::fresh(label@, now as int),
    {
        Task {
            label: label.to_owned(),
            time: 0,
            created_on: now,
            begin_dt: now,
            end_dt: now,
            state: State::Created,
        }
    }

    /// Creates the task `label` at the instant the clock reports, read once.
    pub fn new(label: &str) -> (task: Task)
        ensures
            is_clock_reading(task@.created_on),
            task@ == TaskView::fresh(label@, task@.created_on),
    {
        let now: i64 = now_timestamp();
        Task::new_at(label, now)
    }

    /// Tells whether the task may be started: it is created or paused.
    pub fn can_start(&self) -> (ok: bool)
        ensures
            ok == self@.can_start(),
    {
        self.state.may_lead_to(State::Started)
    }

    /// Tells whether the task may be paused: it is started.
    pub fn can_pause(&self) -> (ok: bool)
        ensures
            ok == self@.can_pause(),
    {
        self.state.may_lead_to(State::Paused)
    }

    /// Tells whether the task may be ended: it is started or paused.
    pub fn can_end(&self) -> (ok: bool)
        ensures
            ok == self@.can_end(),
    {
        self.state.may_lead_to(State::Ended)
    }

    /// Tells whether the interval that is open, if one is, can be closed at
    /// `now` with every number fitting in 64 bits.
    pub fn may_close_at(&self, now: i64) -> (ok: bool)
        ensures
            ok == self@.closes_at(now as int),
    {
        match self.state {
            State::Started => match now.checked_sub(self.begin_dt) {
                Some(interval) => self.time.checked_add(interval).is_some(),
                None => false,
            },
            _ => true,
        }
    }

    /// Tells whether the open interval, if one is, can be closed at whatever
    /// instant the clock reports.
    pub fn may_close_by_clock(&self) -> (ok: bool)
        ensures
            ok == self@.closes_by_clock(),
    {
        self.may_close_at(0) && self.may_close_at(CLOCK_MAX)
    }

    /// Tells whether the task can be described by the clock: whether its
    /// open interval can be closed at whatever instant the clock reports,
    /// and the instants that the description shows can be rendered.
    pub fn may_be_described(&self) -> (ok: bool)
        ensures
            ok == self@.describable(),
    {
        self.may_close_by_clock() && PRINT_MIN <= self.begin_dt && self.begin_dt <= PRINT_MAX && (
        match self.state {
            State::Ended => PRINT_MIN <= self.end_dt && self.end_dt <= PRINT_MAX,
            _ => true,
        })
    }

    /// The time spent on the task as seen at `now`, in seconds: the time of
    /// its closed intervals and, while it is started, the interval open
    /// since `begin_dt`.
    pub fn ellapsed_time_at(&self, now: i64) -> (seconds: i64)
        requires
            self@.closes_at(now as int),
        ensures
            seconds == self@.elapsed(now as int),
    {
        match self.state {
            State::Started => {
                let interval: i64 = now - self.begin_dt;
                self.time + interval
            },
            _ => self.time,
        }
    }

    /// The time spent on the task as seen now, in seconds. The clock is read
    /// afresh at every call while the task is started: the result is the
    /// elapsed time at some instant the clock can report.
    pub fn ellapsed_time(&self) -> (seconds: i64)
        requires
            self@.closes_by_clock(),
        ensures
            self@.state != State::Started ==> seconds == self@.time,
            exists|now: int| is_clock_reading(now) && seconds == #[trigger] self@.elapsed(now),
    {
        let now: i64 = now_timestamp();
        let seconds: i64 = self.ellapsed_time_at(now);
        assert(is_clock_reading(now as int) && seconds == self@.elapsed(now as int));
        seconds
    }

    /// Starts the task at `now`: a created or paused task opens a new
    /// interval there. A task that is started or ended is left as it is and
    /// the operation refused.
    pub fn start_at(&mut self, now: i64) -> (res: Result<(), TaskError>)
        ensures
            old(self)@.can_start() ==> res is Ok && final(self)@ == old(self)@.started(now as int),
            !old(self)@.can_start() ==> res == Err::<(), TaskError>(
                TaskError::InvalidTransition(old(self).state),
            ) && *final(self) == *old(self),
    {
        match self.state {
            State::Created | State::Paused => {
                self.begin_dt = now;
                self.state = State::Started;
                Ok(())
            },
            _ => Err(TaskError::InvalidTransition(self.state)),
        }
    }

    /// Starts the task at the instant the clock reports; see `start_at`. The
    /// clock is read once, and the instant it gave is the task's `begin_dt`
    /// afterwards.
    pub fn start(&mut self) -> (res: Result<(), TaskError>)
        ensures
            old(self)@.can_start() ==> res is Ok && is_clock_reading(final(self)@.begin_dt)
                && final(self)@ == old(self)@.started(final(self)@.begin_dt),
            !old(self)@.can_start() ==> res == Err::<(), TaskError>(
                TaskError::InvalidTransition(old(self).state),
            ) && *final(self) == *old(self),
    {
        let now: i64 = now_timestamp();
        self.start_at(now)
    }

    /// Pauses the task at `now`: a started task has its open interval closed
    /// and added to its time. A task in any other state is left as it is and
    /// the operation refused.
    pub fn pause_at(&mut self, now: i64) -> (res: Result<(), TaskError>)
        requires
            old(self)@.closes_at(now as int),
        ensures
            old(self)@.can_pause() ==> res is Ok && final(self)@ == old(self)@.paused(now as int),
            !old(self)@.can_pause() ==> res == Err::<(), TaskError>(
                TaskError::InvalidTransition(old(self).state),
            ) && *final(self) == *old(self),
    {
        match self.state {
            State::Started => {
                let interval: i64 = now - self.begin_dt;
                self.end_dt = now;
                self.time = self.time + interval;
                self.state = State::Paused;
                Ok(())
            },
            _ => Err(TaskError::InvalidTransition(self.state)),
        }
    }

    /// Pauses the task at the instant the clock reports; see `pause_at`. The
    /// clock is read once, and the instant it gave is the task's `end_dt`
    /// afterwards.
    pub fn pause(&mut self) -> (res: Result<(), TaskError>)
        requires
            old(self)@.closes_by_clock(),
        ensures
            old(self)@.can_pause() ==> res is Ok && is_clock_reading(final(self)@.end_dt)
                && final(self)@ == old(self)@.paused(final(self)@.end_dt),
            !old(self)@.can_pause() ==> res == Err::<(), TaskError>(
                TaskError::InvalidTransition(old(self).state),
            ) && *final(self) == *old(self),
    {
        let now: i64 = now_timestamp();
        self.pause_at(now)
    }

    /// Ends the task at `now`. A started task has its open interval closed
    /// and added to its time; a paused task keeps its time. A task that is
    /// only created or already ended is left as it is and the operation
    /// refused.
    pub fn end_at(&mut self, now: i64) -> (res: Result<(), TaskError>)
        requires
            old(self)@.closes_at(now as int),
        ensures
            old(self)@.can_end() ==> res is Ok && final(self)@ == old(self)@.ended(now as int),
            !old(self)@.can_end() ==> res == Err::<(), TaskError>(
                TaskError::InvalidTransition(old(self).state),
            ) && *final(self) == *old(self),
    {
        match self.state {
            State::Started => {
                let interval: i64 = now - self.begin_dt;
                self.end_dt = now;
                self.time = self.time + interval;
                self.state = State::Ended;
                Ok(())
            },
            State::Paused => {
                self.end_dt = now;
                self.state = State::Ended;
                Ok(())
            },
            _ => Err(TaskError::InvalidTransition(self.state)),
        }
    }

    /// Ends the task at the instant the clock reports; see `end_at`. The
    /// clock is read once, and the instant it gave is the task's `end_dt`
    /// afterwards.
    pub fn end(&mut self) -> (res: Result<(), TaskError>)
        requires
            old(self)@.closes_by_clock(),
        ensures
            old(self)@.can_end() ==> res is Ok && is_clock_reading(final(self)@.end_dt)
                && final(self)@ == old(self)@.ended(final(self)@.end_dt),
            !old(self)@.can_end() ==> res == Err::<(), TaskError>(
                TaskError::InvalidTransition(old(self).state),
            ) && *final(self) == *old(self),
    {
        let now: i64 = now_timestamp();
        self.end_at(now)
    }

    /// The time spent on the task as seen at `now`, in readable form.
    pub fn readable_ellapsed_time_at(&self, now: i64) -> (text: String)
        requires
            self@.closes_at(now as int),
        ensures
            text@ == readable(self@.elapsed(now as int)),
    {
        time_to_readable(self.ellapsed_time_at(now))
    }

    /// The time spent on the task as seen now, in readable form: that of
    /// the elapsed time at some instant the clock can report.
    pub fn readable_ellapsed_time(&self) -> (text: String)
        requires
            self@.closes_by_clock(),
        ensures
            self@.state != State::Started ==> text@ == readable(self@.time),
            exists|now: int|
                is_clock_reading(now) && text@ == readable(#[trigger] self@.elapsed(now)),
    {
        let now: i64 = now_timestamp();
        let text = self.readable_ellapsed_time_at(now);
        assert(is_clock_reading(now as int) && text@ == readable(self@.elapsed(now as int)));
        text
    }

    /// Describes the task in one line, given the seconds spent on it and the
    /// texts of its last start and of its end. The text of the end is used
    /// for an ended task only.
    pub fn describe(&self, elapsed: i64, begun: &str, ended: &str) -> (line: String)
        ensures
            line@ == self@.described(elapsed as int, begun@, ended@),
    {
        proof {
            reveal_strlit("[C] ");
            reveal_strlit("[S] ");
            reveal_strlit("[P] ");
            reveal_strlit("[E] ");
        }
        let mut line = String::new();
        line.append(
            match self.state {
                State::Created => "[C] ",
                State::Started => "[S] ",
                State::Paused => "[P] ",
                State::Ended => "[E] ",
            },
        );
        assert(line@ =~= seq!['[', self.state.tag(), ']', ' ']);
        line.append(self.label.as_str());
        line.append(" (");
        let spent = time_to_readable(elapsed);
        line.append(spent.as_str());
        line.append(")");
        line.append(" created on ");
        line.append(begun);
        match self.state {
            State::Ended => {
                line.append(" and ended on ");
                line.append(ended);
            },
            _ => {},
        }
        line
    }

    /// Describes the task in one line as seen now: `describe` with the
    /// elapsed time at an instant the clock reports and with the instants of
    /// the last start and of the end rendered in the machine's time zone.
    pub fn to_text(&self) -> (line: String)
        requires
            self@.describable(),
        ensures
            exists|now: int, begun: Seq<char>, ended: Seq<char>|
                is_clock_reading(now) && line@ == #[trigger] self@.described(
                    self@.elapsed(now),
                    begun,
                    ended,
                ),
    {
        let now: i64 = now_timestamp();
        let elapsed: i64 = self.ellapsed_time_at(now);
        let begun = rfc2822_text(self.begin_dt);
        let ended = match self.state {
            State::Ended => local_text(self.end_dt),
            _ => String::new(),
        };
        let line = self.describe(elapsed, begun.as_str(), ended.as_str());
        assert(is_clock_reading(now as int) && line@ == self@.described(
            self@.elapsed(now as int),
            begun@,
            ended@,
        ));
        line
    }
}

} // verus!
