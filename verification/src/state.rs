//! The life-cycle state of a task and its three vocabularies: a one-letter
//! tag, the order words a user types, and the codes kept in storage.

use vstd::prelude::*;
use vstd::string::*;
use crate::error::TaskError;
use crate::text::{lowercase, lowercase_of, same_text};

verus! {

/// Where a task stands in its life cycle.
#[derive(Clone, Copy, Debug, PartialEq, Eq, Structural)]
pub enum State {
    Created,
    Started,
    Paused,
    Ended,
}

/// How a renderer may set off a task in a given state.
#[derive(Clone, Copy, Debug, PartialEq, Eq, Structural)]
pub enum Style {
    Plain,
    Yellow,
    Blue,
}

impl State {
    /// The one-letter tag of the state.
    pub open spec fn tag(self) -> char {
        match self {
            State::Created => 'C',
            State::Started => 'S',
            State::Paused => 'P',
            State::Ended => 'E',
        }
    }

    /// The order word that leads to the state.
    pub open spec fn order_word(self) -> Seq<char> {
        match self {
            State::Created => "create"@,
            State::Started => "start"@,
            State::Paused => "pause"@,
            State::Ended => "end"@,
        }
    }

    /// The code under which the state is kept in storage.
    pub open spec fn sql_code(self) -> Seq<char> {
        match self {
            State::Created => "created"@,
            State::Started => "started"@,
            State::Paused => "paused"@,
            State::Ended => "ended"@,
        }
    }

    /// The style that sets the state off.
    pub open spec fn style_of(self) -> Style {
        match self {
            State::Created => Style::Plain,
            State::Started => Style::Yellow,
            State::Paused => Style::Blue,
            State::Ended => Style::Yellow,
        }
    }

    /// Whether a task in this state may be brought to `target`: a created
    /// or paused task may be started, a started task may be paused, a
    /// started or paused task may be ended. Nothing leads back to the
    /// created state, and nothing leads on from the ended state.
    pub open spec fn leads_to(self, target: State) -> bool {
        match target {
            State::Created => false,
            State::Started => self == State::Created || self == State::Paused,
            State::Paused => self == State::Started,
            State::Ended => self == State::Started || self == State::Paused,
        }
    }

    /// The state that a storage code stands for, if it is one.
    pub open spec fn of_sql_code(code: Seq<char>) -> Option<State> {
        if code == "created"@ {
            Some(State::Created)
        } else if code == "started"@ {
            Some(State::Started)
        } else if code == "paused"@ {
            Some(State::Paused)
        } else if code == "ended"@ {
            Some(State::Ended)
        } else {
            None
        }
    }

    /// The state that a lower-case order token asks for, if it is one: an
    /// order word or its first letter.
    pub open spec fn of_order(token: Seq<char>) -> Option<State> {
        if token == "create"@ || token == "c"@ {
            Some(State::Created)
        } else if token == "start"@ || token == "s"@ {
            Some(State::Started)
        } else if token == "pause"@ || token == "p"@ {
            Some(State::Paused)
        } else if token == "end"@ || token == "e"@ {
            Some(State::Ended)
        } else {
            None
        }
    }

    /// Returns the one-letter tag of the state.
    pub fn to_char(&self) -> (c: char)
        ensures
            c == self.tag(),
    {
        match self {
            State::Created => 'C',
            State::Started => 'S',
            State::Paused => 'P',
            State::Ended => 'E',
        }
    }

    /// Returns the order word that leads to the state.
    pub fn to_order(&self) -> (word: &'static str)
        ensures
            word@ == self.order_word(),
    {
        match self {
            State::Created => "create",
            State::Started => "start",
            State::Paused => "pause",
            State::Ended => "end",
        }
    }

    /// Returns the code under which the state is kept in storage.
    pub fn to_sql(&self) -> (code: &'static str)
        ensures
            code@ == self.sql_code(),
    {
        match self {
            State::Created => "created",
            State::Started => "started",
            State::Paused => "paused",
            State::Ended => "ended",
        }
    }

    /// Returns the style that sets the state off.
    pub fn style(&self) -> (style: Style)
        ensures
            style == self.style_of(),
    {
        match self {
            State::Created => Style::Plain,
            State::Started => Style::Yellow,
            State::Paused => Style::Blue,
            State::Ended => Style::Yellow,
        }
    }

    /// Tells whether a task in this state may be brought to `target`.
    pub fn may_lead_to(&self, target: State) -> (ok: bool)
        ensures
            ok == self.leads_to(target),
    {
        match target {
            State::Created => false,
            State::Started => match self {
                State::Created | State::Paused => true,
                _ => false,
            },
            State::Paused => match self {
                State::Started => true,
                _ => false,
            },
            State::Ended => match self {
                State::Started | State::Paused => true,
                _ => false,
            },
        }
    }

    /// Reads a storage code. The match is exact: case counts, and nothing
    /// but the four codes is taken. Any other text comes back in the error.
    pub fn from_sql(input: &str) -> (res: Result<State, TaskError>)
        ensures
            match State::of_sql_code(input@) {
                Some(state) => res == Ok::<State, TaskError>(state),
                None => res matches Err(TaskError::InvalidStateCode(token)) && token@ == input@,
            },
    {
        if same_text(input, "created") {
            Ok(State::Created)
        } else if same_text(input, "started") {
            Ok(State::Started)
        } else if same_text(input, "paused") {
            Ok(State::Paused)
        } else if same_text(input, "ended") {
            Ok(State::Ended)
        } else {
            Err(TaskError::InvalidStateCode(input.to_owned()))
        }
    }

    /// Reads a lower-case order token: one of the four order words or its
    /// first letter.
    pub fn from_order(token: &str) -> (res: Option<State>)
        ensures
            res == State::of_order(token@),
    {
        if same_text(token, "create") || same_text(token, "c") {
            Some(State::Created)
        } else if same_text(token, "start") || same_text(token, "s") {
            Some(State::Started)
        } else if same_text(token, "pause") || same_text(token, "p") {
            Some(State::Paused)
        } else if same_text(token, "end") || same_text(token, "e") {
            Some(State::Ended)
        } else {
            None
        }
    }

    /// Reads an order as a user types it, whatever its case: the input is
    /// lower-cased and then read as an order token. An input that is no
    /// order comes back, as it was typed, in the error.
    pub fn from_str(input: &str) -> (res: Result<State, TaskError>)
        ensures
            match State::of_order(lowercase_of(input@)) {
                Some(state) => res == Ok::<State, TaskError>(state),
                None => res matches Err(TaskError::InvalidStateCode(token)) && token@ == input@,
            },
    {
        let low = lowercase(input);
        match State::from_order(low.as_str()) {
            Some(state) => Ok(state),
            None => Err(TaskError::InvalidStateCode(input.to_owned())),
        }
    }

    /// Every state is read back from its own storage code.
    pub proof fn lemma_sql_code_is_read(state: State)
        ensures
            State::of_sql_code(state.sql_code()) == Some(state),
    {
        reveal_strlit("created");
        reveal_strlit("started");
        reveal_strlit("paused");
        reveal_strlit("ended");
        assert("created"@.len() == 7 && "started"@.len() == 7 && "paused"@.len() == 6
            && "ended"@.len() == 5);
        assert("created"@[0] == 'c' && "started"@[0] == 's');
    }

    /// A text that is read as a storage code is the code of the state it is
    /// read as.
    pub proof fn lemma_code_is_written(code: Seq<char>)
        requires
            State::of_sql_code(code) is Some,
        ensures
            State::of_sql_code(code).unwrap().sql_code() == code,
    {
        State::lemma_sql_code_is_read(State::Created);
        State::lemma_sql_code_is_read(State::Started);
        State::lemma_sql_code_is_read(State::Paused);
        State::lemma_sql_code_is_read(State::Ended);
    }

    /// Every state is read back from its own order word.
    pub proof fn lemma_order_word_is_read(state: State)
        ensures
            State::of_order(state.order_word()) == Some(state),
    {
        reveal_strlit("create");
        reveal_strlit("start");
        reveal_strlit("pause");
        reveal_strlit("end");
        reveal_strlit("c");
        reveal_strlit("s");
        reveal_strlit("p");
        reveal_strlit("e");
        assert("create"@.len() == 6 && "start"@.len() == 5 && "pause"@.len() == 5 && "end"@.len()
            == 3);
        assert("start"@[0] == 's' && "pause"@[0] == 'p');
    }

    /// The two vocabularies are apart: no storage code is read as an order,
    /// and no order word is read as a storage code.
    pub proof fn lemma_vocabularies_apart(state: State)
        ensures
            State::of_order(state.sql_code()) is None,
            State::of_sql_code(state.order_word()) is None,
    {
        reveal_strlit("create");
        reveal_strlit("start");
        reveal_strlit("pause");
        reveal_strlit("end");
        reveal_strlit("c");
        reveal_strlit("s");
        reveal_strlit("p");
        reveal_strlit("e");
        reveal_strlit("created");
        reveal_strlit("started");
        reveal_strlit("paused");
        reveal_strlit("ended");
        assert("create"@.len() == 6 && "start"@.len() == 5 && "pause"@.len() == 5 && "end"@.len()
            == 3);
        assert("created"@.len() == 7 && "started"@.len() == 7 && "paused"@.len() == 6
            && "ended"@.len() == 5);
        assert("c"@.len() == 1 && "s"@.len() == 1 && "p"@.len() == 1 && "e"@.len() == 1);
        assert("paused"@[0] == 'p' && "create"@[0] == 'c' && "ended"@[0] == 'e' && "pause"@[0]
            == 'p' && "start"@[0] == 's');
    }
}

} // verus!
