use clockit::models::{State, Style};
use clockit::TaskError;

#[test]
fn tags_of_the_states() {
    assert_eq!(State::Created.to_char(), 'C');
    assert_eq!(State::Started.to_char(), 'S');
    assert_eq!(State::Paused.to_char(), 'P');
    assert_eq!(State::Ended.to_char(), 'E');
}

#[test]
fn order_words_of_the_states() {
    assert_eq!(State::Created.to_order(), "create");
    assert_eq!(State::Started.to_order(), "start");
    assert_eq!(State::Paused.to_order(), "pause");
    assert_eq!(State::Ended.to_order(), "end");
}

#[test]
fn storage_codes_of_the_states() {
    assert_eq!(State::Created.to_sql(), "created");
    assert_eq!(State::Started.to_sql(), "started");
    assert_eq!(State::Paused.to_sql(), "paused");
    assert_eq!(State::Ended.to_sql(), "ended");
}

#[test]
fn styles_of_the_states() {
    assert_eq!(State::Created.style(), Style::Plain);
    assert_eq!(State::Started.style(), Style::Yellow);
    assert_eq!(State::Paused.style(), Style::Blue);
    assert_eq!(State::Ended.style(), Style::Yellow);
}

#[test]
fn storage_codes_are_read_back() {
    for state in [State::Created, State::Started, State::Paused, State::Ended] {
        assert_eq!(State::from_sql(state.to_sql()), Ok(state));
    }
}

#[test]
fn storage_codes_are_case_sensitive() {
    assert_eq!(
        State::from_sql("Created"),
        Err(TaskError::InvalidStateCode(String::from("Created")))
    );
    assert_eq!(
        State::from_sql("ENDED"),
        Err(TaskError::InvalidStateCode(String::from("ENDED")))
    );
}

#[test]
fn storage_codes_are_no_order_words() {
    assert_eq!(
        State::from_sql("start"),
        Err(TaskError::InvalidStateCode(String::from("start")))
    );
    assert_eq!(State::from_sql(""), Err(TaskError::InvalidStateCode(String::new())));
    assert_eq!(
        State::from_sql("ended "),
        Err(TaskError::InvalidStateCode(String::from("ended ")))
    );
}

#[test]
fn order_words_are_read_back() {
    for state in [State::Created, State::Started, State::Paused, State::Ended] {
        assert_eq!(State::from_str(state.to_order()), Ok(state));
        assert_eq!(State::from_order(state.to_order()), Some(state));
    }
}

#[test]
fn order_letters_are_read() {
    assert_eq!(State::from_str("c"), Ok(State::Created));
    assert_eq!(State::from_str("s"), Ok(State::Started));
    assert_eq!(State::from_str("p"), Ok(State::Paused));
    assert_eq!(State::from_str("e"), Ok(State::Ended));
}

#[test]
fn orders_are_read_whatever_their_case() {
    assert_eq!(State::from_str("START"), Ok(State::Started));
    assert_eq!(State::from_str("Pause"), Ok(State::Paused));
    assert_eq!(State::from_str("eNd"), Ok(State::Ended));
    assert_eq!(State::from_str("C"), Ok(State::Created));
}

#[test]
fn order_tokens_are_case_sensitive() {
    assert_eq!(State::from_order("START"), None);
    assert_eq!(State::from_order("start"), Some(State::Started));
    assert_eq!(State::from_order("S"), None);
}

#[test]
fn storage_codes_are_no_orders() {
    for word in ["created", "started", "paused", "ended"] {
        assert_eq!(
            State::from_str(word),
            Err(TaskError::InvalidStateCode(String::from(word)))
        );
    }
}

#[test]
fn unknown_order_comes_back_as_typed() {
    assert_eq!(
        State::from_str("Resume"),
        Err(TaskError::InvalidStateCode(String::from("Resume")))
    );
    assert_eq!(State::from_str(""), Err(TaskError::InvalidStateCode(String::new())));
}
