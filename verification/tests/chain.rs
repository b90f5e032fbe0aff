use errtools::deserialize::{DecodeError, Error, ErrorVisitor, Field, SourceError, SourceErrorVisitor};
use errtools::{ConcreteError, DynError, Entry, ErrTools, Value, WrapErr};
use std::cell::Cell;

fn root(type_tag: &str, msg: &str) -> DynError {
    DynError { type_tag: type_tag.to_string(), msg: msg.to_string(), backtrace: None, source: None }
}

fn caused(type_tag: &str, msg: &str, cause: DynError) -> DynError {
    DynError {
        type_tag: type_tag.to_string(),
        msg: msg.to_string(),
        backtrace: None,
        source: Some(Box::new(cause)),
    }
}

fn text(value: &str) -> Value {
    Value::Text(value.to_string())
}

fn entry(name: &str, value: Value) -> Entry {
    Entry { name: name.to_string(), value }
}

fn strings(list: &[&str]) -> Vec<String> {
    list.iter().map(|s| s.to_string()).collect()
}

struct Timeout;

impl ConcreteError for Timeout {
    fn name() -> String {
        "Timeout".to_string()
    }

    fn as_dyn(&self) -> &DynError {
        unreachable!()
    }
}

struct Refused;

impl ConcreteError for Refused {
    fn name() -> String {
        "Refused".to_string()
    }

    fn as_dyn(&self) -> &DynError {
        unreachable!()
    }
}

#[test]
fn downcast_returns_the_only_match_at_its_position() {
    let chain = caused("Outer", "a", caused("Middle", "b", root("Timeout", "c")));
    let found = chain.downcast_refchain::<Timeout>().unwrap();
    assert_eq!(found, &root("Timeout", "c"));
}

#[test]
fn downcast_returns_the_match_nearest_to_the_head() {
    let chain = caused(
        "Outer",
        "a",
        caused("Timeout", "first", caused("Middle", "b", root("Timeout", "second"))),
    );
    let found = chain.downcast_refchain::<Timeout>().unwrap();
    assert_eq!(found.to_string(), "first");
    assert_eq!(found.messages(), strings(&["first", "b", "second"]));
}

#[test]
fn downcast_misses_where_no_error_is_of_the_type() {
    let chain = caused("Outer", "a", root("Timeout", "c"));
    assert!(chain.downcast_refchain::<Refused>().is_none());
}

#[test]
fn downcast_finds_the_head_itself() {
    let chain = caused("Timeout", "a", root("Refused", "c"));
    let found = chain.downcast_refchain::<Timeout>().unwrap();
    assert_eq!(found, &chain);
}

#[test]
fn downcast_searches_an_error_read_from_a_record() {
    let err = Error::new(
        Some("FakeError".to_string()),
        "outer error".to_string(),
        Some(SourceError::new("root cause".to_string(), None)),
    );
    assert_eq!(err.downcast_refchain::<Error>().unwrap().to_string(), "outer error");
    assert_eq!(err.downcast_refchain::<SourceError>().unwrap().to_string(), "root cause");
    assert!(err.downcast_refchain::<Timeout>().is_none());
}

#[test]
fn wrap_err_leaves_success_unchanged() {
    let ok: Result<u32, DynError> = Ok(7);
    let wrapped: Result<u32, DynError> = ok.wrap_err("ctx");
    assert_eq!(wrapped, Ok(7));
}

#[test]
fn wrap_err_puts_a_new_head_on_the_chain() {
    let failed: Result<u32, DynError> = Err(root("Timeout", "timed out"));
    let wrapped: Result<u32, DynError> = failed.wrap_err("ctx");
    let wrapped = wrapped.unwrap_err();
    assert_eq!(wrapped.to_string(), "ctx");
    assert_eq!(wrapped.type_tag, "errtools::chain::DynError");
    assert_eq!(wrapped.backtrace, None);
    assert_eq!(wrapped.source(), Some(&root("Timeout", "timed out")));
}

#[test]
fn wrap_err_with_does_not_call_back_on_success() {
    let calls = Cell::new(0);
    let ok: Result<u32, DynError> = Ok(7);
    let wrapped: Result<u32, DynError> = ok.wrap_err_with(|| {
        calls.set(calls.get() + 1);
        "ctx".to_string()
    });
    assert_eq!(wrapped, Ok(7));
    assert_eq!(calls.get(), 0);
}

#[test]
fn wrap_err_with_calls_back_once_on_failure() {
    let calls = Cell::new(0);
    let failed: Result<u32, DynError> = Err(root("Timeout", "timed out"));
    let wrapped: Result<u32, DynError> = failed.wrap_err_with(|| {
        calls.set(calls.get() + 1);
        format!("attempt {}", 3)
    });
    let wrapped = wrapped.unwrap_err();
    assert_eq!(calls.get(), 1);
    assert_eq!(wrapped.messages(), strings(&["attempt 3", "timed out"]));
}

#[test]
fn wrap_err_builds_a_chain_that_survives_the_record() {
    let read_file_result: Result<String, DynError> = Err(root("std::io::Error", "file not found"));
    let config: Result<String, DynError> = read_file_result.wrap_err("reading config");
    let started: Result<String, DynError> = config.wrap_err("startup failed");
    let chain = started.unwrap_err();
    let expected = strings(&["startup failed", "reading config", "file not found"]);
    assert_eq!(chain.messages(), expected);
    assert_eq!(chain.report(), "startup failed\nreading config\nfile not found\n");

    let record = chain.serialize().serialize();
    let back = Error::deserialize(&record).unwrap();
    assert_eq!(back.type_tag(), None);
    assert_eq!(back.as_dyn().messages(), expected);
    assert_eq!(back.as_dyn().report(), chain.report());
}

#[test]
fn record_of_an_erased_error_has_no_name() {
    let chain = caused("Outer", "a", root("Inner", "b"));
    let expected = Value::Record(vec![
        entry("msg", text("a")),
        entry(
            "source",
            Value::Record(vec![entry("msg", text("b")), entry("source", Value::Null)]),
        ),
    ]);
    assert_eq!(chain.serialize().serialize(), expected);
}

#[test]
fn record_of_a_concrete_error_starts_with_its_name() {
    let err = Error::new(None, "a".to_string(), None);
    let expected = Value::Record(vec![
        entry("type_name", text("errtools::deserialize::Error")),
        entry("msg", text("a")),
        entry("source", Value::Null),
    ]);
    assert_eq!(err.serialize().serialize(), expected);
}

#[test]
fn record_holds_a_backtrace_only_where_one_was_captured() {
    let mut chain = root("Outer", "a");
    chain.backtrace = Some("at main".to_string());
    let expected = Value::Record(vec![
        entry("msg", text("a")),
        entry("backtrace", text("at main")),
        entry("source", Value::Null),
    ]);
    let record = chain.serialize().serialize();
    assert_eq!(record, expected);
    assert_eq!(
        Error::deserialize(&record),
        Err(DecodeError::UnknownField("backtrace".to_string()))
    );
}

#[test]
fn round_trip_keeps_length_and_messages() {
    let chain = caused("A", "one", caused("B", "two", caused("C", "three", root("D", "four"))));
    let back = Error::deserialize(&chain.serialize().serialize()).unwrap();
    assert_eq!(back.as_dyn().messages().len(), 4);
    assert_eq!(back.as_dyn().messages(), chain.messages());
}

#[test]
fn round_trip_of_a_single_error() {
    let chain = root("A", "only");
    let back = Error::deserialize(&chain.serialize().serialize()).unwrap();
    assert_eq!(back, Error::new(None, "only".to_string(), None));
    assert_eq!(back.source(), None);
}

#[test]
fn both_forms_read_as_the_same_error() {
    let err = Error::new(
        Some("FakeError".to_string()),
        "outer error".to_string(),
        Some(SourceError::new("root cause".to_string(), None)),
    );
    let keyed = err.serialize().serialize();
    let positional = keyed.positional();
    assert_eq!(
        positional,
        Value::List(vec![
            text("errtools::deserialize::Error"),
            text("outer error"),
            Value::List(vec![text("root cause"), Value::Null]),
        ])
    );
    let from_keyed = Error::deserialize(&keyed).unwrap();
    let from_positional = Error::deserialize(&positional).unwrap();
    assert_eq!(from_keyed, from_positional);
    assert_eq!(
        from_keyed,
        Error::new(
            Some("errtools::deserialize::Error".to_string()),
            "outer error".to_string(),
            Some(SourceError::new("root cause".to_string(), None)),
        )
    );
}

#[test]
fn keyed_form_is_read_in_any_order() {
    let record = Value::Record(vec![
        entry("source", Value::Null),
        entry("msg", text("a")),
        entry("type_name", text("T")),
    ]);
    assert_eq!(
        Error::deserialize(&record),
        Ok(Error::new(Some("T".to_string()), "a".to_string(), None))
    );
}

#[test]
fn keyed_form_may_say_that_there_is_no_name() {
    let record = Value::Record(vec![
        entry("type_name", Value::Null),
        entry("msg", text("a")),
        entry("source", Value::Null),
    ]);
    assert_eq!(Error::deserialize(&record), Ok(Error::new(None, "a".to_string(), None)));
}

#[test]
fn unknown_field_is_rejected() {
    let record = Value::Record(vec![
        entry("msg", text("a")),
        entry("colour", text("red")),
        entry("source", Value::Null),
    ]);
    assert_eq!(
        Error::deserialize(&record),
        Err(DecodeError::UnknownField("colour".to_string()))
    );
}

#[test]
fn missing_message_is_rejected() {
    let record = Value::Record(vec![entry("type_name", text("T")), entry("source", Value::Null)]);
    assert_eq!(Error::deserialize(&record), Err(DecodeError::MissingField(Field::Msg)));
}

#[test]
fn unknown_field_and_missing_message_are_told_apart() {
    let unknown = Error::deserialize(&Value::Record(vec![entry("colour", text("red"))]));
    let missing = Error::deserialize(&Value::Record(vec![entry("source", Value::Null)]));
    assert!(unknown.is_err() && missing.is_err());
    assert_ne!(unknown, missing);
}

#[test]
fn missing_source_is_rejected() {
    let record = Value::Record(vec![entry("msg", text("a"))]);
    assert_eq!(Error::deserialize(&record), Err(DecodeError::MissingField(Field::Source)));
}

#[test]
fn duplicate_field_is_rejected() {
    let twice = |name: &str, value: Value, again: Value| {
        Value::Record(vec![entry(name, value), entry(name, again)])
    };
    assert_eq!(
        Error::deserialize(&twice("type_name", text("T"), text("T"))),
        Err(DecodeError::DuplicateField(Field::TypeName))
    );
    assert_eq!(
        Error::deserialize(&twice("msg", text("a"), text("b"))),
        Err(DecodeError::DuplicateField(Field::Msg))
    );
    assert_eq!(
        Error::deserialize(&twice("source", Value::Null, Value::Null)),
        Err(DecodeError::DuplicateField(Field::Source))
    );
}

#[test]
fn duplicate_is_seen_before_the_value_is_read() {
    let record = Value::Record(vec![entry("msg", text("a")), entry("msg", Value::Null)]);
    assert_eq!(Error::deserialize(&record), Err(DecodeError::DuplicateField(Field::Msg)));
}

#[test]
fn positional_form_that_ends_early_is_rejected() {
    assert_eq!(Error::deserialize(&Value::List(vec![])), Err(DecodeError::InvalidLength(0)));
    assert_eq!(
        Error::deserialize(&Value::List(vec![text("T")])),
        Err(DecodeError::InvalidLength(1))
    );
    assert_eq!(
        Error::deserialize(&Value::List(vec![Value::Null, text("a")])),
        Err(DecodeError::InvalidLength(2))
    );
}

#[test]
fn positional_cause_that_ends_early_is_rejected() {
    let with_cause = |cause: Value| Value::List(vec![Value::Null, text("a"), cause]);
    assert_eq!(
        Error::deserialize(&with_cause(Value::List(vec![]))),
        Err(DecodeError::InvalidLength(1))
    );
    assert_eq!(
        Error::deserialize(&with_cause(Value::List(vec![text("b")]))),
        Err(DecodeError::InvalidLength(2))
    );
}

#[test]
fn positional_form_is_read() {
    let record = Value::List(vec![
        text("T"),
        text("a"),
        Value::List(vec![text("b"), Value::List(vec![text("c"), Value::Null])]),
    ]);
    let err = Error::deserialize(&record).unwrap();
    assert_eq!(err.type_tag(), Some(&"T".to_string()));
    assert_eq!(err.as_dyn().messages(), strings(&["a", "b", "c"]));
}

#[test]
fn cause_does_not_know_the_name_of_a_type() {
    let cause = Value::Record(vec![
        entry("type_name", text("T")),
        entry("msg", text("b")),
        entry("source", Value::Null),
    ]);
    assert_eq!(
        SourceError::deserialize(&cause),
        Err(DecodeError::UnknownField("type_name".to_string()))
    );
    let record = Value::Record(vec![entry("msg", text("a")), entry("source", cause)]);
    assert_eq!(
        Error::deserialize(&record),
        Err(DecodeError::UnknownField("type_name".to_string()))
    );
}

#[test]
fn value_of_another_type_is_rejected() {
    let record = Value::Record(vec![entry("msg", Value::Null), entry("source", Value::Null)]);
    assert_eq!(Error::deserialize(&record), Err(DecodeError::InvalidType(Field::Msg)));
    let record = Value::Record(vec![entry("type_name", Value::List(vec![]))]);
    assert_eq!(Error::deserialize(&record), Err(DecodeError::InvalidType(Field::TypeName)));
    let record = Value::List(vec![Value::Null, Value::List(vec![]), Value::Null]);
    assert_eq!(Error::deserialize(&record), Err(DecodeError::InvalidType(Field::Msg)));
}

#[test]
fn value_that_is_no_node_is_rejected() {
    assert_eq!(Error::deserialize(&Value::Null), Err(DecodeError::NotANode));
    assert_eq!(Error::deserialize(&text("a")), Err(DecodeError::NotANode));
    assert_eq!(SourceError::deserialize(&Value::Null), Err(DecodeError::NotANode));
    let record = Value::Record(vec![entry("msg", text("a")), entry("source", text("b"))]);
    assert_eq!(Error::deserialize(&record), Err(DecodeError::NotANode));
}

#[test]
fn readers_read_the_fields_of_a_node() {
    let items = vec![Value::Null, text("a"), Value::Null];
    assert_eq!(ErrorVisitor.visit_seq(&items), Ok(Error::new(None, "a".to_string(), None)));
    let entries = vec![entry("msg", text("b")), entry("source", Value::Null)];
    assert_eq!(
        SourceErrorVisitor.visit_map(&entries),
        Ok(SourceError::new("b".to_string(), None))
    );
    assert_eq!(
        SourceErrorVisitor.visit_seq(&vec![text("b"), Value::Null]),
        Ok(SourceError::new("b".to_string(), None))
    );
    assert_eq!(ErrorVisitor.visit_map(&entries), Ok(Error::new(None, "b".to_string(), None)));
    assert_eq!(ErrorVisitor.expecting(), "struct errtools::deserialize::Error");
    assert_eq!(SourceErrorVisitor.expecting(), "struct errtools::deserialize::Error");
}

#[test]
fn field_names() {
    assert_eq!(Field::TypeName.as_str(), "type_name");
    assert_eq!(Field::Msg.as_str(), "msg");
    assert_eq!(Field::Source.as_str(), "source");
    assert_eq!(Field::deserialize(&"type_name".to_string()), Ok(Field::TypeName));
    assert_eq!(Field::deserialize(&"msg".to_string()), Ok(Field::Msg));
    assert_eq!(Field::deserialize(&"source".to_string()), Ok(Field::Source));
    assert_eq!(
        Field::deserialize(&"secs".to_string()),
        Err(DecodeError::UnknownField("secs".to_string()))
    );
}

#[test]
fn error_read_from_a_record_shows_its_parts() {
    let err = Error::new(
        Some("FakeError".to_string()),
        "outer error".to_string(),
        Some(SourceError::new("root cause".to_string(), None)),
    );
    assert_eq!(err.to_string(), "outer error");
    assert_eq!(err.type_tag(), Some(&"FakeError".to_string()));
    let cause = err.source().unwrap();
    assert_eq!(cause.to_string(), "root cause");
    assert_eq!(cause.type_tag, "errtools::deserialize::SourceError");
    assert_eq!(cause.source(), None);
    assert_eq!(err.as_dyn().type_tag, "errtools::deserialize::Error");
    assert_eq!(Error::name(), "errtools::deserialize::Error");
    assert_eq!(SourceError::name(), "errtools::deserialize::SourceError");

    let cause = SourceError::new(
        "second".to_string(),
        Some(SourceError::new("third".to_string(), None)),
    );
    assert_eq!(cause.to_string(), "second");
    assert_eq!(cause.source().unwrap().to_string(), "third");
    assert_eq!(cause.as_dyn().report(), "second\nthird\n");
}

#[test]
fn positional_form_of_plain_values() {
    assert_eq!(Value::Null.positional(), Value::Null);
    assert_eq!(text("a").positional(), text("a"));
    assert_eq!(
        Value::List(vec![Value::Record(vec![entry("k", text("v"))])]).positional(),
        Value::List(vec![Value::List(vec![text("v")])])
    );
}
