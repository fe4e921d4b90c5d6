use docql::date::Date;
use docql::error::Error;
use docql::pipeline::{RunState, Step, WriteBatch, MAX_IN_FLIGHT};
use docql::runtime::{parse_header, request_headers, GraphqlRequest};

#[test]
fn one_failed_write_of_five_fails_the_run() {
    let mut batch = WriteBatch::new(5);
    let mut started = Vec::new();
    while let Some(i) = batch.next_task() {
        started.push(i);
    }
    assert_eq!(started, vec![0, 1, 2, 3, 4]);
    assert!(batch.outcome().is_none());
    batch.complete(Ok(()));
    batch.complete(Err(Error::WriteFile("object.A.html".to_string(), "disk full".to_string())));
    batch.complete(Ok(()));
    batch.complete(Ok(()));
    batch.complete(Ok(()));
    match batch.outcome() {
        Some(Err(Error::WriteFile(file, message))) => {
            assert_eq!(file, "object.A.html");
            assert_eq!(message, "disk full");
        }
        other => panic!("expected a failed run, got {:?}", other),
    }
}

#[test]
fn first_failure_is_kept() {
    let mut batch = WriteBatch::new(3);
    batch.next_task();
    batch.next_task();
    batch.complete(Err(Error::WriteFile("a".to_string(), "one".to_string())));
    assert_eq!(batch.next_task(), None);
    batch.complete(Err(Error::WriteFile("b".to_string(), "two".to_string())));
    assert_eq!(batch.outcome(), Some(Err(Error::WriteFile("a".to_string(), "one".to_string()))));
}

#[test]
fn all_writes_succeeding_succeeds() {
    let mut batch = WriteBatch::new(2);
    assert_eq!(batch.next_task(), Some(0));
    assert_eq!(batch.next_task(), Some(1));
    assert_eq!(batch.next_task(), None);
    batch.complete(Ok(()));
    assert!(batch.outcome().is_none());
    batch.complete(Ok(()));
    assert_eq!(batch.outcome(), Some(Ok(())));
}

#[test]
fn no_more_than_ten_in_flight() {
    let mut batch = WriteBatch::new(25);
    let mut n = 0;
    while batch.next_task().is_some() {
        n += 1;
    }
    assert_eq!(n, MAX_IN_FLIGHT);
    assert_eq!(batch.in_flight(), 10);
    batch.complete(Ok(()));
    assert_eq!(batch.next_task(), Some(10));
    assert_eq!(batch.next_task(), None);
}

#[test]
fn empty_batch_is_done() {
    let mut batch = WriteBatch::new(0);
    assert_eq!(batch.next_task(), None);
    assert_eq!(batch.outcome(), Some(Ok(())));
}

#[test]
fn exit_codes_by_origin() {
    let s = || "x".to_string();
    assert_eq!(Error::ClapError(s()).exit_code(), 2);
    assert_eq!(Error::Date(s()).exit_code(), 10);
    assert_eq!(Error::Args(s()).exit_code(), 11);
    assert_eq!(Error::Query(s()).exit_code(), 12);
    assert_eq!(Error::ReadSchemaFile(s()).exit_code(), 13);
    assert_eq!(Error::PrepareOutputDirectory(s(), s()).exit_code(), 20);
    assert_eq!(Error::WriteFile(s(), s()).exit_code(), 21);
    assert_eq!(Error::Serde(s()).exit_code(), 30);
    assert_eq!(Error::HandlebarsTemplate(s()).exit_code(), 31);
    assert_eq!(Error::HandlebarsRender(s()).exit_code(), 31);
}

#[test]
fn error_messages() {
    assert_eq!(Error::Date("bad".to_string()).message(), "Failed to retrieve current date: bad");
    assert_eq!(
        Error::WriteFile("index.html".to_string(), "denied".to_string()).message(),
        "Failed to write file 'index.html': denied"
    );
    assert_eq!(
        Error::PrepareOutputDirectory("out".to_string(), "exists".to_string()).message(),
        "Failed to prepare output directory 'out': exists"
    );
    assert_eq!(Error::Serde("eof".to_string()).message(), "Failed to parse GraphQL Introspection response: eof");
}

#[test]
fn dates_parse_and_format() {
    let d = Date::parse("2024-02-29").unwrap();
    assert_eq!((d.year(), d.month(), d.day()), (2024, 2, 29));
    assert_eq!(d.iso(), "2024-02-29");
    assert_eq!(d.human(), "29 Feb 2024");
    assert!(matches!(Date::parse("2023-02-29"), Err(Error::Date(_))));
    assert!(matches!(Date::parse("not a date"), Err(Error::Date(_))));
    assert!(Date::new(2023, 2, 29).is_none());
    assert!(Date::new(2000, 2, 29).is_some());
    assert!(Date::new(1900, 2, 29).is_none());
    assert!(Date::new(2021, 13, 1).is_none());
    assert!(Date::new(2021, 4, 31).is_none());
    assert_eq!(Date::new(7, 1, 5).unwrap().iso(), "0007-01-05");
}

#[test]
fn headers_split_at_first_colon_and_trim() {
    assert_eq!(
        parse_header("Authorization: Bearer a:b "),
        Some(("Authorization".to_string(), "Bearer a:b".to_string()))
    );
    assert_eq!(parse_header("X-Empty:"), Some(("X-Empty".to_string(), "".to_string())));
    assert_eq!(parse_header("no colon"), None);
}

#[test]
fn user_agent_comes_first() {
    let args = vec!["A: 1".to_string(), "user-agent: mine".to_string()];
    let hs = request_headers("docql/1.0", &args).unwrap();
    assert_eq!(
        hs,
        vec![
            ("user-agent".to_string(), "docql/1.0".to_string()),
            ("A".to_string(), "1".to_string()),
            ("user-agent".to_string(), "mine".to_string()),
        ]
    );
    assert_eq!(request_headers("ua", &vec!["A: 1".to_string(), "broken".to_string()]), None);
    assert_eq!(request_headers("ua", &vec![]), Some(vec![("user-agent".to_string(), "ua".to_string())]));
}

#[test]
fn introspection_request() {
    let r = GraphqlRequest::introspection("query IntrospectionQuery { __schema { types { name } } }");
    assert_eq!(r.operation_name, "IntrospectionQuery");
    assert!(r.query.starts_with("query IntrospectionQuery"));
}

#[test]
fn steps_run_in_order_and_finish() {
    let order = [
        Step::Arguments,
        Step::Date,
        Step::Schema,
        Step::OutputDirectory,
        Step::Index,
        Step::Stylesheet,
        Step::Types,
    ];
    let mut state = RunState::start();
    for s in order {
        assert_eq!(state, RunState::At(s));
        state = state.advance(Ok(()));
    }
    assert_eq!(state, RunState::Finished(Ok(())));
}

#[test]
fn failed_step_ends_run_with_its_error() {
    let state = RunState::start().advance(Ok(())).advance(Ok(()));
    assert_eq!(state, RunState::At(Step::Schema));
    let state = state.advance(Err(Error::Query("timeout".to_string())));
    assert_eq!(state, RunState::Finished(Err(Error::Query("timeout".to_string()))));
    let state = state.advance(Ok(()));
    assert_eq!(state, RunState::Finished(Err(Error::Query("timeout".to_string()))));
}
