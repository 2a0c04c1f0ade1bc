use emergent::libtest::{
    Event, EventError, EventParseError, OkOrFailed, OutputError, TestCapture, TestCaptures,
    TestResult, TestResultsError, ExtraData, parse_event,
};

fn to_event(json: &str) -> Event {
    Event::from_json(&serde_json::from_str(json).unwrap()).unwrap()
}

fn event_error(json: &str) -> EventError {
    match Event::from_json(&serde_json::from_str(json).unwrap()) {
        Ok(e) => panic!("unexpected event {:?}", e),
        Err(e) => e,
    }
}

#[test]
fn parse_run_start() {
    assert_eq!(
        to_event(r#"{ "type": "suite", "event": "started", "test_count": 3 }"#),
        Event::SuiteStart { test_count: 3 }
    );
}

#[test]
fn parse_run_finished() {
    assert_eq!(
        to_event(r#"{ "type": "suite", "event": "failed", "passed": 2, "failed": 1, "allowed_fail": 0, "ignored": 0, "measured": 0, "filtered_out": 0 }"#),
        Event::SuiteFinish {
            result: OkOrFailed::Failed,
            passed: 2,
            failed: 1,
            allowed_fail: 0,
            ignored: 0,
            measured: 0,
            filtered_out: 0,
        },
    );
}

#[test]
fn parse_test_start() {
    assert_eq!(
        to_event(r#"{ "type": "test", "event": "started", "name": "test_name" }"#),
        Event::TestStart {
            name: "test_name".to_string()
        }
    );
}

#[test]
fn parse_test_failed() {
    assert_eq!(
        to_event(r#"{ "type": "test", "name": "test_name", "event": "failed" }"#),
        Event::TestFinish {
            result: TestResult::Failed(None),
            name: "test_name".to_string()
        }
    );
}

#[test]
fn parse_test_ok() {
    assert_eq!(
        to_event(r#"{ "type": "test", "name": "test_name", "event": "ok" }"#),
        Event::TestFinish {
            result: TestResult::Passed(),
            name: "test_name".to_string()
        }
    );
}

#[test]
fn parse_suite_ok() {
    assert_eq!(
        to_event(r#"{ "type": "suite", "event": "ok", "passed": 5, "failed": 0, "allowed_fail": 0, "ignored": 1, "measured": 0, "filtered_out": 2 }"#),
        Event::SuiteFinish {
            result: OkOrFailed::Passed,
            passed: 5,
            failed: 0,
            allowed_fail: 0,
            ignored: 1,
            measured: 0,
            filtered_out: 2,
        },
    );
}

#[test]
fn parse_test_failed_with_message_before_stdout() {
    assert_eq!(
        to_event(r#"{ "type": "test", "name": "t", "event": "failed", "stdout": "out", "message": "boom" }"#),
        Event::TestFinish {
            result: TestResult::Failed(Some(ExtraData::Message("boom".to_string()))),
            name: "t".to_string()
        }
    );
    assert_eq!(
        to_event(r#"{ "type": "test", "name": "t", "event": "failed", "stdout": "out" }"#),
        Event::TestFinish {
            result: TestResult::Failed(Some(ExtraData::StdOut("out".to_string()))),
            name: "t".to_string()
        }
    );
}

#[test]
fn parse_other_test_results() {
    assert_eq!(
        to_event(r#"{ "type": "test", "name": "t", "event": "ignored" }"#),
        Event::TestFinish { result: TestResult::Ignored, name: "t".to_string() }
    );
    assert_eq!(
        to_event(r#"{ "type": "test", "name": "t", "event": "allowed_fail" }"#),
        Event::TestFinish { result: TestResult::AllowedFail, name: "t".to_string() }
    );
    assert_eq!(
        to_event(r#"{ "type": "test", "name": "t", "event": "timeout" }"#),
        Event::TestFinish { result: TestResult::Timeout, name: "t".to_string() }
    );
}

#[test]
fn event_errors() {
    assert!(matches!(event_error("[1, 2]"), EventError::ExpectedObject));
    assert!(matches!(event_error(r#"{ "type": "test" }"#), EventError::GettingProperty(p) if p == "event"));
    assert!(matches!(event_error(r#"{ "event": "ok" }"#), EventError::GettingProperty(p) if p == "type"));
    assert!(matches!(event_error(r#"{ "type": "test", "event": 3 }"#), EventError::GettingProperty(p) if p == "event"));
    assert!(matches!(
        event_error(r#"{ "type": "bench", "event": "ok" }"#),
        EventError::UnsupportedTypeEvent(t, e) if t == "bench" && e == "ok"
    ));
    assert!(matches!(
        event_error(r#"{ "type": "suite", "event": "started", "test_count": -1 }"#),
        EventError::GettingProperty(p) if p == "test_count"
    ));
    assert!(matches!(
        event_error(r#"{ "type": "suite", "event": "ok", "passed": 1, "failed": 0, "allowed_fail": 0, "measured": 0, "filtered_out": 0 }"#),
        EventError::GettingProperty(p) if p == "ignored"
    ));
    assert!(matches!(event_error(r#"{ "type": "test", "event": "ok" }"#), EventError::GettingProperty(p) if p == "name"));
}

#[test]
fn parse_event_of_a_line() {
    assert!(matches!(parse_event("CAPTURE_ME\n"), Err(EventParseError::Json(_))));
    assert!(matches!(parse_event("{}\n"), Err(EventParseError::Event(EventError::GettingProperty(_)))));
    assert_eq!(
        parse_event("{ \"type\": \"suite\", \"event\": \"started\", \"test_count\": 0 }\n").unwrap(),
        Event::SuiteStart { test_count: 0 }
    );
}

fn suite() -> String {
    [
    "{ \"type\": \"suite\", \"event\": \"started\", \"test_count\": 3 }\n",
    "{ \"type\": \"test\", \"event\": \"started\", \"name\": \"test_output_capture\" }\n",
    "CAPTURE_ME\n",
    "{ \"type\": \"test\", \"name\": \"test_output_capture\", \"event\": \"ok\" }\n",
    "{ \"type\": \"test\", \"event\": \"started\", \"name\": \"tests::test_in_mod_capture\" }\n",
    "CAPTURE_ME_IN_MOD\n",
    "{ \"type\": \"test\", \"name\": \"tests::test_in_mod_capture\", \"event\": \"ok\" }\n",
    "{ \"type\": \"test\", \"event\": \"started\", \"name\": \"test_output_capture_multiline\" }\n",
    "CAPTURE_ME_LINE1\n",
    "CAPTURE_ME_LINE2\n",
    "{ \"type\": \"test\", \"name\": \"test_output_capture_multiline\", \"event\": \"ok\" }\n",
    "{ \"type\": \"suite\", \"event\": \"ok\", \"passed\": 3, \"failed\": 0, \"allowed_fail\": 0, \"ignored\": 0, \"measured\": 0, \"filtered_out\": 0 }\n",
    ]
    .concat()
}

fn capture(name: &str, output: &str) -> TestCapture {
    TestCapture { name: name.into(), result: TestResult::Passed(), output: output.into() }
}

#[test]
fn captures_from_a_suite_output() {
    let captures = TestCaptures::from_output(suite().as_bytes()).unwrap();
    assert_eq!(
        captures,
        TestCaptures(vec![
            capture("test_output_capture", "CAPTURE_ME\n"),
            capture("tests::test_in_mod_capture", "CAPTURE_ME_IN_MOD\n"),
            capture("test_output_capture_multiline", "CAPTURE_ME_LINE1\nCAPTURE_ME_LINE2\n"),
        ])
    );
}

#[test]
fn finish_of_another_test_is_output() {
    let output = [
        "{ \"type\": \"suite\", \"event\": \"started\", \"test_count\": 1 }\n",
        "{ \"type\": \"test\", \"event\": \"started\", \"name\": \"a\" }\n",
        "{ \"type\": \"test\", \"name\": \"b\", \"event\": \"ok\" }\n",
        "{ \"type\": \"test\", \"name\": \"a\", \"event\": \"failed\", \"message\": \"m\" }\n",
        "{ \"type\": \"suite\", \"event\": \"failed\", \"passed\": 0, \"failed\": 1, \"allowed_fail\": 0, \"ignored\": 0, \"measured\": 0, \"filtered_out\": 0 }",
    ]
    .concat();
    let captures = TestCaptures::from_output(output.as_bytes()).unwrap();
    assert_eq!(
        captures,
        TestCaptures(vec![TestCapture {
            name: "a".into(),
            result: TestResult::Failed(Some(ExtraData::Message("m".into()))),
            output: "{ \"type\": \"test\", \"name\": \"b\", \"event\": \"ok\" }\n".into(),
        }])
    );
}

#[test]
fn empty_suite() {
    let output = "{ \"type\": \"suite\", \"event\": \"started\", \"test_count\": 0 }\n{ \"type\": \"suite\", \"event\": \"ok\", \"passed\": 0, \"failed\": 0, \"allowed_fail\": 0, \"ignored\": 0, \"measured\": 0, \"filtered_out\": 0 }\n";
    assert_eq!(TestCaptures::from_output(output.as_bytes()).unwrap(), TestCaptures(vec![]));
}

#[test]
fn output_errors() {
    assert!(matches!(TestCaptures::from_output(b""), Err(OutputError::UnexpectedEof)));
    assert!(matches!(TestCaptures::from_output(b"garbage\n"), Err(OutputError::Parse(EventParseError::Json(_)))));
    assert!(matches!(
        TestCaptures::from_output(b"{ \"type\": \"test\", \"event\": \"started\", \"name\": \"a\" }\n"),
        Err(OutputError::Results(TestResultsError::ExpectedSuiteStart(Event::TestStart { .. })))
    ));
    let truncated = [
        "{ \"type\": \"suite\", \"event\": \"started\", \"test_count\": 1 }\n",
        "{ \"type\": \"test\", \"event\": \"started\", \"name\": \"a\" }\n",
        "output\n",
    ]
    .concat();
    assert!(matches!(TestCaptures::from_output(truncated.as_bytes()), Err(OutputError::UnexpectedEof)));
    let wrong_start = [
        "{ \"type\": \"suite\", \"event\": \"started\", \"test_count\": 1 }\n",
        "{ \"type\": \"test\", \"name\": \"a\", \"event\": \"ok\" }\n",
    ]
    .concat();
    assert!(matches!(
        TestCaptures::from_output(wrong_start.as_bytes()),
        Err(OutputError::Results(TestResultsError::ExpectedTestStart { index: 0, .. }))
    ));
    let no_finish = [
        "{ \"type\": \"suite\", \"event\": \"started\", \"test_count\": 0 }\n",
        "{ \"type\": \"test\", \"event\": \"started\", \"name\": \"a\" }\n",
    ]
    .concat();
    assert!(matches!(
        TestCaptures::from_output(no_finish.as_bytes()),
        Err(OutputError::Results(TestResultsError::ExpectedSuiteStart(Event::TestStart { .. })))
    ));
}

#[test]
fn from_events_reads_given_events() {
    let lines = vec!["s\n", "t\n", "out\n", "f\n", "e\n"];
    let events = vec![
        Ok(Event::SuiteStart { test_count: 1 }),
        Ok(Event::TestStart { name: "x".into() }),
        Err(EventParseError::Event(EventError::ExpectedObject)),
        Ok(Event::TestFinish { name: "x".into(), result: TestResult::Ignored }),
        Ok(Event::SuiteFinish {
            result: OkOrFailed::Passed,
            passed: 0,
            failed: 0,
            allowed_fail: 0,
            ignored: 1,
            measured: 0,
            filtered_out: 0,
        }),
    ];
    assert_eq!(
        TestCaptures::from_events(&lines, events).unwrap(),
        TestCaptures(vec![TestCapture { name: "x".into(), result: TestResult::Ignored, output: "out\n".into() }])
    );
}

#[test]
fn invalid_utf8_after_the_suite_is_not_read() {
    let mut output = suite().into_bytes();
    output.extend_from_slice(b"\xff\xfe trailing\n");
    let captures = TestCaptures::from_output(&output).unwrap();
    assert_eq!(captures.0.len(), 3);
}

#[test]
fn invalid_utf8_in_a_test_output_is_an_error() {
    let output = [
        b"{ \"type\": \"suite\", \"event\": \"started\", \"test_count\": 1 }\n".as_slice(),
        b"{ \"type\": \"test\", \"event\": \"started\", \"name\": \"a\" }\n".as_slice(),
        b"bad \xff output\n".as_slice(),
        b"{ \"type\": \"test\", \"name\": \"a\", \"event\": \"ok\" }\n".as_slice(),
    ]
    .concat();
    assert!(matches!(TestCaptures::from_output(&output), Err(OutputError::InvalidUtf8)));
}
