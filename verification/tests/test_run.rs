use emergent::app_model::{AppModel, Command, Msg};
use emergent::libtest::{OutputError, TestCapture, TestResult};
use emergent::test_runner::{interpret_test_run, message_levels, partition_by_level, split_compiler_messages, Level, TestRunResult};

const COMPILER_MESSAGE: &str = r#"{"reason":"compiler-message","package_id":"emergent 0.1.0 (path+file:///C:/emergent)","target":{"kind":["lib"],"crate_types":["lib"],"name":"emergent","src_path":"C:\\emergent\\src/lib/lib.rs","edition":"2018"},"message":{"message":"aborting due to previous error","code":null,"level":"error","spans":[],"children":[],"rendered":"error: aborting due to previous error\n\n"}}"#;

const ARTIFACT: &str = r#"{"reason":"build-finished","success":true}"#;

fn suite_output() -> String {
    [
        r#"{ "type": "suite", "event": "started", "test_count": 1 }"#,
        "\n",
        r#"{ "type": "test", "event": "started", "name": "a" }"#,
        "\n",
        "HELLO\n",
        r#"{ "type": "test", "name": "a", "event": "ok" }"#,
        "\n",
        r#"{ "type": "suite", "event": "ok", "passed": 1, "failed": 0, "allowed_fail": 0, "ignored": 0, "measured": 0, "filtered_out": 0 }"#,
        "\n",
    ]
    .concat()
}

#[test]
fn splits_compiler_messages_from_test_output() {
    let captured = [COMPILER_MESSAGE, "\n", ARTIFACT, "\n", &suite_output()].concat();
    let (messages, offset) = split_compiler_messages(captured.as_bytes());
    assert_eq!(messages.len(), 1);
    assert!(captured[offset..].contains("\"suite\""));
    assert!(!captured[offset..].contains("compiler-message"));
}

#[test]
fn interprets_captures_after_compiler_messages() {
    let captured = [COMPILER_MESSAGE, "\n", &suite_output()].concat();
    match interpret_test_run(captured.as_bytes(), None) {
        Ok(TestRunResult::TestsCaptured(messages, captures)) => {
            assert_eq!(messages.len(), 1);
            assert_eq!(
                captures.0,
                vec![TestCapture { name: "a".into(), result: TestResult::Passed(), output: "HELLO\n".into() }]
            );
        }
        other => panic!("unexpected: {:?}", other),
    }
}

#[test]
fn run_error_is_a_compilation_failure() {
    let captured = [COMPILER_MESSAGE, "\n"].concat();
    match interpret_test_run(captured.as_bytes(), Some("could not compile".into())) {
        Ok(TestRunResult::CompilationFailed(messages, e)) => {
            assert_eq!(messages.len(), 1);
            assert_eq!(e, "could not compile");
        }
        other => panic!("unexpected: {:?}", other),
    }
}

#[test]
fn invalid_utf8_in_test_output() {
    let mut captured = suite_output().into_bytes();
    captured.insert(0, 0xff);
    assert!(matches!(interpret_test_run(&captured, None), Err(OutputError::InvalidUtf8)));
}

#[test]
fn empty_test_output_ends_early() {
    assert!(matches!(interpret_test_run(b"", None), Err(OutputError::UnexpectedEof)));
}

#[test]
fn toggling_a_test_twice_restores_it() {
    let mut model = AppModel::new();
    assert!(!model.is_collapsed("a"));
    let command: Command<u32> = model.update(Msg::ToggleTestcase { name: "a".into() });
    assert!(matches!(command, Command::ReceiveWatcherNotifications));
    assert!(model.is_collapsed("a"));
    assert!(!model.is_collapsed("b"));
    let _: Command<u32> = model.update(Msg::ToggleTestcase { name: "a".into() });
    assert!(!model.is_collapsed("a"));
}

#[test]
fn completed_run_replaces_the_error() {
    let mut model = AppModel::new();
    let _: Command<u32> = model.update(Msg::TestRunCompleted(Err("failed".into())));
    assert_eq!(model.latest_test_error(), Some(&String::from("failed")));
    assert!(model.test_run_result().is_none());

    let result = interpret_test_run(suite_output().as_bytes(), None).unwrap();
    let _: Command<u32> = model.update(Msg::TestRunCompleted(Ok(result)));
    assert_eq!(model.latest_test_error(), None);
    assert!(matches!(model.test_run_result(), Some(TestRunResult::TestsCaptured(_, _))));
}

#[test]
fn rerun_hands_the_environment_on() {
    let mut model = AppModel::new();
    let command = model.update(Msg::RerunTestcases(96u32));
    assert!(matches!(command, Command::UpdateEnvironment(96)));
    assert!(model.test_run_result().is_none());
}

const WARNING_MESSAGE: &str = r#"{"reason":"compiler-message","package_id":"emergent 0.1.0 (path+file:///C:/emergent)","target":{"kind":["lib"],"crate_types":["lib"],"name":"emergent","src_path":"C:\\emergent\\src/lib/lib.rs","edition":"2018"},"message":{"message":"unused variable","code":null,"level":"warning","spans":[],"children":[],"rendered":"warning: unused variable\n\n"}}"#;

#[test]
fn errors_are_split_from_the_rest() {
    let levels = vec![Level::Warning, Level::Error, Level::Note, Level::Error, Level::Ice];
    let (errors, rest) = partition_by_level(&levels);
    assert_eq!(errors, vec![1, 3]);
    assert_eq!(rest, vec![0, 2, 4]);
}

#[test]
fn levels_of_compiler_messages() {
    let captured = [WARNING_MESSAGE, "\n", COMPILER_MESSAGE, "\n"].concat();
    let (messages, _) = split_compiler_messages(captured.as_bytes());
    assert_eq!(message_levels(&messages), vec![Level::Warning, Level::Error]);
}

#[test]
fn compiler_messages_keep_their_order() {
    let captured = [WARNING_MESSAGE, "\n", ARTIFACT, "\n", COMPILER_MESSAGE, "\n", &suite_output()].concat();
    let (messages, offset) = split_compiler_messages(captured.as_bytes());
    assert_eq!(messages.len(), 2);
    assert_eq!(messages[0].message.message, "unused variable");
    assert_eq!(messages[1].message.message, "aborting due to previous error");
    assert!(captured[offset..].starts_with("\n{ \"type\": \"suite\"") || captured[offset..].starts_with("{ \"type\": \"suite\""));
}
