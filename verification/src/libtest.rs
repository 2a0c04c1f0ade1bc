//! Reading the JSON event stream of libtest into test captures.
//!
//! The format is the one libtest writes with `--format json`
//! (https://github.com/rust-lang/libtest/blob/master/libtest/formatters/json.rs).

use vstd::prelude::*;
use serde_json::Value;
use crate::line_breaking::bytes_as_reader_lines;
use crate::json::{parse_json, value_is_object, value_string_member, value_u64_member};

verus! {

/// The captures of a complete libtest suite run, one per test, in run order.
#[derive(Clone, PartialEq, Eq, Default, Debug)]
pub struct TestCaptures(pub Vec<TestCapture>);

/// A test, its result, and what it wrote to stdout while it ran.
#[derive(Clone, PartialEq, Eq, Debug)]
pub struct TestCapture {
    pub name: String,
    pub result: TestResult,
    pub output: String,
}

#[derive(Clone, PartialEq, Eq, Debug)]
pub enum TestResult {
    Passed(),
    Failed(Option<ExtraData>),
    Ignored,
    AllowedFail,
    Timeout,
}

/// What libtest reports with a failed test.
#[derive(Clone, PartialEq, Eq, Debug)]
pub enum ExtraData {
    Message(String),
    StdOut(String),
}

#[derive(Clone, PartialEq, Eq, Debug)]
pub enum Event {
    SuiteStart {
        test_count: usize,
    },
    SuiteFinish {
        result: OkOrFailed,
        passed: usize,
        failed: usize,
        allowed_fail: usize,
        ignored: usize,
        measured: usize,
        filtered_out: usize,
    },
    TestStart {
        name: String,
    },
    TestFinish {
        name: String,
        result: TestResult,
    },
}

#[derive(Copy, Clone, PartialEq, Eq, Structural, Debug)]
pub enum OkOrFailed {
    Passed,
    Failed,
}

/// Why a JSON value is no libtest event.
#[derive(Debug)]
pub enum EventError {
    /// The member is missing or of the wrong type.
    GettingProperty(String),
    /// The (`type`, `event`) pair is not one libtest writes.
    UnsupportedTypeEvent(String, String),
    ExpectedObject,
}

/// The event stream is out of order.
#[derive(Debug)]
pub enum TestResultsError {
    ExpectedSuiteStart(Event),
    ExpectedTestStart { index: usize, event: Event },
}

/// Why a line is no libtest event.
#[derive(Debug)]
pub enum EventParseError {
    /// The line is no JSON text.
    Json(serde_json::Error),
    /// The line is JSON, but no event.
    Event(EventError),
}

/// Why a libtest output could not be read into captures.
#[derive(Debug)]
pub enum OutputError {
    /// The output ended before the suite did.
    UnexpectedEof,
    /// The output is no UTF-8 text.
    InvalidUtf8,
    /// A line that must hold an event holds none.
    Parse(EventParseError),
    /// The events are out of order.
    Results(TestResultsError),
}

//
// Views.
//

pub enum ExtraDataView {
    Message(Seq<char>),
    StdOut(Seq<char>),
}

pub enum TestResultView {
    Passed,
    Failed(Option<ExtraDataView>),
    Ignored,
    AllowedFail,
    Timeout,
}

pub struct TestCaptureView {
    pub name: Seq<char>,
    pub result: TestResultView,
    pub output: Seq<char>,
}

pub enum EventView {
    SuiteStart { test_count: usize },
    SuiteFinish {
        result: OkOrFailed,
        passed: usize,
        failed: usize,
        allowed_fail: usize,
        ignored: usize,
        measured: usize,
        filtered_out: usize,
    },
    TestStart { name: Seq<char> },
    TestFinish { name: Seq<char>, result: TestResultView },
}

pub enum EventErrorView {
    GettingProperty(Seq<char>),
    UnsupportedTypeEvent(Seq<char>, Seq<char>),
    ExpectedObject,
}

pub enum TestResultsErrorView {
    ExpectedSuiteStart(EventView),
    ExpectedTestStart { index: usize, event: EventView },
}

pub enum EventParseErrorView {
    Json,
    Event(EventErrorView),
}

pub enum OutputErrorView {
    UnexpectedEof,
    InvalidUtf8,
    Parse(EventParseErrorView),
    Results(TestResultsErrorView),
}

impl View for ExtraData {
    type V = ExtraDataView;

    open spec fn view(&self) -> ExtraDataView {
        match self {
            ExtraData::Message(m) => ExtraDataView::Message(m@),
            ExtraData::StdOut(s) => ExtraDataView::StdOut(s@),
        }
    }
}

impl View for TestResult {
    type V = TestResultView;

    open spec fn view(&self) -> TestResultView {
        match self {
            TestResult::Passed() => TestResultView::Passed,
            TestResult::Failed(extra) => TestResultView::Failed(
                match extra {
                    Some(e) => Some(e@),
                    None => None,
                },
            ),
            TestResult::Ignored => TestResultView::Ignored,
            TestResult::AllowedFail => TestResultView::AllowedFail,
            TestResult::Timeout => TestResultView::Timeout,
        }
    }
}

impl View for TestCapture {
    type V = TestCaptureView;

    open spec fn view(&self) -> TestCaptureView {
        TestCaptureView { name: self.name@, result: self.result@, output: self.output@ }
    }
}

impl View for TestCaptures {
    type V = Seq<TestCaptureView>;

    open spec fn view(&self) -> Seq<TestCaptureView> {
        self.0@.map_values(|c: TestCapture| c@)
    }
}

impl View for Event {
    type V = EventView;

    open spec fn view(&self) -> EventView {
        match self {
            Event::SuiteStart { test_count } => EventView::SuiteStart { test_count: *test_count },
            Event::SuiteFinish {
                result,
                passed,
                failed,
                allowed_fail,
                ignored,
                measured,
                filtered_out,
            } => EventView::SuiteFinish {
                result: *result,
                passed: *passed,
                failed: *failed,
                allowed_fail: *allowed_fail,
                ignored: *ignored,
                measured: *measured,
                filtered_out: *filtered_out,
            },
            Event::TestStart { name } => EventView::TestStart { name: name@ },
            Event::TestFinish { name, result } => EventView::TestFinish {
                name: name@,
                result: result@,
            },
        }
    }
}

impl View for EventError {
    type V = EventErrorView;

    open spec fn view(&self) -> EventErrorView {
        match self {
            EventError::GettingProperty(p) => EventErrorView::GettingProperty(p@),
            EventError::UnsupportedTypeEvent(t, e) => EventErrorView::UnsupportedTypeEvent(t@, e@),
            EventError::ExpectedObject => EventErrorView::ExpectedObject,
        }
    }
}

impl View for TestResultsError {
    type V = TestResultsErrorView;

    open spec fn view(&self) -> TestResultsErrorView {
        match self {
            TestResultsError::ExpectedSuiteStart(e) => TestResultsErrorView::ExpectedSuiteStart(e@),
            TestResultsError::ExpectedTestStart { index, event } =>
                TestResultsErrorView::ExpectedTestStart { index: *index, event: event@ },
        }
    }
}

impl View for EventParseError {
    type V = EventParseErrorView;

    open spec fn view(&self) -> EventParseErrorView {
        match self {
            EventParseError::Json(_) => EventParseErrorView::Json,
            EventParseError::Event(e) => EventParseErrorView::Event(e@),
        }
    }
}

impl View for OutputError {
    type V = OutputErrorView;

    open spec fn view(&self) -> OutputErrorView {
        match self {
            OutputError::UnexpectedEof => OutputErrorView::UnexpectedEof,
            OutputError::InvalidUtf8 => OutputErrorView::InvalidUtf8,
            OutputError::Parse(e) => OutputErrorView::Parse(e@),
            OutputError::Results(e) => OutputErrorView::Results(e@),
        }
    }
}

/// The view of the outcome of reading one event.
pub open spec fn event_result_view(r: Result<Event, EventError>) -> Result<EventView, EventErrorView> {
    match r {
        Ok(e) => Ok(e@),
        Err(e) => Err(e@),
    }
}

//
// Reading one event from a JSON value.
//

/// The member `key` as a `usize`, where it is an unsigned number that fits.
pub open spec fn usize_member(numbers: Map<Seq<char>, u64>, key: Seq<char>) -> Option<usize> {
    if numbers.contains_key(key) && numbers[key] <= usize::MAX {
        Some(numbers[key] as usize)
    } else {
        None
    }
}

/// The suite finish event with the given result, read from the counter members.
pub open spec fn suite_finish_from_members(
    result: OkOrFailed,
    numbers: Map<Seq<char>, u64>,
) -> Result<EventView, EventErrorView> {
    if usize_member(numbers, "passed"@) is None {
        Err(EventErrorView::GettingProperty("passed"@))
    } else if usize_member(numbers, "failed"@) is None {
        Err(EventErrorView::GettingProperty("failed"@))
    } else if usize_member(numbers, "allowed_fail"@) is None {
        Err(EventErrorView::GettingProperty("allowed_fail"@))
    } else if usize_member(numbers, "ignored"@) is None {
        Err(EventErrorView::GettingProperty("ignored"@))
    } else if usize_member(numbers, "measured"@) is None {
        Err(EventErrorView::GettingProperty("measured"@))
    } else if usize_member(numbers, "filtered_out"@) is None {
        Err(EventErrorView::GettingProperty("filtered_out"@))
    } else {
        Ok(
            EventView::SuiteFinish {
                result,
                passed: usize_member(numbers, "passed"@)->0,
                failed: usize_member(numbers, "failed"@)->0,
                allowed_fail: usize_member(numbers, "allowed_fail"@)->0,
                ignored: usize_member(numbers, "ignored"@)->0,
                measured: usize_member(numbers, "measured"@)->0,
                filtered_out: usize_member(numbers, "filtered_out"@)->0,
            },
        )
    }
}

/// The test finish event with the given result, named by the `name` member.
pub open spec fn test_finish_from_members(
    result: TestResultView,
    strings: Map<Seq<char>, Seq<char>>,
) -> Result<EventView, EventErrorView> {
    if strings.contains_key("name"@) {
        Ok(EventView::TestFinish { name: strings["name"@], result })
    } else {
        Err(EventErrorView::GettingProperty("name"@))
    }
}

/// What libtest reports with a failed test: its `message`, else its `stdout`.
pub open spec fn failure_extra_data(strings: Map<Seq<char>, Seq<char>>) -> Option<ExtraDataView> {
    if strings.contains_key("message"@) {
        Some(ExtraDataView::Message(strings["message"@]))
    } else if strings.contains_key("stdout"@) {
        Some(ExtraDataView::StdOut(strings["stdout"@]))
    } else {
        None
    }
}

/// The event that a JSON value describes, given what can be read of it: whether
/// it is an object, its string members and its unsigned members.
pub open spec fn event_from_members(
    is_object: bool,
    strings: Map<Seq<char>, Seq<char>>,
    numbers: Map<Seq<char>, u64>,
) -> Result<EventView, EventErrorView> {
    if !is_object {
        Err(EventErrorView::ExpectedObject)
    } else if !strings.contains_key("event"@) {
        Err(EventErrorView::GettingProperty("event"@))
    } else if !strings.contains_key("type"@) {
        Err(EventErrorView::GettingProperty("type"@))
    } else {
        let event = strings["event"@];
        let ty = strings["type"@];
        if ty == "suite"@ && event == "started"@ {
            match usize_member(numbers, "test_count"@) {
                Some(test_count) => Ok(EventView::SuiteStart { test_count }),
                None => Err(EventErrorView::GettingProperty("test_count"@)),
            }
        } else if ty == "suite"@ && event == "ok"@ {
            suite_finish_from_members(OkOrFailed::Passed, numbers)
        } else if ty == "suite"@ && event == "failed"@ {
            suite_finish_from_members(OkOrFailed::Failed, numbers)
        } else if ty == "test"@ && event == "started"@ {
            if strings.contains_key("name"@) {
                Ok(EventView::TestStart { name: strings["name"@] })
            } else {
                Err(EventErrorView::GettingProperty("name"@))
            }
        } else if ty == "test"@ && event == "ok"@ {
            test_finish_from_members(TestResultView::Passed, strings)
        } else if ty == "test"@ && event == "failed"@ {
            test_finish_from_members(TestResultView::Failed(failure_extra_data(strings)), strings)
        } else if ty == "test"@ && event == "ignored"@ {
            test_finish_from_members(TestResultView::Ignored, strings)
        } else if ty == "test"@ && event == "allowed_fail"@ {
            test_finish_from_members(TestResultView::AllowedFail, strings)
        } else if ty == "test"@ && event == "timeout"@ {
            test_finish_from_members(TestResultView::Timeout, strings)
        } else {
            Err(EventErrorView::UnsupportedTypeEvent(ty, event))
        }
    }
}

/// The event that a parsed JSON value describes.
pub open spec fn event_from_value(value: Value) -> Result<EventView, EventErrorView> {
    event_from_members(crate::json::json_is_object(value), crate::json::json_string_members(value), crate::json::json_u64_members(value))
}

/// `s == literal`, by value.
fn is_literal(s: &String, literal: &str) -> (equal: bool)
    ensures
        equal == (s@ == literal@),
{
    let owned = literal.to_owned();
    *s == owned
}

fn string_member(value: &Value, key: &str) -> (member: Result<String, EventError>)
    ensures
        match member {
            Ok(s) => crate::json::json_string_members(*value).contains_key(key@)
                && crate::json::json_string_members(*value)[key@] == s@,
            Err(e) => !crate::json::json_string_members(*value).contains_key(key@)
                && e@ == EventErrorView::GettingProperty(key@),
        },
{
    match value_string_member(value, key) {
        Some(s) => Ok(s),
        None => Err(EventError::GettingProperty(key.to_owned())),
    }
}

fn count_member(value: &Value, key: &str) -> (member: Result<usize, EventError>)
    ensures
        match member {
            Ok(n) => usize_member(crate::json::json_u64_members(*value), key@) == Some(n),
            Err(e) => usize_member(crate::json::json_u64_members(*value), key@) is None
                && e@ == EventErrorView::GettingProperty(key@),
        },
{
    match value_u64_member(value, key) {
        Some(n) => {
            if n <= usize::MAX as u64 {
                Ok(n as usize)
            } else {
                Err(EventError::GettingProperty(key.to_owned()))
            }
        },
        None => Err(EventError::GettingProperty(key.to_owned())),
    }
}

fn suite_finish(value: &Value, result: OkOrFailed) -> (event: Result<Event, EventError>)
    ensures
        event_result_view(event) == suite_finish_from_members(result, crate::json::json_u64_members(*value)),
{
    let passed = match count_member(value, "passed") {
        Ok(n) => n,
        Err(e) => return Err(e),
    };
    let failed = match count_member(value, "failed") {
        Ok(n) => n,
        Err(e) => return Err(e),
    };
    let allowed_fail = match count_member(value, "allowed_fail") {
        Ok(n) => n,
        Err(e) => return Err(e),
    };
    let ignored = match count_member(value, "ignored") {
        Ok(n) => n,
        Err(e) => return Err(e),
    };
    let measured = match count_member(value, "measured") {
        Ok(n) => n,
        Err(e) => return Err(e),
    };
    let filtered_out = match count_member(value, "filtered_out") {
        Ok(n) => n,
        Err(e) => return Err(e),
    };
    Ok(Event::SuiteFinish { result, passed, failed, allowed_fail, ignored, measured, filtered_out })
}

fn test_finish(value: &Value, result: TestResult) -> (event: Result<Event, EventError>)
    ensures
        event_result_view(event) == test_finish_from_members(result@, crate::json::json_string_members(*value)),
{
    match string_member(value, "name") {
        Ok(name) => Ok(Event::TestFinish { name, result }),
        Err(e) => Err(e),
    }
}

impl Event {
    /// Reads the libtest event that a JSON value describes.
    pub fn from_json(value: &Value) -> (event: Result<Event, EventError>)
        ensures
            event_result_view(event) == event_from_value(*value),
    {
        if !value_is_object(value) {
            return Err(EventError::ExpectedObject);
        }
        let event = match string_member(value, "event") {
            Ok(s) => s,
            Err(e) => return Err(e),
        };
        let ty = match string_member(value, "type") {
            Ok(s) => s,
            Err(e) => return Err(e),
        };
        let suite = is_literal(&ty, "suite");
        let test = is_literal(&ty, "test");
        if suite && is_literal(&event, "started") {
            match count_member(value, "test_count") {
                Ok(test_count) => Ok(Event::SuiteStart { test_count }),
                Err(e) => Err(e),
            }
        } else if suite && is_literal(&event, "ok") {
            suite_finish(value, OkOrFailed::Passed)
        } else if suite && is_literal(&event, "failed") {
            suite_finish(value, OkOrFailed::Failed)
        } else if test && is_literal(&event, "started") {
            match string_member(value, "name") {
                Ok(name) => Ok(Event::TestStart { name }),
                Err(e) => Err(e),
            }
        } else if test && is_literal(&event, "ok") {
            test_finish(value, TestResult::Passed())
        } else if test && is_literal(&event, "failed") {
            let extra_data = match value_string_member(value, "message") {
                Some(message) => Some(ExtraData::Message(message)),
                None => match value_string_member(value, "stdout") {
                    Some(stdout) => Some(ExtraData::StdOut(stdout)),
                    None => None,
                },
            };
            test_finish(value, TestResult::Failed(extra_data))
        } else if test && is_literal(&event, "ignored") {
            test_finish(value, TestResult::Ignored)
        } else if test && is_literal(&event, "allowed_fail") {
            test_finish(value, TestResult::AllowedFail)
        } else if test && is_literal(&event, "timeout") {
            test_finish(value, TestResult::Timeout)
        } else {
            Err(EventError::UnsupportedTypeEvent(ty, event))
        }
    }
}

//
// Reading a libtest output.
//

/// The view of the outcome of reading a line as an event.
pub open spec fn parse_result_view(r: Result<Event, EventParseError>) -> Result<EventView, EventParseErrorView> {
    match r {
        Ok(e) => Ok(e@),
        Err(e) => Err(e@),
    }
}

/// The view of the outcome of reading an output into captures.
pub open spec fn captures_result_view(r: Result<TestCaptures, OutputError>) -> Result<Seq<TestCaptureView>, OutputErrorView> {
    match r {
        Ok(c) => Ok(c@),
        Err(e) => Err(e@),
    }
}

/// The event read at line `pos`: the end of the output is an error, and so is a
/// line that holds no event.
pub open spec fn read_event(events: Seq<Result<EventView, EventParseErrorView>>, pos: int) -> Result<EventView, OutputErrorView> {
    if pos < 0 || pos >= events.len() {
        Err(OutputErrorView::UnexpectedEof)
    } else {
        match events[pos] {
            Ok(e) => Ok(e),
            Err(e) => Err(OutputErrorView::Parse(e)),
        }
    }
}

/// Whether `event` finishes the test `name`.
pub open spec fn finishes(event: Result<EventView, EventParseErrorView>, name: Seq<char>) -> bool {
    event matches Ok(EventView::TestFinish { name: n, result: _ }) && n == name
}

/// The output of the test `name`, starting at line `pos`: all lines up to the
/// one that finishes the test, the line after that one, and the test's result;
/// `None` where the output ends before.
pub open spec fn test_output(
    lines: Seq<Seq<char>>,
    events: Seq<Result<EventView, EventParseErrorView>>,
    pos: int,
    name: Seq<char>,
) -> Option<(int, Seq<char>, TestResultView)>
    decreases lines.len() - pos,
{
    if pos < 0 || pos >= lines.len() || pos >= events.len() {
        None
    } else if finishes(events[pos], name) {
        Some((pos + 1, Seq::<char>::empty(), events[pos]->Ok_0->TestFinish_result))
    } else {
        match test_output(lines, events, pos + 1, name) {
            Some((next, output, result)) => Some((next, lines[pos] + output, result)),
            None => None,
        }
    }
}

/// `output` with `prefix` in front of its captured text.
pub open spec fn prepend_output(
    prefix: Seq<char>,
    output: Option<(int, Seq<char>, TestResultView)>,
) -> Option<(int, Seq<char>, TestResultView)> {
    match output {
        Some((next, out, result)) => Some((next, prefix + out, result)),
        None => None,
    }
}

/// The captures of the tests `index..count`, the first one starting at line
/// `pos`, and the line after the last one.
pub open spec fn test_captures_from(
    lines: Seq<Seq<char>>,
    events: Seq<Result<EventView, EventParseErrorView>>,
    pos: int,
    index: int,
    count: int,
) -> Result<(int, Seq<TestCaptureView>), OutputErrorView>
    decreases count - index,
{
    if index >= count {
        Ok((pos, Seq::<TestCaptureView>::empty()))
    } else {
        match read_event(events, pos) {
            Err(e) => Err(e),
            Ok(EventView::TestStart { name }) => match test_output(lines, events, pos + 1, name) {
                None => Err(OutputErrorView::UnexpectedEof),
                Some((next, output, result)) => match test_captures_from(
                    lines,
                    events,
                    next,
                    index + 1,
                    count,
                ) {
                    Ok((end, captures)) => Ok(
                        (end, seq![TestCaptureView { name, result, output }] + captures),
                    ),
                    Err(e) => Err(e),
                },
            },
            Ok(e) => Err(
                OutputErrorView::Results(
                    TestResultsErrorView::ExpectedTestStart { index: index as usize, event: e },
                ),
            ),
        }
    }
}

/// `captures` with `done` in front.
pub open spec fn prepend_captures(
    done: Seq<TestCaptureView>,
    captures: Result<(int, Seq<TestCaptureView>), OutputErrorView>,
) -> Result<(int, Seq<TestCaptureView>), OutputErrorView> {
    match captures {
        Ok((end, rest)) => Ok((end, done + rest)),
        Err(e) => Err(e),
    }
}

/// The captures of a suite run, read from its output lines and the event that
/// each line holds: a suite start, then per test a test start, the test's
/// output lines and the finish of that test, then a suite finish.
pub open spec fn captures_from_events(
    lines: Seq<Seq<char>>,
    events: Seq<Result<EventView, EventParseErrorView>>,
) -> Result<Seq<TestCaptureView>, OutputErrorView> {
    match read_event(events, 0) {
        Err(e) => Err(e),
        Ok(EventView::SuiteStart { test_count }) => match test_captures_from(
            lines,
            events,
            1,
            0,
            test_count as int,
        ) {
            Err(e) => Err(e),
            Ok((end, captures)) => match read_event(events, end) {
                Err(e) => Err(e),
                Ok(EventView::SuiteFinish { .. }) => Ok(captures),
                Ok(e) => Err(OutputErrorView::Results(TestResultsErrorView::ExpectedSuiteStart(e))),
            },
        },
        Ok(e) => Err(OutputErrorView::Results(TestResultsErrorView::ExpectedSuiteStart(e))),
    }
}

proof fn lemma_test_captures_from_errors(
    lines: Seq<Seq<char>>,
    events: Seq<Result<EventView, EventParseErrorView>>,
    pos: int,
    index: int,
    count: int,
)
    ensures
        !(test_captures_from(lines, events, pos, index, count) matches Err(OutputErrorView::InvalidUtf8)),
    decreases count - index,
{
    if index < count {
        if let Ok(EventView::TestStart { name }) = read_event(events, pos) {
            if let Some((next, _, _)) = test_output(lines, events, pos + 1, name) {
                lemma_test_captures_from_errors(lines, events, next, index + 1, count);
            }
        }
    }
}

/// Reading captures never reports invalid UTF-8: the text is decoded before.
pub proof fn lemma_captures_from_events_errors(
    lines: Seq<Seq<char>>,
    events: Seq<Result<EventView, EventParseErrorView>>,
)
    ensures
        !(captures_from_events(lines, events) matches Err(OutputErrorView::InvalidUtf8)),
{
    if let Ok(EventView::SuiteStart { test_count }) = read_event(events, 0) {
        lemma_test_captures_from_errors(lines, events, 1, 0, test_count as int);
    }
}

proof fn lemma_test_output_finishes(
    lines: Seq<Seq<char>>,
    events: Seq<Result<EventView, EventParseErrorView>>,
    pos: int,
    name: Seq<char>,
)
    ensures
        test_output(lines, events, pos, name) matches Some((next, _, result)) ==> {
            &&& pos < next <= events.len()
            &&& events[next - 1] == Ok::<EventView, EventParseErrorView>(EventView::TestFinish { name, result })
        },
    decreases lines.len() - pos,
{
    if 0 <= pos < lines.len() && pos < events.len() && !finishes(events[pos], name) {
        lemma_test_output_finishes(lines, events, pos + 1, name);
    }
}

proof fn lemma_test_captures_from_finishes(
    lines: Seq<Seq<char>>,
    events: Seq<Result<EventView, EventParseErrorView>>,
    pos: int,
    index: int,
    count: int,
)
    ensures
        test_captures_from(lines, events, pos, index, count) matches Ok((_, captures)) ==> forall|i: int|
            #![trigger captures[i]]
            0 <= i < captures.len() ==> exists|p: int|
                0 <= p < events.len() && #[trigger] events[p] == Ok::<EventView, EventParseErrorView>(
                    EventView::TestFinish { name: captures[i].name, result: captures[i].result },
                ),
    decreases count - index,
{
    if index < count {
        if let Ok(EventView::TestStart { name }) = read_event(events, pos) {
            lemma_test_output_finishes(lines, events, pos + 1, name);
            if let Some((next, output, result)) = test_output(lines, events, pos + 1, name) {
                lemma_test_captures_from_finishes(lines, events, next, index + 1, count);
                if let Ok((end, later)) = test_captures_from(lines, events, next, index + 1, count) {
                    let captures = seq![TestCaptureView { name, result, output }] + later;
                    assert forall|i: int| #![trigger captures[i]] 0 <= i < captures.len() implies exists|p: int|
                        0 <= p < events.len() && #[trigger] events[p] == Ok::<EventView, EventParseErrorView>(
                            EventView::TestFinish { name: captures[i].name, result: captures[i].result },
                        ) by {
                        if i == 0 {
                            assert(events[next - 1] == Ok::<EventView, EventParseErrorView>(
                                EventView::TestFinish { name: captures[0].name, result: captures[0].result },
                            ));
                        } else {
                            assert(captures[i] == later[i - 1]);
                        }
                    }
                }
            }
        }
    }
}

/// Each capture's result is the result that the finish event of its test
/// carries: for every capture there is a line that holds the event finishing a
/// test of that name with that result.
pub proof fn lemma_capture_results_come_from_finish_events(
    lines: Seq<Seq<char>>,
    events: Seq<Result<EventView, EventParseErrorView>>,
)
    ensures
        captures_from_events(lines, events) matches Ok(captures) ==> forall|i: int|
            #![trigger captures[i]]
            0 <= i < captures.len() ==> exists|p: int|
                0 <= p < events.len() && #[trigger] events[p] == Ok::<EventView, EventParseErrorView>(
                    EventView::TestFinish { name: captures[i].name, result: captures[i].result },
                ),
{
    if let Ok(EventView::SuiteStart { test_count }) = read_event(events, 0) {
        lemma_test_captures_from_finishes(lines, events, 1, 0, test_count as int);
    }
}

/// A suite finish event carries the counters of the JSON object under the same
/// names, and its result is `Passed` for an `ok` event and `Failed` for a
/// `failed` one.
pub proof fn lemma_suite_finish_counters(value: Value)
    ensures
        event_from_value(value) matches Ok(
            EventView::SuiteFinish { result, passed, failed, allowed_fail, ignored, measured, filtered_out },
        ) ==> {
            let numbers = crate::json::json_u64_members(value);
            let strings = crate::json::json_string_members(value);
            &&& numbers.contains_key("passed"@) && numbers["passed"@] == passed
            &&& numbers.contains_key("failed"@) && numbers["failed"@] == failed
            &&& numbers.contains_key("allowed_fail"@) && numbers["allowed_fail"@] == allowed_fail
            &&& numbers.contains_key("ignored"@) && numbers["ignored"@] == ignored
            &&& numbers.contains_key("measured"@) && numbers["measured"@] == measured
            &&& numbers.contains_key("filtered_out"@) && numbers["filtered_out"@] == filtered_out
            &&& strings["type"@] == "suite"@
            &&& result == OkOrFailed::Passed ==> strings["event"@] == "ok"@
            &&& result == OkOrFailed::Failed ==> strings["event"@] == "failed"@
        },
{
}

/// A test finish event names the test of the `name` member, and its result
/// follows the `event` member: `failed` gives `Failed`, `ok` gives `Passed`.
pub proof fn lemma_test_finish_result(value: Value)
    ensures
        event_from_value(value) matches Ok(EventView::TestFinish { name, result }) ==> {
            let strings = crate::json::json_string_members(value);
            &&& strings["type"@] == "test"@
            &&& strings.contains_key("name"@) && strings["name"@] == name
            &&& result matches TestResultView::Failed(_) ==> strings["event"@] == "failed"@
            &&& result == TestResultView::Passed ==> strings["event"@] == "ok"@
        },
        event_from_value(value) is Ok && crate::json::json_string_members(value)["type"@] == "test"@
            && crate::json::json_string_members(value)["event"@] == "failed"@
            ==> event_from_value(value)->Ok_0 matches EventView::TestFinish { result: TestResultView::Failed(_), .. },
{
    reveal_strlit("suite");
    reveal_strlit("test");
    reveal_strlit("started");
    reveal_strlit("ok");
    reveal_strlit("failed");
    assert("test"@[0] != "suite"@[0]);
    assert("failed"@[0] != "started"@[0]);
    assert("failed"@[0] != "ok"@[0]);
}

proof fn lemma_test_captures_from_count(
    lines: Seq<Seq<char>>,
    events: Seq<Result<EventView, EventParseErrorView>>,
    pos: int,
    index: int,
    count: int,
)
    requires
        index <= count,
    ensures
        test_captures_from(lines, events, pos, index, count) matches Ok((_, captures))
            ==> captures.len() == count - index,
    decreases count - index,
{
    if index < count {
        if let Ok(EventView::TestStart { name }) = read_event(events, pos) {
            if let Some((next, _, _)) = test_output(lines, events, pos + 1, name) {
                lemma_test_captures_from_count(lines, events, next, index + 1, count);
            }
        }
    }
}

/// A suite run that reads as captures has one capture per test that its
/// first line announced.
pub proof fn lemma_one_capture_per_test(
    lines: Seq<Seq<char>>,
    events: Seq<Result<EventView, EventParseErrorView>>,
)
    ensures
        captures_from_events(lines, events) matches Ok(captures) ==> (events[0] matches Ok(
            EventView::SuiteStart { test_count },
        ) && captures.len() == test_count),
{
    if let Ok(EventView::SuiteStart { test_count }) = read_event(events, 0) {
        lemma_test_captures_from_count(lines, events, 1, 0, test_count as int);
    }
}

fn reversed<T>(v: Vec<T>) -> (r: Vec<T>)
    ensures
        r@ == v@.reverse(),
{
    let ghost original = v@;
    let mut rest = v;
    let mut r: Vec<T> = Vec::new();
    while rest.len() > 0
        invariant
            rest@.len() + r@.len() == original.len(),
            forall|j: int| 0 <= j < rest@.len() ==> rest@[j] == original[j],
            forall|j: int| 0 <= j < r@.len() ==> r@[j] == original[original.len() - 1 - j],
        decreases rest.len(),
    {
        let x = rest.pop().unwrap();
        r.push(x);
    }
    proof {
        assert(r@ =~= original.reverse());
    }
    r
}

/// The event that a line holds: the line read as JSON and then as an event; a
/// JSON error where the line is no JSON document.
pub open spec fn line_event(line: Seq<char>) -> Result<EventView, EventParseErrorView> {
    match crate::json::json_parse(line) {
        None => Err(EventParseErrorView::Json),
        Some(value) => match event_from_value(value) {
            Ok(e) => Ok(e),
            Err(e) => Err(EventParseErrorView::Event(e)),
        },
    }
}

/// The lines a line reader hands out as text: the lines up to the first one
/// that is no valid UTF-8, decoded.
pub open spec fn decoded_lines(lines: Seq<Seq<u8>>) -> Seq<Seq<char>>
    decreases lines.len(),
{
    if lines.len() == 0 || !vstd::utf8::valid_utf8(lines[0]) {
        Seq::<Seq<char>>::empty()
    } else {
        seq![vstd::utf8::decode_utf8(lines[0])] + decoded_lines(lines.drop_first())
    }
}

/// The captures of a suite run read line by line from its output `bytes`,
/// each line with the event it holds. A line that is no valid UTF-8 ends what
/// can be read; where the reading needs that line, it fails with `InvalidUtf8`.
pub open spec fn output_captures(bytes: Seq<u8>) -> Result<Seq<TestCaptureView>, OutputErrorView> {
    let lines = crate::line_breaking::reader_lines(bytes);
    let readable = decoded_lines(lines);
    let read = captures_from_events(readable, readable.map_values(|l: Seq<char>| line_event(l)));
    if readable.len() < lines.len() && read == Err::<Seq<TestCaptureView>, OutputErrorView>(OutputErrorView::UnexpectedEof) {
        Err(OutputErrorView::InvalidUtf8)
    } else {
        read
    }
}

/// `std::str::from_utf8`: claims that the bytes are accepted exactly where
/// they are valid UTF-8, and decode to the text.
#[verifier::external_body]
pub(crate) fn utf8_text(bytes: &[u8]) -> (text: Option<&str>)
    ensures
        text is Some <==> vstd::utf8::valid_utf8(bytes@),
        text matches Some(t) ==> t@ == vstd::utf8::decode_utf8(bytes@),
{
    std::str::from_utf8(bytes).ok()
}

/// Reads one line as a libtest event.
pub fn parse_event(line: &str) -> (event: Result<Event, EventParseError>)
    ensures
        parse_result_view(event) == line_event(line@),
{
    match parse_json(line) {
        Ok(value) => match Event::from_json(&value) {
            Ok(e) => Ok(e),
            Err(e) => Err(EventParseError::Event(e)),
        },
        Err(e) => Err(EventParseError::Json(e)),
    }
}

impl TestCaptures {
    /// Reads the captures of a suite run from its output lines and the event
    /// that each line holds (`events[i]` is what `lines[i]` reads as).
    pub fn from_events(lines: &Vec<&str>, events: Vec<Result<Event, EventParseError>>) -> (captures: Result<TestCaptures, OutputError>)
        requires
            lines@.len() == events@.len(),
        ensures
            captures_result_view(captures) == captures_from_events(
                lines@.map_values(|l: &str| l@),
                events@.map_values(|e: Result<Event, EventParseError>| parse_result_view(e)),
            ),
    {
        let ghost ls = lines@.map_values(|l: &str| l@);
        let ghost evs = events@.map_values(|e: Result<Event, EventParseError>| parse_result_view(e));
        let ghost all = events@;
        let n = events.len();
        let mut pending = reversed(events);
        let mut pos: usize = 0;
        let test_count = match pending.pop() {
            None => {
                return Err(OutputError::UnexpectedEof);
            },
            Some(Err(e)) => {
                return Err(OutputError::Parse(e));
            },
            Some(Ok(Event::SuiteStart { test_count })) => test_count,
            Some(Ok(e)) => {
                return Err(OutputError::Results(TestResultsError::ExpectedSuiteStart(e)));
            },
        };
        pos = 1;
        let mut captures: Vec<TestCapture> = Vec::new();
        let mut index: usize = 0;
        while index < test_count
            invariant
                n == all.len(),
                n == lines@.len(),
                ls == lines@.map_values(|l: &str| l@),
                evs == all.map_values(|e: Result<Event, EventParseError>| parse_result_view(e)),
                evs == events@.map_values(|e: Result<Event, EventParseError>| parse_result_view(e)),
                evs.len() == n,
                pos <= n,
                pending@.len() == n - pos,
                forall|j: int| 0 <= j < pending@.len() ==> pending@[j] == all[n - 1 - j],
                index <= test_count,
                read_event(evs, 0) == Ok::<EventView, OutputErrorView>(EventView::SuiteStart { test_count }),
                test_captures_from(ls, evs, 1, 0, test_count as int) == prepend_captures(
                    captures@.map_values(|c: TestCapture| c@),
                    test_captures_from(ls, evs, pos as int, index as int, test_count as int),
                ),
            decreases test_count - index,
        {
            let ghost start = pos as int;
            let ghost done = captures@.map_values(|c: TestCapture| c@);
            let popped = pending.pop();
            proof {
                if pos < n {
                    assert(popped == Some(all[pos as int]));
                    assert(evs[pos as int] == parse_result_view(all[pos as int]));
                }
            }
            let name = match popped {
                None => {
                    proof {
                        assert(read_event(evs, pos as int) == Err::<EventView, OutputErrorView>(OutputErrorView::UnexpectedEof));
                        assert(test_captures_from(ls, evs, pos as int, index as int, test_count as int)
                            == Err::<(int, Seq<TestCaptureView>), OutputErrorView>(OutputErrorView::UnexpectedEof));
                        assert(test_captures_from(ls, evs, 1, 0, test_count as int)
                            == Err::<(int, Seq<TestCaptureView>), OutputErrorView>(OutputErrorView::UnexpectedEof));
                        assert(captures_from_events(ls, evs) == Err::<Seq<TestCaptureView>, OutputErrorView>(OutputErrorView::UnexpectedEof));
                    }
                    return Err(OutputError::UnexpectedEof);
                },
                Some(Err(e)) => {
                    proof {
                        assert(read_event(evs, pos as int) == Err::<EventView, OutputErrorView>(OutputErrorView::Parse(e@)));
                    }
                    return Err(OutputError::Parse(e));
                },
                Some(Ok(Event::TestStart { name })) => name,
                Some(Ok(e)) => {
                    proof {
                        assert(read_event(evs, pos as int) == Ok::<EventView, OutputErrorView>(e@));
                    }
                    return Err(
                        OutputError::Results(TestResultsError::ExpectedTestStart { index, event: e }),
                    );
                },
            };
            pos = pos + 1;
            let ghost first = pos as int;
            let mut output = String::new();
            let mut result = TestResult::Ignored;
            loop
                invariant_except_break
                    pos <= n,
                    pending@.len() == n - pos,
                    forall|j: int| 0 <= j < pending@.len() ==> pending@[j] == all[n - 1 - j],
                    test_output(ls, evs, first, name@) == prepend_output(
                        output@,
                        test_output(ls, evs, pos as int, name@),
                    ),
                invariant
                    n == all.len(),
                    n == lines@.len(),
                    index < test_count,
                    first == start + 1,
                    read_event(evs, 0) == Ok::<EventView, OutputErrorView>(EventView::SuiteStart { test_count }),
                    read_event(evs, start) == Ok::<EventView, OutputErrorView>(EventView::TestStart { name: name@ }),
                    test_captures_from(ls, evs, 1, 0, test_count as int) == prepend_captures(
                        done,
                        test_captures_from(ls, evs, start, index as int, test_count as int),
                    ),
                    ls == lines@.map_values(|l: &str| l@),
                    evs == all.map_values(|e: Result<Event, EventParseError>| parse_result_view(e)),
                    evs == events@.map_values(|e: Result<Event, EventParseError>| parse_result_view(e)),
                    evs.len() == n,
                ensures
                    pos <= n,
                    pending@.len() == n - pos,
                    forall|j: int| 0 <= j < pending@.len() ==> pending@[j] == all[n - 1 - j],
                    test_output(ls, evs, first, name@) == Some((pos as int, output@, result@)),
                decreases n - pos,
            {
                let ghost at = pos as int;
                let ghost before = output@;
                match pending.pop() {
                    None => {
                        return Err(OutputError::UnexpectedEof);
                    },
                    Some(event) => {
                        proof {
                            assert(event == all[at]);
                            assert(evs[at] == parse_result_view(event));
                        }
                        let line = lines[pos];
                        pos = pos + 1;
                        match event {
                            Ok(Event::TestFinish { name: finished, result: finished_result }) => {
                                if finished == name {
                                    result = finished_result;
                                    proof {
                                        assert(output@ =~= before + Seq::<char>::empty());
                                    }
                                    break;
                                } else {
                                    output.append(line);
                                }
                            },
                            _ => {
                                output.append(line);
                            },
                        }
                        proof {
                            assert(ls[at] == line@);
                            assert(before + (line@ + Seq::<char>::empty()) =~= output@ + Seq::<char>::empty());
                        }
                    },
                }
            }
            let ghost capture = TestCaptureView { name: name@, result: result@, output: output@ };
            captures.push(TestCapture { name, result, output });
            proof {
                assert(captures@.map_values(|c: TestCapture| c@) =~= done.push(capture));
                let rest = test_captures_from(ls, evs, pos as int, index + 1, test_count as int);
                match rest {
                    Ok((end, later)) => {
                        assert(done + (seq![capture] + later) =~= done.push(capture) + later);
                    },
                    Err(e) => {},
                }
            }
            index = index + 1;
        }
        match pending.pop() {
            None => Err(OutputError::UnexpectedEof),
            Some(Err(e)) => Err(OutputError::Parse(e)),
            Some(Ok(Event::SuiteFinish { .. })) => Ok(TestCaptures(captures)),
            Some(Ok(e)) => Err(OutputError::Results(TestResultsError::ExpectedSuiteStart(e))),
        }
    }

    /// Parses output lines from a complete libtest / suite test into
    /// a number of test captures.
    ///
    /// The output is read line by line; a line is decoded when it is read.
    pub fn from_output(output: &[u8]) -> (captures: Result<TestCaptures, OutputError>)
        ensures
            captures_result_view(captures) == output_captures(output@),
    {
        let byte_lines = bytes_as_reader_lines(output);
        let ghost all = crate::line_breaking::reader_lines(output@);
        let mut lines: Vec<&str> = Vec::new();
        let mut events: Vec<Result<Event, EventParseError>> = Vec::new();
        let mut i: usize = 0;
        proof {
            assert(all.skip(0) =~= all);
            assert(lines@.map_values(|l: &str| l@) + decoded_lines(all.skip(0)) =~= decoded_lines(all));
        }
        while i < byte_lines.len()
            invariant_except_break
                lines@.map_values(|l: &str| l@) + decoded_lines(all.skip(i as int)) == decoded_lines(all),
            invariant
                byte_lines@.map_values(|l: &[u8]| l@) == all,
                i <= all.len(),
                lines@.len() == i,
                events@.len() == i,
                forall|j: int| 0 <= j < i ==> parse_result_view(#[trigger] events@[j]) == line_event(lines@[j]@),
            ensures
                lines@.map_values(|l: &str| l@) == decoded_lines(all),
                lines@.len() <= all.len(),
                events@.len() == lines@.len(),
                forall|j: int| 0 <= j < lines@.len() ==> parse_result_view(#[trigger] events@[j]) == line_event(lines@[j]@),
            decreases all.len() - i,
        {
            let ghost rest = all.skip(i as int);
            proof {
                assert(rest[0] == byte_lines@[i as int]@);
                assert(rest.drop_first() =~= all.skip(i + 1));
            }
            match utf8_text(byte_lines[i]) {
                None => {
                    proof {
                        assert(decoded_lines(rest) =~= Seq::<Seq<char>>::empty());
                        assert(lines@.map_values(|l: &str| l@) =~= lines@.map_values(|l: &str| l@) + decoded_lines(rest));
                    }
                    break;
                },
                Some(line) => {
                    let ghost before = lines@.map_values(|l: &str| l@);
                    lines.push(line);
                    events.push(parse_event(line));
                    proof {
                        assert(lines@.map_values(|l: &str| l@) =~= before.push(line@));
                        assert(before + decoded_lines(rest) =~= before.push(line@) + decoded_lines(all.skip(i + 1)));
                    }
                },
            }
            i = i + 1;
        }
        proof {
            if i == all.len() {
                assert(all.skip(i as int) =~= Seq::<Seq<u8>>::empty());
                assert(lines@.map_values(|l: &str| l@) =~= lines@.map_values(|l: &str| l@) + decoded_lines(all.skip(i as int)));
            }
        }
        let ghost readable = decoded_lines(all);
        let ghost evs = events@.map_values(|e: Result<Event, EventParseError>| parse_result_view(e));
        proof {
            assert(evs =~= readable.map_values(|l: Seq<char>| line_event(l))) by {
                assert forall|j: int| 0 <= j < evs.len() implies evs[j] == readable.map_values(|l: Seq<char>| line_event(l))[j] by {
                    assert(readable[j] == lines@[j]@);
                }
            }
        }
        let read_all = lines.len() == byte_lines.len();
        let captures = Self::from_events(&lines, events);
        match captures {
            Err(OutputError::UnexpectedEof) => {
                if read_all {
                    Err(OutputError::UnexpectedEof)
                } else {
                    Err(OutputError::InvalidUtf8)
                }
            },
            other => other,
        }
    }
}

} // verus!
