//! Interpreting what a test run printed: the compiler's messages first, then
//! the JSON events of the test harness.

use vstd::prelude::*;
use cargo_metadata::CompilerMessage;
use crate::libtest::{OutputError, OutputErrorView, TestCaptureView, TestCaptures};

verus! {

#[verifier::external_type_specification]
#[verifier::external_body]
pub struct ExCompilerMessage(cargo_metadata::CompilerMessage);

/// The outcome of running the tests of a project.
#[derive(Debug)]
pub enum TestRunResult {
    /// The tests did not build or run: the compiler messages and the error.
    CompilationFailed(Vec<CompilerMessage>, String),
    /// The tests ran: the compiler messages and the captures of the tests.
    TestsCaptured(Vec<CompilerMessage>, TestCaptures),
}

/// A message of cargo, as far as the test runner tells them apart.
pub enum CargoMessage {
    Compiler(CompilerMessage),
    Other,
}

/// What `cargo_metadata::parse_messages` reads first from `bytes`, and the
/// stream's `byte_offset` after it: `None` at the end of the input,
/// `Ok(Some(m))` for the compiler message `m`, `Ok(None)` for another cargo
/// message, `Err(())` where no cargo message follows. The stream is a function
/// of the bytes alone.
pub uninterp spec fn first_cargo_message_read(bytes: Seq<u8>) -> (Option<Result<Option<CompilerMessage>, ()>>, usize);

/// An item of the stream as `first_cargo_message_read` names it.
pub open spec fn cargo_message_item(next: Option<Result<CargoMessage, ()>>) -> Option<Result<Option<CompilerMessage>, ()>> {
    match next {
        None => None,
        Some(Ok(CargoMessage::Compiler(m))) => Some(Ok(Some(m))),
        Some(Ok(CargoMessage::Other)) => Some(Ok(None)),
        Some(Err(())) => Some(Err(())),
    }
}

/// The first item of `cargo_metadata::parse_messages` on `bytes`, and the
/// stream's `byte_offset` after it: `None` at the end of the input, an error
/// where no cargo message follows. Claims that the item and the offset are the
/// named read of the bytes, that the offset lies within `bytes`, and that a
/// message read takes at least one byte, as the stream deserializer of
/// serde_json, which `parse_messages` returns, shows.
#[verifier::external_body]
#[allow(deprecated)]
fn first_cargo_message(bytes: &[u8]) -> (first: (Option<Result<CargoMessage, ()>>, usize))
    ensures
        (cargo_message_item(first.0), first.1) == first_cargo_message_read(bytes@),
        first.1 <= bytes@.len(),
        first.0 matches Some(Ok(_)) ==> first.1 > 0,
{
    let mut stream = cargo_metadata::parse_messages(bytes);
    let next = match stream.next() {
        None => None,
        Some(Ok(cargo_metadata::Message::CompilerMessage(message))) => Some(Ok(CargoMessage::Compiler(message))),
        Some(Ok(_)) => Some(Ok(CargoMessage::Other)),
        Some(Err(_)) => Some(Err(())),
    };
    (next, stream.byte_offset())
}

/// Reading cargo messages from the start of `bytes` for as long as there are:
/// the compiler messages read, in order, and the offset where reading
/// stopped, just after the item that ended it.
pub open spec fn cargo_messages_read(bytes: Seq<u8>) -> (Seq<CompilerMessage>, int)
    decreases bytes.len(),
{
    let (item, consumed) = first_cargo_message_read(bytes);
    if (item matches Some(Ok(_))) && 0 < consumed <= bytes.len() {
        let (messages, offset) = cargo_messages_read(bytes.subrange(consumed as int, bytes.len() as int));
        (
            match item {
                Some(Ok(Some(m))) => seq![m] + messages,
                _ => messages,
            },
            consumed + offset,
        )
    } else {
        (Seq::<CompilerMessage>::empty(), consumed as int)
    }
}

/// Every compiler message that the stream yields is kept, whatever its level,
/// and other cargo messages are skipped: reading from `bytes` gives the message
/// read first, if it is a compiler message, followed by what reading from the
/// bytes after it gives; reading stops, keeping nothing more, at the end of the
/// input or where no cargo message follows.
pub proof fn lemma_cargo_messages_kept(bytes: Seq<u8>)
    ensures
        ({
            let (item, consumed) = first_cargo_message_read(bytes);
            let rest = cargo_messages_read(bytes.subrange(consumed as int, bytes.len() as int));
            let all = cargo_messages_read(bytes);
            &&& item matches Some(Ok(Some(m))) ==> (0 < consumed <= bytes.len() ==> all.0.len() == rest.0.len() + 1
                && all.0[0] == m && all.0.drop_first() == rest.0 && all.1 == consumed + rest.1)
            &&& (item matches Some(Ok(None)) && 0 < consumed <= bytes.len()) ==> all.0 == rest.0 && all.1
                == consumed + rest.1
            &&& !(item matches Some(Ok(_))) ==> all.0.len() == 0 && all.1 == consumed
        }),
{
    let (item, consumed) = first_cargo_message_read(bytes);
    if let Some(Ok(Some(m))) = item {
        if 0 < consumed <= bytes.len() {
            let rest = cargo_messages_read(bytes.subrange(consumed as int, bytes.len() as int));
            assert((seq![m] + rest.0).drop_first() =~= rest.0);
        }
    }
}

/// Every compiler message read is returned: the number of messages equals the
/// number of compiler messages in the stream, counted item by item.
pub open spec fn compiler_message_count(bytes: Seq<u8>) -> nat
    decreases bytes.len(),
{
    let (item, consumed) = first_cargo_message_read(bytes);
    if (item matches Some(Ok(_))) && 0 < consumed <= bytes.len() {
        compiler_message_count(bytes.subrange(consumed as int, bytes.len() as int)) + if item matches Some(
            Ok(Some(_)),
        ) {
            1nat
        } else {
            0nat
        }
    } else {
        0
    }
}

/// The messages read are as many as the compiler messages that the stream
/// yields before it stops.
pub proof fn lemma_cargo_messages_count(bytes: Seq<u8>)
    ensures
        cargo_messages_read(bytes).0.len() == compiler_message_count(bytes),
    decreases bytes.len(),
{
    let (item, consumed) = first_cargo_message_read(bytes);
    if (item matches Some(Ok(_))) && 0 < consumed <= bytes.len() {
        lemma_cargo_messages_count(bytes.subrange(consumed as int, bytes.len() as int));
    }
}

/// Reads cargo messages from the start of `captured` for as long as there
/// are, keeping the compiler messages, and returns them with the offset where
/// the rest of the output begins.
pub fn split_compiler_messages(captured: &[u8]) -> (split: (Vec<CompilerMessage>, usize))
    ensures
        split.0@ == cargo_messages_read(captured@).0,
        split.0@.len() == compiler_message_count(captured@),
        split.1 == cargo_messages_read(captured@).1,
        split.1 <= captured@.len(),
{
    let mut messages: Vec<CompilerMessage> = Vec::new();
    let total = captured.len();
    let mut offset: usize = 0;
    assert(captured@.subrange(0, total as int) =~= captured@);
    assert(messages@ + cargo_messages_read(captured@).0 =~= cargo_messages_read(captured@).0);
    loop
        invariant_except_break
            total == captured@.len(),
            offset <= captured@.len(),
            cargo_messages_read(captured@) == (
                messages@ + cargo_messages_read(captured@.subrange(offset as int, total as int)).0,
                offset + cargo_messages_read(captured@.subrange(offset as int, total as int)).1,
            ),
        ensures
            offset <= captured@.len(),
            cargo_messages_read(captured@) == (messages@, offset as int),
        decreases captured@.len() - offset,
    {
        let (_, rest) = captured.split_at(offset);
        let (next, consumed) = first_cargo_message(rest);
        let ghost before = messages@;
        proof {
            assert(rest@ == captured@.subrange(offset as int, total as int));
            let tail = rest@.subrange(consumed as int, rest@.len() as int);
            assert(tail =~= captured@.subrange(offset + consumed, total as int));
        }
        match next {
            Some(Ok(CargoMessage::Compiler(message))) => {
                let ghost m = message;
                messages.push(message);
                proof {
                    let later = cargo_messages_read(captured@.subrange(offset + consumed, total as int)).0;
                    assert(before + (seq![m] + later) =~= messages@ + later);
                }
                offset = offset + consumed;
            },
            Some(Ok(CargoMessage::Other)) => {
                offset = offset + consumed;
            },
            _ => {
                proof {
                    assert(before + Seq::<CompilerMessage>::empty() =~= before);
                }
                offset = offset + consumed;
                break;
            },
        }
    }
    proof {
        lemma_cargo_messages_count(captured@);
    }
    (messages, offset)
}

/// The captures of the tests, or the error, that the bytes of `bytes` from
/// `offset` on read as.
pub open spec fn output_reading(bytes: Seq<u8>, offset: int) -> Result<Seq<TestCaptureView>, OutputErrorView> {
    crate::libtest::output_captures(bytes.subrange(offset, bytes.len() as int))
}

/// The captures, or the error, that a run's result holds.
pub open spec fn captures_of_run(result: Result<TestRunResult, OutputError>) -> Result<TestCaptures, OutputError> {
    match result {
        Ok(TestRunResult::TestsCaptured(_, c)) => Ok(c),
        Ok(TestRunResult::CompilationFailed(_, _)) => Err(OutputError::UnexpectedEof),
        Err(e) => Err(e),
    }
}

/// The compiler messages that a run's result holds.
pub open spec fn messages_of_run(result: Result<TestRunResult, OutputError>) -> Seq<CompilerMessage> {
    match result {
        Ok(TestRunResult::TestsCaptured(m, _)) => m@,
        Ok(TestRunResult::CompilationFailed(m, _)) => m@,
        Err(_) => Seq::<CompilerMessage>::empty(),
    }
}

/// Reads the captures of the tests from the bytes of `captured` from `offset` on.
fn captures_after(captured: &[u8], offset: usize) -> (read: Result<TestCaptures, OutputError>)
    requires
        offset <= captured@.len(),
    ensures
        crate::libtest::captures_result_view(read) == output_reading(captured@, offset as int),
{
    let (_, rest) = captured.split_at(offset);
    TestCaptures::from_output(rest)
}

/// The level of a compiler message, as rustc reports it.
#[derive(Clone, Copy, PartialEq, Eq, Debug)]
pub enum Level {
    Ice,
    Error,
    Warning,
    FailureNote,
    Note,
    Help,
}

/// The level of a compiler message: its `message.level`.
pub uninterp spec fn compiler_message_level(message: CompilerMessage) -> Level;

/// Reads `message.level` of a compiler message: claims that it is the named
/// level of the message.
#[verifier::external_body]
fn message_level(message: &CompilerMessage) -> (level: Level)
    ensures
        level == compiler_message_level(*message),
{
    match message.message.level {
        cargo_metadata::diagnostic::DiagnosticLevel::Ice => Level::Ice,
        cargo_metadata::diagnostic::DiagnosticLevel::Error => Level::Error,
        cargo_metadata::diagnostic::DiagnosticLevel::Warning => Level::Warning,
        cargo_metadata::diagnostic::DiagnosticLevel::FailureNote => Level::FailureNote,
        cargo_metadata::diagnostic::DiagnosticLevel::Note => Level::Note,
        _ => Level::Help,
    }
}

/// The levels of `messages`, in order.
pub fn message_levels(messages: &Vec<CompilerMessage>) -> (levels: Vec<Level>)
    ensures
        levels@ == messages@.map_values(|m: CompilerMessage| compiler_message_level(m)),
{
    let mut levels: Vec<Level> = Vec::new();
    let mut i: usize = 0;
    while i < messages.len()
        invariant
            i <= messages@.len(),
            levels@ == messages@.take(i as int).map_values(|m: CompilerMessage| compiler_message_level(m)),
        decreases messages@.len() - i,
    {
        levels.push(message_level(&messages[i]));
        proof {
            assert(messages@.take(i + 1).map_values(|m: CompilerMessage| compiler_message_level(m))
                =~= messages@.take(i as int).map_values(|m: CompilerMessage| compiler_message_level(m)).push(
                compiler_message_level(messages@[i as int]),
            ));
        }
        i = i + 1;
    }
    proof {
        assert(messages@.take(messages@.len() as int) =~= messages@);
    }
    levels
}

/// The positions of `levels` below `end` whose level is (`errors`) or is not
/// (`!errors`) `Error`, in increasing order.
pub open spec fn positions_where(levels: Seq<Level>, errors: bool, end: int) -> Seq<usize>
    decreases end,
{
    if end <= 0 {
        Seq::<usize>::empty()
    } else if (levels[end - 1] == Level::Error) == errors {
        positions_where(levels, errors, end - 1).push((end - 1) as usize)
    } else {
        positions_where(levels, errors, end - 1)
    }
}

/// The positions `positions_where` lists are exactly those below `end` whose
/// level is, or is not, `Error`, each once and in increasing order.
pub proof fn lemma_positions_where(levels: Seq<Level>, errors: bool, end: int)
    requires
        0 <= end <= levels.len(),
        levels.len() <= usize::MAX,
    ensures
        forall|i: int|
            0 <= i < end ==> (positions_where(levels, errors, end).contains(i as usize) <==> (levels[i]
                == Level::Error) == errors),
        forall|k: int|
            0 <= k < positions_where(levels, errors, end).len() ==> #[trigger] positions_where(levels, errors, end)[k]
                < end,
        forall|k: int, l: int|
            0 <= k < l < positions_where(levels, errors, end).len() ==> positions_where(levels, errors, end)[k]
                < positions_where(levels, errors, end)[l],
    decreases end,
{
    if end > 0 {
        lemma_positions_where(levels, errors, end - 1);
        let previous = positions_where(levels, errors, end - 1);
        let current = positions_where(levels, errors, end);
        if (levels[end - 1] == Level::Error) == errors {
            assert(current == previous.push((end - 1) as usize));
            assert forall|i: int| 0 <= i < end implies (current.contains(i as usize) <==> (levels[i] == Level::Error)
                == errors) by {
                if i == end - 1 {
                    assert(current[previous.len() as int] == i as usize);
                } else {
                    if previous.contains(i as usize) {
                        let k = choose|k: int| 0 <= k < previous.len() && previous[k] == i as usize;
                        assert(current[k] == i as usize);
                    }
                    if current.contains(i as usize) {
                        let k = choose|k: int| 0 <= k < current.len() && current[k] == i as usize;
                        if k < previous.len() {
                            assert(previous[k] == i as usize);
                        }
                    }
                }
            }
        } else {
            assert forall|i: int| 0 <= i < end implies (current.contains(i as usize) <==> (levels[i] == Level::Error)
                == errors) by {
                if i == end - 1 {
                    if current.contains(i as usize) {
                        let k = choose|k: int| 0 <= k < current.len() && current[k] == i as usize;
                        assert(previous[k] < end - 1);
                    }
                }
            }
        }
    }
}

/// A compiler message is among the errors exactly when its level is `Error`,
/// and among the rest exactly when it is not; each part lists its positions
/// once, in increasing order.
pub proof fn lemma_partition_by_level(levels: Seq<Level>)
    requires
        levels.len() <= usize::MAX,
    ensures
        forall|i: int|
            0 <= i < levels.len() ==> (positions_where(levels, true, levels.len() as int).contains(i as usize)
                <==> levels[i] == Level::Error),
        forall|i: int|
            0 <= i < levels.len() ==> (positions_where(levels, false, levels.len() as int).contains(i as usize)
                <==> levels[i] != Level::Error),
        positions_where(levels, true, levels.len() as int).len() + positions_where(levels, false, levels.len() as int).len()
            == levels.len(),
{
    lemma_positions_where(levels, true, levels.len() as int);
    lemma_positions_where(levels, false, levels.len() as int);
    lemma_positions_count(levels, levels.len() as int);
}

proof fn lemma_positions_count(levels: Seq<Level>, end: int)
    requires
        0 <= end <= levels.len(),
    ensures
        positions_where(levels, true, end).len() + positions_where(levels, false, end).len() == end,
    decreases end,
{
    if end > 0 {
        lemma_positions_count(levels, end - 1);
    }
}

/// Splits the positions of compiler messages into those of the errors and
/// those of the rest, each in the order of the messages.
pub fn partition_by_level(levels: &Vec<Level>) -> (partition: (Vec<usize>, Vec<usize>))
    ensures
        partition.0@ == positions_where(levels@, true, levels@.len() as int),
        partition.1@ == positions_where(levels@, false, levels@.len() as int),
        forall|i: int| 0 <= i < levels@.len() ==> (partition.0@.contains(i as usize) <==> levels@[i] == Level::Error),
        forall|i: int| 0 <= i < levels@.len() ==> (partition.1@.contains(i as usize) <==> levels@[i] != Level::Error),
{
    let mut errors: Vec<usize> = Vec::new();
    let mut rest: Vec<usize> = Vec::new();
    let mut i: usize = 0;
    while i < levels.len()
        invariant
            i <= levels@.len(),
            errors@ == positions_where(levels@, true, i as int),
            rest@ == positions_where(levels@, false, i as int),
        decreases levels@.len() - i,
    {
        if matches!(levels[i], Level::Error) {
            errors.push(i);
        } else {
            rest.push(i);
        }
        i = i + 1;
    }
    proof {
        lemma_partition_by_level(levels@);
    }
    (errors, rest)
}

/// Interprets the output of a test run: the compiler messages at its start
/// and, where the run succeeded, the captures of the tests in the rest.
///
/// `run_error` is the error of the run, if it failed.
pub fn interpret_test_run(captured: &[u8], run_error: Option<String>) -> (result: Result<TestRunResult, OutputError>)
    ensures
        run_error matches Some(message) ==> result matches Ok(TestRunResult::CompilationFailed(_, m)) && m@ == message@,
        run_error is None ==> !(result matches Ok(TestRunResult::CompilationFailed(_, _))),
        run_error is None ==> crate::libtest::captures_result_view(captures_of_run(result))
            == output_reading(captured@, cargo_messages_read(captured@).1),
        result is Ok ==> messages_of_run(result) == cargo_messages_read(captured@).0,
{
    let (messages, offset) = split_compiler_messages(captured);
    match run_error {
        Some(e) => Ok(TestRunResult::CompilationFailed(messages, e)),
        None => match captures_after(captured, offset) {
            Ok(captures) => Ok(TestRunResult::TestsCaptured(messages, captures)),
            Err(e) => Err(e),
        },
    }
}

} // verus!
