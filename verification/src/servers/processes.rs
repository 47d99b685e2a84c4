//! The per-server process runner: how a command line becomes a program to
//! launch, and how the output of the child reaches the log cache.

use crate::util::log_cache::LogCache;
use crate::util::{lemma_newest_of_appends, newest};
use shell_words::ParseError;
use vstd::prelude::*;
use vstd::utf8::encode_utf8;

verus! {

/// The number of bytes of recent output kept for each server.
pub const LOG_CAPACITY: usize = 4096;

/// The error of `shell_words::split`: a quote that is never closed.
#[verifier::external_type_specification]
#[verifier::external_body]
pub struct ExParseError(ParseError);

/// The words that `shell_words::split` makes of a command line, or `None`
/// where it reports an error.
pub uninterp spec fn shell_split(line: Seq<char>) -> Option<Seq<Seq<char>>>;

/// The characters of each word.
pub open spec fn word_views(words: Seq<String>) -> Seq<Seq<char>> {
    words.map_values(|word: String| word@)
}

/// `shell_words::split`: splits a command line into words the way a POSIX
/// shell does, with quoting and escaping honoured and without expansion.
/// The result depends on the line alone.
#[verifier::external_body]
fn split_words(line: &str) -> (words: Result<Vec<String>, ParseError>)
    ensures
        match words {
            Ok(list) => shell_split(line@) == Some(word_views(list@)),
            Err(_) => shell_split(line@) is None,
        },
{
    shell_words::split(line)
}

/// Why a server could not be started.
#[derive(Debug, Clone, Copy, PartialEq, Eq, Structural)]
pub enum SpawnError {
    /// The command line has a quote that is never closed.
    MissingClosingQuote,
    /// The command line holds no words.
    EmptyCommand,
    /// The program could not be found, or the system refused to create the
    /// process.
    Refused,
}

/// The program to run and the arguments to hand to it.
#[derive(Debug, PartialEq, Eq)]
pub struct LaunchPlan {
    pub program: String,
    pub args: Vec<String>,
}

/// What a launch plan says, as plain sequences.
pub struct LaunchPlanView {
    pub program: Seq<char>,
    pub args: Seq<Seq<char>>,
}

impl View for LaunchPlan {
    type V = LaunchPlanView;

    open spec fn view(&self) -> LaunchPlanView {
        LaunchPlanView { program: self.program@, args: word_views(self.args@) }
    }
}

/// The plan that a list of words stands for: the first word is the program,
/// the others are its arguments. No words, no plan.
pub open spec fn plan_of_words(words: Seq<Seq<char>>) -> Result<LaunchPlanView, SpawnError> {
    if words.len() == 0 {
        Err(SpawnError::EmptyCommand)
    } else {
        Ok(LaunchPlanView { program: words[0], args: words.subrange(1, words.len() as int) })
    }
}

/// The plan that the outcome of splitting a command line stands for.
pub open spec fn plan_of_split(split: Option<Seq<Seq<char>>>) -> Result<
    LaunchPlanView,
    SpawnError,
> {
    match split {
        None => Err(SpawnError::MissingClosingQuote),
        Some(words) => plan_of_words(words),
    }
}

/// The views of a planning result.
pub open spec fn plan_result_view(result: Result<LaunchPlan, SpawnError>) -> Result<
    LaunchPlanView,
    SpawnError,
> {
    match result {
        Ok(plan) => Ok(plan@),
        Err(error) => Err(error),
    }
}

/// Makes a launch plan of the words of a command line.
pub fn plan_launch(words: Vec<String>) -> (result: Result<LaunchPlan, SpawnError>)
    ensures
        plan_result_view(result) == plan_of_words(word_views(words@)),
{
    let mut args = words;
    if args.len() == 0 {
        return Err(SpawnError::EmptyCommand);
    }
    let program = args.remove(0);
    let plan = LaunchPlan { program: program, args: args };
    assert(plan@.args =~= word_views(words@).subrange(1, words@.len() as int));
    Ok(plan)
}

/// Makes a launch plan of a command line: splits it into words as a shell
/// would and takes the first for the program.
pub fn launch_plan(exec_str: &str) -> (result: Result<LaunchPlan, SpawnError>)
    ensures
        plan_result_view(result) == plan_of_split(shell_split(exec_str@)),
{
    match split_words(exec_str) {
        Ok(words) => plan_launch(words),
        Err(_) => Err(SpawnError::MissingClosingQuote),
    }
}

/// One of the two output streams of a child.
#[derive(Debug, Clone, Copy, PartialEq, Eq, Structural)]
pub enum Stream {
    Stdout,
    Stderr,
}

/// What one attempt to read a line from a stream gave.
#[derive(Debug, PartialEq, Eq)]
pub enum ReadOutcome {
    /// A line of text, with its line ending if it had one.
    Line(String),
    /// The stream has ended.
    Eof,
    /// The read failed: an I/O error, or bytes that are no text.
    Failed,
}

/// What happened on a stream, as plain values.
pub enum Reading {
    Line(Seq<char>),
    Eof,
    Failed,
}

impl View for ReadOutcome {
    type V = Reading;

    open spec fn view(&self) -> Reading {
        match *self {
            ReadOutcome::Line(text) => Reading::Line(text@),
            ReadOutcome::Eof => Reading::Eof,
            ReadOutcome::Failed => Reading::Failed,
        }
    }
}

/// What a read of a line gave, told from what the reader returned: the
/// number of bytes read, or nothing where the read failed, and the line that
/// it filled. No bytes means that the stream has ended.
pub fn read_outcome(count: Option<usize>, line: String) -> (outcome: ReadOutcome)
    ensures
        outcome@ == match count {
            None => Reading::Failed,
            Some(bytes) => if bytes == 0 {
                Reading::Eof
            } else {
                Reading::Line(line@)
            },
        },
{
    match count {
        None => ReadOutcome::Failed,
        Some(0) => ReadOutcome::Eof,
        Some(_) => ReadOutcome::Line(line),
    }
}

/// A reading together with the stream it came from.
pub struct ReadEvent {
    pub stream: Stream,
    pub reading: Reading,
}

/// Which of the two streams of a child are still being read. A stream stops
/// being read at its end or at its first failure; the other goes on.
#[derive(Debug, Clone, Copy, PartialEq, Eq, Structural)]
pub struct OutputPump {
    pub stdout_open: bool,
    pub stderr_open: bool,
}

impl OutputPump {
    /// True while `stream` is being read.
    pub open spec fn is_open(self, stream: Stream) -> bool {
        match stream {
            Stream::Stdout => self.stdout_open,
            Stream::Stderr => self.stderr_open,
        }
    }

    /// The pump once `stream` is no longer read.
    pub open spec fn without(self, stream: Stream) -> OutputPump {
        match stream {
            Stream::Stdout => OutputPump { stdout_open: false, ..self },
            Stream::Stderr => OutputPump { stderr_open: false, ..self },
        }
    }

    /// True when the event is a line from a stream that is being read: such
    /// a line goes into the log.
    pub open spec fn records(self, event: ReadEvent) -> bool {
        event.reading is Line && self.is_open(event.stream)
    }

    /// The pump after an event: a line changes nothing, anything else stops
    /// the stream it came from.
    pub open spec fn after(self, event: ReadEvent) -> OutputPump {
        if event.reading is Line {
            self
        } else {
            self.without(event.stream)
        }
    }

    /// True when neither stream is read any more.
    pub open spec fn is_done(self) -> bool {
        !self.stdout_open && !self.stderr_open
    }

    /// A pump that reads both streams.
    pub fn new() -> (pump: Self)
        ensures
            pump.stdout_open,
            pump.stderr_open,
    {
        OutputPump { stdout_open: true, stderr_open: true }
    }

    /// True while `stream` should be read.
    pub fn wants(&self, stream: Stream) -> (open: bool)
        ensures
            open == self.is_open(stream),
    {
        match stream {
            Stream::Stdout => self.stdout_open,
            Stream::Stderr => self.stderr_open,
        }
    }

    /// True when both streams have stopped and the pump has nothing left to
    /// do.
    pub fn finished(&self) -> (done: bool)
        ensures
            done == self.is_done(),
    {
        !self.stdout_open && !self.stderr_open
    }

    /// Handles one reading from `stream`. A line from a stream that is being
    /// read is appended to `cache`; an end or a failure stops that stream and
    /// leaves the other as it was.
    pub fn on_read(&mut self, stream: Stream, outcome: ReadOutcome, cache: &mut LogCache)
        ensures
            *final(self) == old(self).after(ReadEvent { stream: stream, reading: outcome@ }),
            final(cache).capacity() == old(cache).capacity(),
            final(cache)@ == logged_step(
                old(cache)@,
                old(cache).capacity(),
                *old(self),
                ReadEvent { stream: stream, reading: outcome@ },
            ),
    {
        match outcome {
            ReadOutcome::Line(text) => {
                if self.wants(stream) {
                    cache.append(text.as_str());
                }
            },
            ReadOutcome::Eof | ReadOutcome::Failed => {
                match stream {
                    Stream::Stdout => {
                        self.stdout_open = false;
                    },
                    Stream::Stderr => {
                        self.stderr_open = false;
                    },
                }
            },
        }
    }
}

/// The signal that asks a process to terminate.
pub const TERMINATION_SIGNAL: i32 = 15;

/// What the runner of a child knows of it: whether it has exited, and
/// whether the supervisor has asked for its termination and waits for it.
#[derive(Debug, Clone, Copy, PartialEq, Eq, Structural)]
pub struct RunnerState {
    pub exited: bool,
    pub terminating: bool,
}

/// What the runner of a child learns.
#[derive(Debug, Clone, Copy, PartialEq, Eq, Structural)]
pub enum RunnerEvent {
    /// The supervisor asks that this signal be delivered to the child.
    Signal(i32),
    /// The supervisor asks that the child be terminated, and waits.
    Terminate,
    /// The child has exited and has been reaped.
    Exited,
    /// The output pump has finished: everything that the child wrote is in
    /// the log.
    Drained,
}

/// What the runner of a child does next.
#[derive(Debug, Clone, Copy, PartialEq, Eq, Structural)]
pub enum RunnerAction {
    /// Nothing.
    Nothing,
    /// Deliver this signal to the child.
    Deliver(i32),
    /// Wait for the output pump to finish.
    Drain,
    /// Tell the supervisor, which waits for it, that the child is gone.
    Confirm,
    /// Tell the supervisor that the child has ended by itself.
    Notify,
}

impl RunnerState {
    /// The state and the action after an event. A signal goes to a child
    /// that has not exited. A termination is asked for with the termination
    /// signal, and is remembered. After the exit the output is drained, and
    /// only then the end is reported: to the supervisor that waits, if it
    /// asked for the termination, and as a notice otherwise.
    pub open spec fn after(self, event: RunnerEvent) -> (RunnerState, RunnerAction) {
        match event {
            RunnerEvent::Signal(kind) => (
                self,
                if self.exited {
                    RunnerAction::Nothing
                } else {
                    RunnerAction::Deliver(kind)
                },
            ),
            RunnerEvent::Terminate => (
                RunnerState { terminating: true, ..self },
                if self.exited {
                    RunnerAction::Nothing
                } else {
                    RunnerAction::Deliver(TERMINATION_SIGNAL)
                },
            ),
            RunnerEvent::Exited => (RunnerState { exited: true, ..self }, RunnerAction::Drain),
            RunnerEvent::Drained => (
                self,
                if !self.exited {
                    RunnerAction::Nothing
                } else if self.terminating {
                    RunnerAction::Confirm
                } else {
                    RunnerAction::Notify
                },
            ),
        }
    }

    /// The runner of a child that was just spawned.
    pub fn new() -> (state: Self)
        ensures
            !state.exited,
            !state.terminating,
    {
        RunnerState { exited: false, terminating: false }
    }
}

/// The end of a child is reported only once it has exited and its output is
/// drained: to the supervisor that waits where a termination was asked for,
/// and as a notice where none was. What the runner knows is never
/// forgotten.
pub proof fn lemma_runner_reports_after_drain(state: RunnerState, event: RunnerEvent)
    ensures
        ({
            let (next, action) = state.after(event);
            &&& (action is Confirm || action is Notify) ==> event is Drained && state.exited
            &&& action is Confirm ==> state.terminating
            &&& action is Notify ==> !state.terminating
            &&& state.exited ==> next.exited
            &&& state.terminating ==> next.terminating
        }),
{
}

/// Decides what the runner of a child does on an event.
pub fn on_runner_event(state: &mut RunnerState, event: RunnerEvent) -> (action: RunnerAction)
    ensures
        (*final(state), action) == old(state).after(event),
{
    match event {
        RunnerEvent::Signal(kind) => {
            if state.exited {
                RunnerAction::Nothing
            } else {
                RunnerAction::Deliver(kind)
            }
        },
        RunnerEvent::Terminate => {
            state.terminating = true;
            if state.exited {
                RunnerAction::Nothing
            } else {
                RunnerAction::Deliver(TERMINATION_SIGNAL)
            }
        },
        RunnerEvent::Exited => {
            state.exited = true;
            RunnerAction::Drain
        },
        RunnerEvent::Drained => {
            if !state.exited {
                RunnerAction::Nothing
            } else if state.terminating {
                RunnerAction::Confirm
            } else {
                RunnerAction::Notify
            }
        },
    }
}

/// The bytes of the line of an event, or nothing if it is no line.
pub open spec fn line_bytes(event: ReadEvent) -> Seq<u8> {
    match event.reading {
        Reading::Line(text) => encode_utf8(text),
        _ => Seq::empty(),
    }
}

/// What a cache of `capacity` bytes holds after the pump handled one event.
pub open spec fn logged_step(
    bytes: Seq<u8>,
    capacity: nat,
    pump: OutputPump,
    event: ReadEvent,
) -> Seq<u8> {
    if pump.records(event) {
        newest(bytes + line_bytes(event), capacity)
    } else {
        bytes
    }
}

/// What a cache of `capacity` bytes holds after the pump handled `events` in
/// the order of their arrival.
pub open spec fn logged(
    bytes: Seq<u8>,
    capacity: nat,
    pump: OutputPump,
    events: Seq<ReadEvent>,
) -> Seq<u8>
    decreases events.len(),
{
    if events.len() == 0 {
        bytes
    } else {
        logged(
            logged_step(bytes, capacity, pump, events[0]),
            capacity,
            pump.after(events[0]),
            events.drop_first(),
        )
    }
}

/// The events whose lines the pump puts into the log, in the order of their
/// arrival.
pub open spec fn recorded(pump: OutputPump, events: Seq<ReadEvent>) -> Seq<ReadEvent>
    decreases events.len(),
{
    if events.len() == 0 {
        Seq::empty()
    } else {
        let rest = recorded(pump.after(events[0]), events.drop_first());
        if pump.records(events[0]) {
            seq![events[0]] + rest
        } else {
            rest
        }
    }
}

/// The lines that `stream` wrote before it ended or failed, in the order in
/// which it wrote them.
pub open spec fn written(events: Seq<ReadEvent>, stream: Stream) -> Seq<Seq<char>>
    decreases events.len(),
{
    if events.len() == 0 {
        Seq::empty()
    } else if events[0].stream != stream {
        written(events.drop_first(), stream)
    } else {
        match events[0].reading {
            Reading::Line(text) => seq![text] + written(events.drop_first(), stream),
            _ => Seq::empty(),
        }
    }
}

/// The lines among `events` that came from `stream`, in order.
pub open spec fn lines_from(events: Seq<ReadEvent>, stream: Stream) -> Seq<Seq<char>>
    decreases events.len(),
{
    if events.len() == 0 {
        Seq::empty()
    } else {
        let rest = lines_from(events.drop_first(), stream);
        match events[0].reading {
            Reading::Line(text) => if events[0].stream == stream {
                seq![text] + rest
            } else {
                rest
            },
            _ => rest,
        }
    }
}

/// The bytes of the lines among `events`, one after the other.
pub open spec fn text_of(events: Seq<ReadEvent>) -> Seq<u8>
    decreases events.len(),
{
    if events.len() == 0 {
        Seq::empty()
    } else {
        line_bytes(events[0]) + text_of(events.drop_first())
    }
}

/// Each stream is internally ordered: whatever the interleaving, the lines
/// recorded from a stream are exactly the lines that it wrote before it
/// ended, in the order in which it wrote them. Nothing is recorded from a
/// stream that is no longer read.
pub proof fn lemma_stream_order_kept(pump: OutputPump, events: Seq<ReadEvent>, stream: Stream)
    ensures
        pump.is_open(stream) ==> lines_from(recorded(pump, events), stream) == written(
            events,
            stream,
        ),
        !pump.is_open(stream) ==> lines_from(recorded(pump, events), stream) == Seq::<
            Seq<char>,
        >::empty(),
    decreases events.len(),
{
    if events.len() > 0 {
        let first = events[0];
        let rest = events.drop_first();
        lemma_stream_order_kept(pump.after(first), rest, stream);
        let tail = recorded(pump.after(first), rest);
        if pump.records(first) {
            assert((seq![first] + tail).drop_first() =~= tail);
        }
    }
}

/// No line is lost and none is made up: a pump that starts with both
/// streams open records as many lines as the two streams wrote before they
/// ended.
pub proof fn lemma_all_lines_recorded(pump: OutputPump, events: Seq<ReadEvent>)
    ensures
        recorded(pump, events).len() == (if pump.stdout_open {
            written(events, Stream::Stdout).len()
        } else {
            0
        }) + (if pump.stderr_open {
            written(events, Stream::Stderr).len()
        } else {
            0
        }),
    decreases events.len(),
{
    if events.len() > 0 {
        lemma_all_lines_recorded(pump.after(events[0]), events.drop_first());
    }
}

/// The bytes of the lines of two runs of events are those of the first run
/// followed by those of the second.
proof fn lemma_text_of_concat(first: Seq<ReadEvent>, second: Seq<ReadEvent>)
    ensures
        text_of(first + second) == text_of(first) + text_of(second),
    decreases first.len(),
{
    if first.len() > 0 {
        assert((first + second).drop_first() =~= first.drop_first() + second);
        lemma_text_of_concat(first.drop_first(), second);
    }
}

/// Whatever the interleaving, the log ends up holding the newest bytes of
/// what it held before followed by all recorded lines in the order of their
/// arrival.
pub proof fn lemma_logged_is_newest(
    bytes: Seq<u8>,
    capacity: nat,
    pump: OutputPump,
    events: Seq<ReadEvent>,
)
    requires
        bytes.len() <= capacity,
    ensures
        logged(bytes, capacity, pump, events) == newest(
            bytes + text_of(recorded(pump, events)),
            capacity,
        ),
    decreases events.len(),
{
    if events.len() > 0 {
        let first = events[0];
        let rest = events.drop_first();
        let next = logged_step(bytes, capacity, pump, first);
        let tail = recorded(pump.after(first), rest);
        lemma_logged_is_newest(next, capacity, pump.after(first), rest);
        if pump.records(first) {
            let added = line_bytes(first);
            lemma_text_of_concat(seq![first], tail);
            assert(text_of(seq![first]) =~= added) by {
                reveal_with_fuel(text_of, 2);
            }
            lemma_newest_of_appends(bytes + added, text_of(tail), capacity);
        }
    }
}

/// Output that fits into the log is all there: a log with room for every
/// recorded line holds what it held before followed by all of them.
pub proof fn lemma_fitting_output_is_kept(
    bytes: Seq<u8>,
    capacity: nat,
    pump: OutputPump,
    events: Seq<ReadEvent>,
)
    requires
        bytes.len() + text_of(recorded(pump, events)).len() <= capacity,
    ensures
        logged(bytes, capacity, pump, events) == bytes + text_of(recorded(pump, events)),
{
    lemma_logged_is_newest(bytes, capacity, pump, events);
}

} // verus!
