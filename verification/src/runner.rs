//! One execution of a job's command, as a function from state and event to
//! the next state and what to do. The caller talks to the container runtime
//! and reports back; every decision is made here.

use crate::discovery::{Job, JobView};
use crate::text::{text_views, trim, trimmed};
use vstd::prelude::*;
use vstd::string::*;

verus! {

/// The channel that a piece of output came from.
#[derive(Clone, Copy, Debug, PartialEq, Eq, Structural)]
pub enum Channel {
    Stdout,
    Stderr,
}

/// Why an execution did not take place.
#[derive(Clone, Copy, Debug, PartialEq, Eq, Structural)]
pub enum SkipReason {
    /// The container could not be inspected.
    InspectFailed,
    /// The container is not running.
    NotRunning,
    /// The command cannot be split into words, or holds none.
    BadCommand,
}

/// Why an execution failed.
#[derive(Clone, Copy, Debug, PartialEq, Eq, Structural)]
pub enum ExecFailure {
    /// The exec session could not be created.
    CreateFailed,
    /// The exec session could not be started.
    StartFailed,
    /// The caller reported something that the execution was not waiting for.
    UnexpectedEvent,
}

/// How an execution ended.
#[derive(Clone, Copy, Debug, PartialEq, Eq, Structural)]
pub enum Outcome {
    Completed,
    Skipped(SkipReason),
    Failed(ExecFailure),
}

/// Where an execution stands.
#[derive(Clone, Copy, Debug, PartialEq, Eq, Structural)]
pub enum ExecState {
    /// Waiting to learn whether the container runs.
    Inspecting,
    /// Waiting for the exec session to be created.
    Creating,
    /// Waiting for the exec session to start.
    Starting,
    /// Reading the output of the command.
    Streaming,
    /// Over.
    Done,
}

/// What the caller reports to an execution.
#[derive(Clone, Debug, PartialEq, Eq)]
pub enum ExecEvent {
    InspectFailed,
    /// The container was inspected; `running` is what the runtime says of
    /// it, if it says anything.
    Inspected { running: Option<bool> },
    Created { id: String },
    CreateFailed,
    /// The session has started, with its output attached or detached.
    Started { attached: bool },
    StartFailed,
    /// A piece of output arrived.
    Output { channel: Channel, bytes: Vec<u8> },
    /// The output has ended.
    OutputEnded,
}

/// An exec session to create: not interactive, with both output channels
/// attached.
#[derive(Clone, Debug, PartialEq, Eq)]
pub struct ExecRequest {
    pub container_id: String,
    pub cmd: Vec<String>,
    pub attach_stdout: bool,
    pub attach_stderr: bool,
    pub tty: bool,
}

/// A record for the log.
#[derive(Clone, Debug, PartialEq, Eq)]
pub enum LogRecord {
    Starting,
    Skipped(SkipReason),
    Detached,
    /// A line that the command wrote.
    CommandLog { channel: Channel, line: String },
    Finished,
}

/// What the caller does next.
#[derive(Clone, Debug, PartialEq, Eq)]
pub enum ExecNext {
    /// Inspect the job's container, then report `Inspected` or
    /// `InspectFailed`.
    Inspect,
    /// Create the session, then report `Created` or `CreateFailed`.
    CreateExec(ExecRequest),
    /// Start the session, then report `Started` or `StartFailed`.
    StartExec { id: String },
    /// Wait for output, then report `Output` or `OutputEnded`.
    ReadOutput,
    /// Nothing more: the execution is over.
    Finish(Outcome),
}

/// The outcome of a step: the records to log, and how to go on.
#[derive(Clone, Debug, PartialEq, Eq)]
pub struct ExecStep {
    pub logs: Vec<LogRecord>,
    pub next: ExecNext,
}

pub enum ExecEventView {
    InspectFailed,
    Inspected { running: Option<bool> },
    Created { id: Seq<char> },
    CreateFailed,
    Started { attached: bool },
    StartFailed,
    Output { channel: Channel, bytes: Seq<u8> },
    OutputEnded,
}

pub struct ExecRequestView {
    pub container_id: Seq<char>,
    pub cmd: Seq<Seq<char>>,
    pub attach_stdout: bool,
    pub attach_stderr: bool,
    pub tty: bool,
}

pub enum LogView {
    Starting,
    Skipped(SkipReason),
    Detached,
    CommandLog { channel: Channel, line: Seq<char> },
    Finished,
}

pub enum ExecNextView {
    Inspect,
    CreateExec(ExecRequestView),
    StartExec { id: Seq<char> },
    ReadOutput,
    Finish(Outcome),
}

pub struct ExecStepView {
    pub logs: Seq<LogView>,
    pub next: ExecNextView,
}

impl View for ExecEvent {
    type V = ExecEventView;

    open spec fn view(&self) -> ExecEventView {
        match *self {
            ExecEvent::InspectFailed => ExecEventView::InspectFailed,
            ExecEvent::Inspected { running } => ExecEventView::Inspected { running },
            ExecEvent::Created { id } => ExecEventView::Created { id: id@ },
            ExecEvent::CreateFailed => ExecEventView::CreateFailed,
            ExecEvent::Started { attached } => ExecEventView::Started { attached },
            ExecEvent::StartFailed => ExecEventView::StartFailed,
            ExecEvent::Output { channel, bytes } => ExecEventView::Output {
                channel,
                bytes: bytes@,
            },
            ExecEvent::OutputEnded => ExecEventView::OutputEnded,
        }
    }
}

impl View for ExecRequest {
    type V = ExecRequestView;

    open spec fn view(&self) -> ExecRequestView {
        ExecRequestView {
            container_id: self.container_id@,
            cmd: text_views(self.cmd@),
            attach_stdout: self.attach_stdout,
            attach_stderr: self.attach_stderr,
            tty: self.tty,
        }
    }
}

impl View for LogRecord {
    type V = LogView;

    open spec fn view(&self) -> LogView {
        match *self {
            LogRecord::Starting => LogView::Starting,
            LogRecord::Skipped(reason) => LogView::Skipped(reason),
            LogRecord::Detached => LogView::Detached,
            LogRecord::CommandLog { channel, line } => LogView::CommandLog { channel, line: line@ },
            LogRecord::Finished => LogView::Finished,
        }
    }
}

impl View for ExecNext {
    type V = ExecNextView;

    open spec fn view(&self) -> ExecNextView {
        match *self {
            ExecNext::Inspect => ExecNextView::Inspect,
            ExecNext::CreateExec(request) => ExecNextView::CreateExec(request@),
            ExecNext::StartExec { id } => ExecNextView::StartExec { id: id@ },
            ExecNext::ReadOutput => ExecNextView::ReadOutput,
            ExecNext::Finish(outcome) => ExecNextView::Finish(outcome),
        }
    }
}

/// The records of `v` as plain values.
pub open spec fn log_views(v: Seq<LogRecord>) -> Seq<LogView> {
    v.map_values(|r: LogRecord| r@)
}

impl View for ExecStep {
    type V = ExecStepView;

    open spec fn view(&self) -> ExecStepView {
        ExecStepView { logs: log_views(self.logs@), next: self.next@ }
    }
}

/// The words that shell word splitting makes of a command, or nothing where
/// the command is erroneous (an open quotation, a backslash at the end).
pub uninterp spec fn shell_words(command: Seq<char>) -> Option<Seq<Seq<char>>>;

/// The text that lossy UTF-8 decoding makes of bytes.
pub uninterp spec fn lossy_text(bytes: Seq<u8>) -> Seq<char>;

/// Calls `shlex::split`. Unproved: the words that come back are what
/// `shell_words` names.
#[verifier::external_body]
fn split_words(command: &str) -> (r: Option<Vec<String>>)
    ensures
        match r {
            Some(words) => shell_words(command@) == Some(text_views(words@)),
            None => shell_words(command@) is None,
        },
{
    shlex::split(command)
}

/// Calls `String::from_utf8_lossy` and owns what it returns. Unproved: the
/// text is what `lossy_text` names.
#[verifier::external_body]
fn decode_lossy(bytes: &[u8]) -> (r: String)
    ensures
        r@ == lossy_text(bytes@),
{
    String::from_utf8_lossy(bytes).into_owned()
}

/// The session that runs the given words in the container, or the reason
/// why there is none: the words are missing (the command was erroneous) or
/// there are none of them.
pub open spec fn request_of(container_id: Seq<char>, words: Option<Seq<Seq<char>>>) -> Result<
    ExecRequestView,
    SkipReason,
> {
    match words {
        Some(cmd) => if cmd.len() > 0 {
            Ok(
                ExecRequestView {
                    container_id,
                    cmd,
                    attach_stdout: true,
                    attach_stderr: true,
                    tty: false,
                },
            )
        } else {
            Err(SkipReason::BadCommand)
        },
        None => Err(SkipReason::BadCommand),
    }
}

/// The record for a piece of output: its trimmed text as one line, or
/// nothing where that is empty.
pub open spec fn line_of(channel: Channel, text: Seq<char>) -> Option<LogView> {
    if trimmed(text).len() > 0 {
        Some(LogView::CommandLog { channel, line: trimmed(text) })
    } else {
        None
    }
}

/// The step that ends an execution with `outcome`.
pub open spec fn finished_with(logs: Seq<LogView>, outcome: Outcome) -> (ExecState, ExecStepView) {
    (ExecState::Done, ExecStepView { logs, next: ExecNextView::Finish(outcome) })
}

/// The start of an execution: the container is inspected first.
pub open spec fn exec_started() -> (ExecState, ExecStepView) {
    (
        ExecState::Inspecting,
        ExecStepView { logs: seq![LogView::Starting], next: ExecNextView::Inspect },
    )
}

/// One step of an execution.
///
/// Inspecting: a failed inspection, a container that is not running, and a
/// command that cannot be split or is empty each end the execution as
/// skipped; else the session is asked for. Creating and starting: a failure
/// ends the execution as failed. A detached session ends it as completed.
/// Streaming: every piece of output with a non-empty trimmed text is logged
/// as one line, and the end of the output ends the execution as completed.
/// Anything that the state was not waiting for ends it as failed.
pub open spec fn exec_stepped(job: JobView, state: ExecState, event: ExecEventView) -> (
    ExecState,
    ExecStepView,
) {
    match (state, event) {
        (ExecState::Inspecting, ExecEventView::InspectFailed) => finished_with(
            seq![LogView::Skipped(SkipReason::InspectFailed)],
            Outcome::Skipped(SkipReason::InspectFailed),
        ),
        (ExecState::Inspecting, ExecEventView::Inspected { running }) => if running == Some(true) {
            match request_of(job.container_id, shell_words(job.command)) {
                Ok(request) => (
                    ExecState::Creating,
                    ExecStepView { logs: seq![], next: ExecNextView::CreateExec(request) },
                ),
                Err(reason) => finished_with(
                    seq![LogView::Skipped(reason)],
                    Outcome::Skipped(reason),
                ),
            }
        } else {
            finished_with(
                seq![LogView::Skipped(SkipReason::NotRunning)],
                Outcome::Skipped(SkipReason::NotRunning),
            )
        },
        (ExecState::Creating, ExecEventView::Created { id }) => (
            ExecState::Starting,
            ExecStepView { logs: seq![], next: ExecNextView::StartExec { id } },
        ),
        (ExecState::Creating, ExecEventView::CreateFailed) => finished_with(
            seq![],
            Outcome::Failed(ExecFailure::CreateFailed),
        ),
        (ExecState::Starting, ExecEventView::Started { attached }) => if attached {
            (ExecState::Streaming, ExecStepView { logs: seq![], next: ExecNextView::ReadOutput })
        } else {
            finished_with(seq![LogView::Detached, LogView::Finished], Outcome::Completed)
        },
        (ExecState::Starting, ExecEventView::StartFailed) => finished_with(
            seq![],
            Outcome::Failed(ExecFailure::StartFailed),
        ),
        (ExecState::Streaming, ExecEventView::Output { channel, bytes }) => (
            ExecState::Streaming,
            ExecStepView {
                logs: match line_of(channel, lossy_text(bytes)) {
                    Some(record) => seq![record],
                    None => seq![],
                },
                next: ExecNextView::ReadOutput,
            },
        ),
        (ExecState::Streaming, ExecEventView::OutputEnded) => finished_with(
            seq![LogView::Finished],
            Outcome::Completed,
        ),
        _ => finished_with(seq![], Outcome::Failed(ExecFailure::UnexpectedEvent)),
    }
}

/// Makes the session request for the words of a command.
pub fn launch(container_id: &str, words: Option<Vec<String>>) -> (r: Result<
    ExecRequest,
    SkipReason,
>)
    ensures
        match r {
            Ok(request) => request_of(
                container_id@,
                match words {
                    Some(w) => Some(text_views(w@)),
                    None => None,
                },
            ) == Ok::<ExecRequestView, SkipReason>(request@),
            Err(reason) => request_of(
                container_id@,
                match words {
                    Some(w) => Some(text_views(w@)),
                    None => None,
                },
            ) == Err::<ExecRequestView, SkipReason>(reason),
        },
{
    match words {
        Some(cmd) => if cmd.len() > 0 {
            Ok(
                ExecRequest {
                    container_id: container_id.to_owned(),
                    cmd,
                    attach_stdout: true,
                    attach_stderr: true,
                    tty: false,
                },
            )
        } else {
            Err(SkipReason::BadCommand)
        },
        None => Err(SkipReason::BadCommand),
    }
}

/// Makes the log record for a piece of output that was decoded to `text`.
pub fn command_log(channel: Channel, text: &str) -> (r: Option<LogRecord>)
    ensures
        match r {
            Some(record) => line_of(channel, text@) == Some(record@),
            None => line_of(channel, text@) is None,
        },
{
    let line = trim(text);
    if line.unicode_len() > 0 {
        Some(LogRecord::CommandLog { channel, line: line.to_owned() })
    } else {
        None
    }
}

/// A step that logs the given records.
fn step_with(logs: Vec<LogRecord>, next: ExecNext) -> (step: ExecStep)
    ensures
        step.logs == logs,
        step.next == next,
{
    ExecStep { logs, next }
}

/// No records.
fn no_logs() -> (logs: Vec<LogRecord>)
    ensures
        log_views(logs@) == Seq::<LogView>::empty(),
{
    let logs: Vec<LogRecord> = Vec::new();
    assert(log_views(logs@) =~= Seq::<LogView>::empty());
    logs
}

/// One record.
fn one_log(record: LogRecord) -> (logs: Vec<LogRecord>)
    ensures
        log_views(logs@) == seq![record@],
{
    let mut logs: Vec<LogRecord> = Vec::new();
    logs.push(record);
    assert(log_views(logs@) =~= seq![record@]);
    logs
}

/// Starts an execution.
pub fn start_once() -> (r: (ExecState, ExecStep))
    ensures
        (r.0, r.1@) == exec_started(),
{
    (ExecState::Inspecting, step_with(one_log(LogRecord::Starting), ExecNext::Inspect))
}

/// Takes an execution of the job's command one step further: given where
/// it stands and what the caller reports, says where it stands next, what is
/// logged and what the caller does.
pub fn run_once(job: &Job, state: ExecState, event: ExecEvent) -> (r: (ExecState, ExecStep))
    ensures
        (r.0, r.1@) == exec_stepped(job@, state, event@),
{
    match (state, event) {
        (ExecState::Inspecting, ExecEvent::InspectFailed) => {
            let reason = SkipReason::InspectFailed;
            (
                ExecState::Done,
                step_with(
                    one_log(LogRecord::Skipped(reason)),
                    ExecNext::Finish(Outcome::Skipped(reason)),
                ),
            )
        },
        (ExecState::Inspecting, ExecEvent::Inspected { running }) => {
            let runs = match running {
                Some(b) => b,
                None => false,
            };
            if !runs {
                let reason = SkipReason::NotRunning;
                return (
                    ExecState::Done,
                    step_with(
                        one_log(LogRecord::Skipped(reason)),
                        ExecNext::Finish(Outcome::Skipped(reason)),
                    ),
                );
            }
            let words = split_words(job.command.as_str());
            match launch(job.container_id.as_str(), words) {
                Ok(request) => (
                    ExecState::Creating,
                    step_with(no_logs(), ExecNext::CreateExec(request)),
                ),
                Err(reason) => (
                    ExecState::Done,
                    step_with(
                        one_log(LogRecord::Skipped(reason)),
                        ExecNext::Finish(Outcome::Skipped(reason)),
                    ),
                ),
            }
        },
        (ExecState::Creating, ExecEvent::Created { id }) => (
            ExecState::Starting,
            step_with(no_logs(), ExecNext::StartExec { id }),
        ),
        (ExecState::Creating, ExecEvent::CreateFailed) => (
            ExecState::Done,
            step_with(no_logs(), ExecNext::Finish(Outcome::Failed(ExecFailure::CreateFailed))),
        ),
        (ExecState::Starting, ExecEvent::Started { attached }) => {
            if attached {
                (ExecState::Streaming, step_with(no_logs(), ExecNext::ReadOutput))
            } else {
                let mut logs = one_log(LogRecord::Detached);
                let ghost first = logs@;
                logs.push(LogRecord::Finished);
                assert(log_views(first)[0] == LogView::Detached);
                assert(log_views(logs@) =~= log_views(first).push(LogView::Finished));
                assert(log_views(logs@) =~= seq![LogView::Detached, LogView::Finished]);
                (ExecState::Done, step_with(logs, ExecNext::Finish(Outcome::Completed)))
            }
        },
        (ExecState::Starting, ExecEvent::StartFailed) => (
            ExecState::Done,
            step_with(no_logs(), ExecNext::Finish(Outcome::Failed(ExecFailure::StartFailed))),
        ),
        (ExecState::Streaming, ExecEvent::Output { channel, bytes }) => {
            let text = decode_lossy(bytes.as_slice());
            let logs = match command_log(channel, text.as_str()) {
                Some(record) => one_log(record),
                None => no_logs(),
            };
            (ExecState::Streaming, step_with(logs, ExecNext::ReadOutput))
        },
        (ExecState::Streaming, ExecEvent::OutputEnded) => (
            ExecState::Done,
            step_with(one_log(LogRecord::Finished), ExecNext::Finish(Outcome::Completed)),
        ),
        _ => (
            ExecState::Done,
            step_with(no_logs(), ExecNext::Finish(Outcome::Failed(ExecFailure::UnexpectedEvent))),
        ),
    }
}

/// An execution on a container that does not run, or that cannot be
/// inspected, is skipped with a record in the log, and asks for no exec call:
/// neither in that step nor in any step after it. A session is asked for
/// only in answer to an inspection that found the container running.
pub proof fn law_stopped_container_is_skipped(
    job: JobView,
    state: ExecState,
    event: ExecEventView,
)
    ensures
        state == ExecState::Inspecting && (event matches ExecEventView::Inspected { running }
            && running != Some(true)) ==> exec_stepped(job, state, event) == finished_with(
            seq![LogView::Skipped(SkipReason::NotRunning)],
            Outcome::Skipped(SkipReason::NotRunning),
        ),
        state == ExecState::Inspecting && event == ExecEventView::InspectFailed ==> exec_stepped(
            job,
            state,
            event,
        ) == finished_with(
            seq![LogView::Skipped(SkipReason::InspectFailed)],
            Outcome::Skipped(SkipReason::InspectFailed),
        ),
        state == ExecState::Done ==> exec_stepped(job, state, event).0 == ExecState::Done
            && exec_stepped(job, state, event).1.next is Finish,
        exec_stepped(job, state, event).1.next is CreateExec ==> state == ExecState::Inspecting
            && event == (ExecEventView::Inspected { running: Some(true) }),
        exec_stepped(job, state, event).1.next is StartExec ==> state == ExecState::Creating,
{
}

} // verus!
