use vstd::prelude::*;
use vstd::string::StringSliceAdditionalSpecFns;
use vstd::utf8::*;

use crate::frame::{build_request, request_frame, FrameError};

verus! {

/// Number of discarded format round trips made after a launch.
pub const WARMUP_ROUNDS: u8 = 2;

/// The length in bytes of a text in UTF-8, as `str::len` reports it.
pub open spec fn byte_len(s: Seq<char>) -> usize {
    encode_utf8(s).len() as usize
}

#[derive(Clone, Copy, Debug, PartialEq, Eq)]
pub enum FormatError {
    /// The output stream closed before a frame came.
    EmptyResponse,
    /// The received frame could not be decoded.
    Protocol,
    /// Writing the request to the process failed.
    Io,
    /// An earlier failure left the process unusable.
    Faulted,
}

impl FormatError {
    pub fn message(&self) -> (r: String)
        ensures
            *self == FormatError::EmptyResponse ==> r@
                == "Could not format content. Empty response"@,
            *self == FormatError::Protocol ==> r@ == "Could not format content. Invalid frame"@,
            *self == FormatError::Io ==> r@ == "Could not write to the formatter"@,
            *self == FormatError::Faulted ==> r@ == "The formatter process has failed"@,
    {
        match self {
            FormatError::EmptyResponse => "Could not format content. Empty response".to_owned(),
            FormatError::Protocol => "Could not format content. Invalid frame".to_owned(),
            FormatError::Io => "Could not write to the formatter".to_owned(),
            FormatError::Faulted => "The formatter process has failed".to_owned(),
        }
    }
}

/// What a response means for a request whose content had `content_len`
/// bytes: `None` for no change, `Some(text)` for a replacement.
pub open spec fn response_outcome(content_len: int, response: Option<Result<Seq<char>, FrameError>>) -> Result<
    Option<Seq<char>>,
    FormatError,
> {
    match response {
        None => Err(FormatError::EmptyResponse),
        Some(Err(_)) => Err(FormatError::Protocol),
        Some(Ok(out)) => if byte_len(out) == 0 || byte_len(out) as int == content_len {
            Ok(None)
        } else {
            Ok(Some(out))
        },
    }
}

pub open spec fn response_view(response: Option<Result<String, FrameError>>) -> Option<
    Result<Seq<char>, FrameError>,
> {
    match response {
        None => None,
        Some(Ok(s)) => Some(Ok(s@)),
        Some(Err(e)) => Some(Err(e)),
    }
}

pub open spec fn outcome_view(r: Result<Option<String>, FormatError>) -> Result<Option<Seq<char>>, FormatError> {
    match r {
        Ok(Some(s)) => Ok(Some(s@)),
        Ok(None) => Ok(None),
        Err(e) => Err(e),
    }
}

/// Interprets the formatter's answer to a request of `content_len` bytes: an
/// empty output, or one as long as the input, counts as no change.
pub fn classify_response(content_len: usize, response: Option<Result<String, FrameError>>) -> (r:
    Result<Option<String>, FormatError>)
    ensures
        outcome_view(r) == response_outcome(content_len as int, response_view(response)),
{
    match response {
        None => Err(FormatError::EmptyResponse),
        Some(Err(_)) => Err(FormatError::Protocol),
        Some(Ok(output)) => {
            let len = output.as_str().len();
            if len == 0 || len == content_len {
                Ok(None)
            } else {
                Ok(Some(output))
            }
        },
    }
}

/// Lifecycle of one formatter process.
#[derive(Clone, Copy, Debug, PartialEq, Eq)]
pub enum ProcessState {
    Launching,
    WarmingUp { completed: u8 },
    Ready,
    Faulted,
}

/// What startup asks of the caller after each event.
#[derive(Clone, Copy, Debug, PartialEq, Eq)]
pub enum StartupStep {
    /// Write the warm-up request and report its response.
    SendWarmup,
    /// The process serves requests from now on.
    Finished,
    /// Startup failed; the process is not usable.
    Failed,
}

/// One startup transition: `ok` tells whether the launch, or the warm-up
/// round trip in flight, succeeded.
pub open spec fn startup_next(state: ProcessState, ok: bool) -> (ProcessState, StartupStep) {
    match state {
        ProcessState::Launching => if ok {
            (ProcessState::WarmingUp { completed: 0 }, StartupStep::SendWarmup)
        } else {
            (ProcessState::Faulted, StartupStep::Failed)
        },
        ProcessState::WarmingUp { completed } => if !ok {
            (ProcessState::Faulted, StartupStep::Failed)
        } else if completed + 1 < WARMUP_ROUNDS {
            (ProcessState::WarmingUp { completed: (completed + 1) as u8 }, StartupStep::SendWarmup)
        } else {
            (ProcessState::Ready, StartupStep::Finished)
        },
        _ => (state, StartupStep::Failed),
    }
}

pub open spec fn in_startup(state: ProcessState) -> bool {
    state is Launching || state is WarmingUp
}

/// Feeds startup outcomes in order until startup ends: the final state and
/// the steps asked for.
pub open spec fn run_startup(state: ProcessState, outcomes: Seq<bool>) -> (ProcessState, Seq<StartupStep>)
    decreases outcomes.len(),
{
    if outcomes.len() == 0 || !in_startup(state) {
        (state, Seq::empty())
    } else {
        let (next, step) = startup_next(state, outcomes[0]);
        let (last, steps) = run_startup(next, outcomes.drop_first());
        (last, seq![step] + steps)
    }
}

/// From a fresh launch the process becomes ready exactly when the launch and
/// both warm-up round trips succeed, and then it has asked for exactly two
/// warm-up requests before finishing.
pub proof fn lemma_startup_warms_up_twice(outcomes: Seq<bool>)
    ensures
        run_startup(ProcessState::Launching, outcomes).0 is Ready <==> (outcomes.len() >= 3
            && outcomes[0] && outcomes[1] && outcomes[2]),
        run_startup(ProcessState::Launching, outcomes).0 is Ready ==> run_startup(
            ProcessState::Launching,
            outcomes,
        ).1 == seq![StartupStep::SendWarmup, StartupStep::SendWarmup, StartupStep::Finished],
{
    reveal_with_fuel(run_startup, 4);
    if outcomes.len() >= 3 {
        let rest = outcomes.drop_first().drop_first().drop_first();
        assert(run_startup(ProcessState::Faulted, rest).0 is Faulted);
        assert(seq![StartupStep::SendWarmup] + (seq![StartupStep::SendWarmup] + (
        seq![StartupStep::Finished] + Seq::<StartupStep>::empty())) =~= seq![
            StartupStep::SendWarmup,
            StartupStep::SendWarmup,
            StartupStep::Finished,
        ]);
    }
}

/// The request-level state of one formatter process: its lifecycle and the
/// byte length of the one request in flight, if any.
#[derive(Debug)]
pub struct FormatterSession {
    state: ProcessState,
    in_flight: Option<usize>,
}

/// The path under which warm-up content is formatted.
pub const WARMUP_PATH: &'static str = "Text.cs";

/// Trivial content formatted during warm-up.
pub const WARMUP_TEXT: &'static str = "public class ClassName { }";

impl FormatterSession {
    pub closed spec fn state(&self) -> ProcessState {
        self.state
    }

    /// Byte length of the content of the request awaiting its response.
    pub closed spec fn in_flight(&self) -> Option<usize> {
        self.in_flight
    }

    /// A session for a process that is being launched.
    pub fn new() -> (r: Self)
        ensures
            r.state() == ProcessState::Launching,
            r.in_flight() is None,
    {
        FormatterSession { state: ProcessState::Launching, in_flight: None }
    }

    pub fn is_ready(&self) -> (r: bool)
        ensures
            r == (self.state() == ProcessState::Ready && self.in_flight() is None),
    {
        matches!(self.state, ProcessState::Ready) && self.in_flight.is_none()
    }

    fn warmup_request(&mut self) -> (r: Vec<u8>)
        ensures
            final(self).state() == old(self).state(),
            final(self).in_flight() == Some(WARMUP_TEXT.spec_bytes().len() as usize),
            r@ == request_frame(WARMUP_PATH.spec_bytes(), WARMUP_TEXT.spec_bytes()),
    {
        self.in_flight = Some(WARMUP_TEXT.len());
        build_request(WARMUP_PATH, WARMUP_TEXT)
    }

    /// Reports whether the launch succeeded; on success, returns the first
    /// warm-up request to write.
    pub fn on_launch(&mut self, launched: bool) -> (r: (StartupStep, Option<Vec<u8>>))
        requires
            old(self).state() == ProcessState::Launching,
        ensures
            (final(self).state(), r.0) == startup_next(old(self).state(), launched),
            r.0 is SendWarmup <==> r.1 is Some,
            r.1 matches Some(b) ==> b@ == request_frame(
                WARMUP_PATH.spec_bytes(),
                WARMUP_TEXT.spec_bytes(),
            ) && final(self).in_flight() == Some(WARMUP_TEXT.spec_bytes().len() as usize),
            r.1 is None ==> final(self).in_flight() is None,
    {
        if launched {
            self.state = ProcessState::WarmingUp { completed: 0 };
            let req = self.warmup_request();
            (StartupStep::SendWarmup, Some(req))
        } else {
            self.state = ProcessState::Faulted;
            self.in_flight = None;
            (StartupStep::Failed, None)
        }
    }

    /// Reports the response to the warm-up request in flight (`None` when no
    /// frame came); returns the next step and, if it is another warm-up,
    /// the request to write.
    pub fn on_warmup_response(&mut self, response: Option<Result<String, FrameError>>) -> (r: (
        StartupStep,
        Option<Vec<u8>>,
    ))
        requires
            old(self).state() is WarmingUp,
            old(self).in_flight() is Some,
        ensures
            (final(self).state(), r.0) == startup_next(
                old(self).state(),
                response_outcome(old(self).in_flight()->0 as int, response_view(response)) is Ok,
            ),
            r.0 is SendWarmup <==> r.1 is Some,
            r.1 matches Some(b) ==> b@ == request_frame(
                WARMUP_PATH.spec_bytes(),
                WARMUP_TEXT.spec_bytes(),
            ) && final(self).in_flight() == Some(WARMUP_TEXT.spec_bytes().len() as usize),
            r.1 is None ==> final(self).in_flight() is None,
    {
        let len = match self.in_flight {
            Some(n) => n,
            None => 0,
        };
        let ok = classify_response(len, response).is_ok();
        let completed = match self.state {
            ProcessState::WarmingUp { completed } => completed,
            _ => 0,
        };
        if !ok {
            self.state = ProcessState::Faulted;
            self.in_flight = None;
            (StartupStep::Failed, None)
        } else if completed < WARMUP_ROUNDS - 1 {
            self.state = ProcessState::WarmingUp { completed: completed + 1 };
            let req = self.warmup_request();
            (StartupStep::SendWarmup, Some(req))
        } else {
            self.state = ProcessState::Ready;
            self.in_flight = None;
            (StartupStep::Finished, None)
        }
    }

    /// Starts a format request: the bytes to write, or an error when the
    /// process has failed before.
    pub fn begin_format(&mut self, content: &str, file_path: &str) -> (r: Result<Vec<u8>, FormatError>)
        requires
            old(self).state() is Ready || old(self).state() is Faulted,
            old(self).in_flight() is None,
        ensures
            final(self).state() == old(self).state(),
            old(self).state() is Faulted <==> r is Err,
            r is Err ==> r == Err::<Vec<u8>, _>(FormatError::Faulted) && final(self).in_flight() is None,
            r matches Ok(b) ==> b@ == request_frame(file_path.spec_bytes(), content.spec_bytes())
                && final(self).in_flight() == Some(content.spec_bytes().len() as usize),
    {
        if matches!(self.state, ProcessState::Faulted) {
            return Err(FormatError::Faulted);
        }
        self.in_flight = Some(content.len());
        Ok(build_request(file_path, content))
    }

    /// Reports that writing the request in flight failed.
    pub fn on_write_failed(&mut self) -> (r: FormatError)
        ensures
            final(self).state() == ProcessState::Faulted,
            final(self).in_flight() is None,
            r == FormatError::Io,
    {
        self.state = ProcessState::Faulted;
        self.in_flight = None;
        FormatError::Io
    }

    /// Reports the response to the format request in flight (`None` when the
    /// stream closed) and returns its outcome; a failure faults the process.
    pub fn on_format_response(&mut self, response: Option<Result<String, FrameError>>) -> (r: Result<
        Option<String>,
        FormatError,
    >)
        requires
            old(self).state() is Ready,
            old(self).in_flight() is Some,
        ensures
            outcome_view(r) == response_outcome(
                old(self).in_flight()->0 as int,
                response_view(response),
            ),
            final(self).in_flight() is None,
            final(self).state() == (if r is Ok {
                ProcessState::Ready
            } else {
                ProcessState::Faulted
            }),
    {
        let len = match self.in_flight {
            Some(n) => n,
            None => 0,
        };
        self.in_flight = None;
        let r = classify_response(len, response);
        if r.is_err() {
            self.state = ProcessState::Faulted;
        }
        r
    }
}

} // verus!
