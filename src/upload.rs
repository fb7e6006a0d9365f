use vstd::prelude::*;

use crate::backoff::{admits, interval_at};
use crate::backoff::{BackoffConfig, ExponentialBackoff};
use crate::classify::{is_retryable, transient, RemoteError};

verus! {

/// Where one chunk upload stands.
#[derive(Clone, Copy, Debug, PartialEq, Eq, Structural)]
pub enum Phase {
    Submitting,
    AwaitingResult,
    BackingOff,
    Succeeded,
    Failed,
}

/// The answer of a successful call could not be decoded.
#[derive(Clone, Debug)]
pub struct DecodeError {
    pub message: String,
}

/// Why a chunk upload ended without a chunk identifier.
#[derive(Debug)]
pub enum UploadError {
    /// A failure that is not safe to retry, as the remote call reported it.
    Fatal(RemoteError),
    /// The last transient failure, once the backoff policy ran out.
    Exhausted(RemoteError),
    /// The remote call succeeded, but its answer could not be decoded.
    Decode(DecodeError),
}

/// What the caller reports back after carrying out a step.
pub enum Event<T> {
    /// `submit` handed back a request handle.
    Submitted,
    /// `submit` failed.
    SubmitFailed(RemoteError),
    /// `wait` returned an answer, decoded into a chunk identifier or not.
    Answered(Result<T, DecodeError>),
    /// `wait` failed.
    WaitFailed(RemoteError),
    /// The backoff sleep is over.
    Slept,
}

/// What the caller is to do next.
#[derive(Debug)]
pub enum Step<T> {
    /// Submit the chunk, holding the submission gate.
    Submit,
    /// Wait for the result of the submission just made, holding the wait gate.
    Wait,
    /// Sleep this many milliseconds.
    Sleep(u64),
    /// The upload is over.
    Done(Result<T, UploadError>),
}

/// The abstract state of a chunk upload: the policy it retries under, its
/// phase, how many submissions it asked for and the sleeps it asked for.
pub struct UploadModel {
    pub config: BackoffConfig,
    pub phase: Phase,
    pub submits: nat,
    pub sleeps: Seq<int>,
}

/// The state right after the start: the first submission is asked for.
pub open spec fn initial(config: BackoffConfig) -> UploadModel {
    UploadModel { config, phase: Phase::Submitting, submits: 1, sleeps: Seq::empty() }
}

/// Whether an event can come in a given phase. In a final phase none can.
pub open spec fn accepts<T>(m: UploadModel, ev: Event<T>) -> bool {
    match ev {
        Event::Submitted | Event::SubmitFailed(_) => m.phase == Phase::Submitting,
        Event::Answered(_) | Event::WaitFailed(_) => m.phase == Phase::AwaitingResult,
        Event::Slept => m.phase == Phase::BackingOff,
    }
}

/// A failed remote call: fatal ones end the upload, transient ones are
/// retried after the next backoff interval, or end it once the policy has
/// run out.
pub open spec fn on_failure<T>(m: UploadModel, e: RemoteError) -> (UploadModel, Step<T>) {
    if !transient(e.kind) {
        (UploadModel { phase: Phase::Failed, ..m }, Step::Done(Err(UploadError::Fatal(e))))
    } else if admits(m.config, m.sleeps.len()) {
        let d = interval_at(m.config, m.sleeps.len());
        (UploadModel { phase: Phase::BackingOff, sleeps: m.sleeps.push(d), ..m }, Step::Sleep(d as u64))
    } else {
        (UploadModel { phase: Phase::Failed, ..m }, Step::Done(Err(UploadError::Exhausted(e))))
    }
}

/// The state and step that follow an event.
pub open spec fn next<T>(m: UploadModel, ev: Event<T>) -> (UploadModel, Step<T>) {
    match ev {
        Event::Submitted => (UploadModel { phase: Phase::AwaitingResult, ..m }, Step::Wait),
        Event::SubmitFailed(e) => on_failure(m, e),
        Event::WaitFailed(e) => on_failure(m, e),
        Event::Answered(Ok(id)) => (UploadModel { phase: Phase::Succeeded, ..m }, Step::Done(Ok(id))),
        Event::Answered(Err(d)) => (
            UploadModel { phase: Phase::Failed, ..m },
            Step::Done(Err(UploadError::Decode(d))),
        ),
        Event::Slept => (
            UploadModel { phase: Phase::Submitting, submits: m.submits + 1, ..m },
            Step::Submit,
        ),
    }
}

/// The decision core of one chunk upload. The caller carries out each step
/// it returns and reports the outcome as an event.
pub struct ChunkUpload {
    backoff: ExponentialBackoff,
    phase: Phase,
    submits: Ghost<nat>,
    sleeps: Ghost<Seq<int>>,
}

impl ChunkUpload {
    pub closed spec fn view(&self) -> UploadModel {
        UploadModel {
            config: self.backoff.config(),
            phase: self.phase,
            submits: self.submits@,
            sleeps: self.sleeps@,
        }
    }

    pub closed spec fn wf(&self) -> bool {
        &&& self.backoff.wf()
        &&& self.backoff.issued() == self.sleeps@.len()
    }

    /// Starts an upload that retries under `config`; the first step is a
    /// submission. Nothing but `config` goes into the new state.
    pub fn start<T>(config: BackoffConfig) -> (r: (ChunkUpload, Step<T>))
        requires
            config.wf(),
        ensures
            r.0.wf(),
            r.0@ == initial(config),
            r.1 == Step::<T>::Submit,
    {
        let upload = ChunkUpload {
            backoff: ExponentialBackoff::new(config),
            phase: Phase::Submitting,
            submits: Ghost(1),
            sleeps: Ghost(Seq::empty()),
        };
        (upload, Step::Submit)
    }

    pub fn phase(&self) -> (r: Phase)
        ensures
            r == self@.phase,
    {
        self.phase
    }

    /// Whether the upload is over.
    pub fn is_finished(&self) -> (r: bool)
        ensures
            r == (self@.phase == Phase::Succeeded || self@.phase == Phase::Failed),
    {
        match self.phase {
            Phase::Succeeded | Phase::Failed => true,
            _ => false,
        }
    }

    /// Takes in the outcome of the step last returned and decides the next.
    pub fn on_event<T>(&mut self, ev: Event<T>) -> (r: Step<T>)
        requires
            old(self).wf(),
            accepts(old(self)@, ev),
        ensures
            final(self).wf(),
            (final(self)@, r) == next(old(self)@, ev),
    {
        match ev {
            Event::Submitted => {
                self.phase = Phase::AwaitingResult;
                Step::Wait
            },
            Event::SubmitFailed(e) => self.on_failure(e),
            Event::WaitFailed(e) => self.on_failure(e),
            Event::Answered(Ok(id)) => {
                self.phase = Phase::Succeeded;
                Step::Done(Ok(id))
            },
            Event::Answered(Err(d)) => {
                self.phase = Phase::Failed;
                Step::Done(Err(UploadError::Decode(d)))
            },
            Event::Slept => {
                self.phase = Phase::Submitting;
                self.submits = Ghost(self.submits@ + 1);
                Step::Submit
            },
        }
    }

    fn on_failure<T>(&mut self, e: RemoteError) -> (r: Step<T>)
        requires
            old(self).wf(),
        ensures
            final(self).wf(),
            (final(self)@, r) == on_failure::<T>(old(self)@, e),
    {
        if !is_retryable(&e) {
            self.phase = Phase::Failed;
            return Step::Done(Err(UploadError::Fatal(e)));
        }
        match self.backoff.next_backoff() {
            Some(d) => {
                self.sleeps = Ghost(self.sleeps@.push(d as int));
                self.phase = Phase::BackingOff;
                Step::Sleep(d)
            },
            None => {
                self.phase = Phase::Failed;
                Step::Done(Err(UploadError::Exhausted(e)))
            },
        }
    }
}

} // verus!
