//! The decisions of the encoding queue: which outside step comes next, which
//! events the user interface receives, and when the CPU encoder takes over
//! from a failed hardware encoder. The program that runs the queue performs
//! each requested step and reports how it went.

use crate::acceleration::{spec_encoder_label, EncoderSelection, VideoEncoder};
use crate::paths::opt_view;
use crate::text::{chars_of, push_str, string_of, take_chars};
use vstd::prelude::*;

verus! {

/// Characters kept of an error message before it is cut short.
pub const MAX_ERROR_CHARACTERS: usize = 500;

/// The message cut to its first 500 characters, with `…` appended where it was cut.
pub open spec fn spec_concise_error(message: Seq<char>) -> Seq<char> {
    if message.len() <= MAX_ERROR_CHARACTERS {
        message
    } else {
        message.take(MAX_ERROR_CHARACTERS as int).push('…')
    }
}

/// A short form of an error message for display.
pub fn concise_error(message: &str) -> (short: String)
    ensures
        short@ == spec_concise_error(message@),
{
    let chars = chars_of(message);
    if chars.len() <= MAX_ERROR_CHARACTERS {
        return message.to_owned();
    }
    let mut kept = take_chars(&chars, MAX_ERROR_CHARACTERS);
    kept.push('…');
    string_of(&kept)
}

/// What the queue tells the user interface. Encoding progress is reported
/// separately, while a job encodes.
#[derive(Debug, Clone)]
pub enum WorkerEvent {
    QueueStarted { total_jobs: usize },
    JobProbing(u64),
    EncoderSelected { encoder: String, hardware: bool, note: Option<String> },
    JobStarted { job_id: u64, encoder: String },
    JobFallback { job_id: u64, from: String, to: String, reason: String },
    JobCompleted(u64),
    JobFailed { job_id: u64, error: String },
    JobCancelled(u64),
    QueueCompleted { completed_jobs: usize, failed_jobs: usize },
    QueueCancelled { completed_jobs: usize, failed_jobs: usize },
    QueueFailed { error: String },
}

/// An event with its texts as character sequences.
pub enum EventView {
    QueueStarted(nat),
    JobProbing(u64),
    EncoderSelected(Seq<char>, bool, Option<Seq<char>>),
    JobStarted(u64, Seq<char>),
    JobFallback(u64, Seq<char>, Seq<char>, Seq<char>),
    JobCompleted(u64),
    JobFailed(u64, Seq<char>),
    JobCancelled(u64),
    QueueCompleted(nat, nat),
    QueueCancelled(nat, nat),
    QueueFailed(Seq<char>),
}

impl View for WorkerEvent {
    type V = EventView;

    open spec fn view(&self) -> EventView {
        match self {
            WorkerEvent::QueueStarted { total_jobs } => EventView::QueueStarted(*total_jobs as nat),
            WorkerEvent::JobProbing(id) => EventView::JobProbing(*id),
            WorkerEvent::EncoderSelected { encoder, hardware, note } => EventView::EncoderSelected(encoder@, *hardware, opt_view(*note)),
            WorkerEvent::JobStarted { job_id, encoder } => EventView::JobStarted(*job_id, encoder@),
            WorkerEvent::JobFallback { job_id, from, to, reason } => EventView::JobFallback(*job_id, from@, to@, reason@),
            WorkerEvent::JobCompleted(id) => EventView::JobCompleted(*id),
            WorkerEvent::JobFailed { job_id, error } => EventView::JobFailed(*job_id, error@),
            WorkerEvent::JobCancelled(id) => EventView::JobCancelled(*id),
            WorkerEvent::QueueCompleted { completed_jobs, failed_jobs } => EventView::QueueCompleted(*completed_jobs as nat, *failed_jobs as nat),
            WorkerEvent::QueueCancelled { completed_jobs, failed_jobs } => EventView::QueueCancelled(*completed_jobs as nat, *failed_jobs as nat),
            WorkerEvent::QueueFailed { error } => EventView::QueueFailed(error@),
        }
    }
}

/// How an encoding attempt failed: the error's message, and its message with
/// every cause it carries.
#[derive(Debug, Clone)]
pub struct EncodeFailure {
    pub message: String,
    pub detailed: String,
}

/// What the program that runs the queue reports after performing a step.
#[derive(Debug)]
pub enum QueueInput {
    /// Whether the emitted event reached the user interface.
    Delivered(bool),
    /// FFmpeg and FFprobe were found and checked, or why not.
    Located(Result<(), String>),
    /// The encoder chosen for the queue, or why none could be.
    Selected(Result<EncoderSelection, String>),
    /// Whether the job's video could be read, or why not.
    Probed(Result<(), String>),
    /// Whether the job was encoded, or how it failed.
    Encoded(Result<(), EncodeFailure>),
}

pub enum InputView {
    Delivered(bool),
    Located(Result<(), Seq<char>>),
    Selected(Result<(VideoEncoder, Option<Seq<char>>), Seq<char>>),
    Probed(Result<(), Seq<char>>),
    Encoded(Result<(), (Seq<char>, Seq<char>)>),
}

impl View for QueueInput {
    type V = InputView;

    open spec fn view(&self) -> InputView {
        match self {
            QueueInput::Delivered(b) => InputView::Delivered(*b),
            QueueInput::Located(r) => InputView::Located(match r { Ok(_) => Ok(()), Err(m) => Err(m@) }),
            QueueInput::Selected(r) => InputView::Selected(match r {
                Ok(s) => Ok((s.encoder, opt_view(s.note))),
                Err(m) => Err(m@),
            }),
            QueueInput::Probed(r) => InputView::Probed(match r { Ok(_) => Ok(()), Err(m) => Err(m@) }),
            QueueInput::Encoded(r) => InputView::Encoded(match r {
                Ok(_) => Ok(()),
                Err(f) => Err((f.message@, f.detailed@)),
            }),
        }
    }
}

/// The next step of the queue.
#[derive(Debug)]
pub enum QueueAction {
    /// Send this event to the user interface and report whether it arrived.
    Emit(WorkerEvent),
    /// Find FFmpeg and FFprobe and check them.
    LocateFfmpeg,
    /// Choose the encoder for the queue.
    SelectEncoder,
    /// Read the video information of the job at this position.
    ProbeJob(usize),
    /// Encode the job at this position with this encoder.
    EncodeJob(usize, VideoEncoder),
    /// The queue is over.
    Stop,
    /// The user interface is gone: request cancellation and stop.
    CancelAndStop,
}

pub enum ActionView {
    Emit(EventView),
    LocateFfmpeg,
    SelectEncoder,
    ProbeJob(nat),
    EncodeJob(nat, VideoEncoder),
    Stop,
    CancelAndStop,
}

impl View for QueueAction {
    type V = ActionView;

    open spec fn view(&self) -> ActionView {
        match self {
            QueueAction::Emit(e) => ActionView::Emit(e@),
            QueueAction::LocateFfmpeg => ActionView::LocateFfmpeg,
            QueueAction::SelectEncoder => ActionView::SelectEncoder,
            QueueAction::ProbeJob(i) => ActionView::ProbeJob(*i as nat),
            QueueAction::EncodeJob(i, e) => ActionView::EncodeJob(*i as nat, *e),
            QueueAction::Stop => ActionView::Stop,
            QueueAction::CancelAndStop => ActionView::CancelAndStop,
        }
    }
}

/// Where the queue stands: what it waits for.
#[derive(Debug, Clone)]
pub enum QueueStage {
    Announcing,
    Locating,
    Selecting,
    ConfirmingEncoder,
    ConfirmingProbe,
    Probing,
    ReportingFailure,
    ConfirmingStart,
    Encoding,
    /// The hardware encoder that failed and its detailed error.
    AnnouncingFallback(VideoEncoder, String),
    EncodingFallback(VideoEncoder, String),
    ReportingCompletion,
    CancellingJob,
    Closing,
    Stopped,
}

pub enum StageView {
    Announcing,
    Locating,
    Selecting,
    ConfirmingEncoder,
    ConfirmingProbe,
    Probing,
    ReportingFailure,
    ConfirmingStart,
    Encoding,
    AnnouncingFallback(VideoEncoder, Seq<char>),
    EncodingFallback(VideoEncoder, Seq<char>),
    ReportingCompletion,
    CancellingJob,
    Closing,
    Stopped,
}

impl View for QueueStage {
    type V = StageView;

    open spec fn view(&self) -> StageView {
        match self {
            QueueStage::Announcing => StageView::Announcing,
            QueueStage::Locating => StageView::Locating,
            QueueStage::Selecting => StageView::Selecting,
            QueueStage::ConfirmingEncoder => StageView::ConfirmingEncoder,
            QueueStage::ConfirmingProbe => StageView::ConfirmingProbe,
            QueueStage::Probing => StageView::Probing,
            QueueStage::ReportingFailure => StageView::ReportingFailure,
            QueueStage::ConfirmingStart => StageView::ConfirmingStart,
            QueueStage::Encoding => StageView::Encoding,
            QueueStage::AnnouncingFallback(e, m) => StageView::AnnouncingFallback(*e, m@),
            QueueStage::EncodingFallback(e, m) => StageView::EncodingFallback(*e, m@),
            QueueStage::ReportingCompletion => StageView::ReportingCompletion,
            QueueStage::CancellingJob => StageView::CancellingJob,
            QueueStage::Closing => StageView::Closing,
            QueueStage::Stopped => StageView::Stopped,
        }
    }
}

/// The queue's state as plain values.
pub struct RunnerView {
    pub job_ids: Seq<u64>,
    pub next_job: nat,
    pub completed: nat,
    pub failed: nat,
    pub active: VideoEncoder,
    pub stage: StageView,
}

/// `s` moved to another stage.
pub open spec fn at_stage(s: RunnerView, stage: StageView) -> RunnerView {
    RunnerView { stage: stage, ..s }
}

/// The top of the job loop: the queue completes after the last job, is
/// cancelled where cancellation was requested, and otherwise announces that the
/// next job's video is being read.
pub open spec fn spec_begin_job(s: RunnerView, cancel_requested: bool) -> (RunnerView, ActionView) {
    if s.next_job >= s.job_ids.len() {
        (at_stage(s, StageView::Closing), ActionView::Emit(EventView::QueueCompleted(s.completed, s.failed)))
    } else if cancel_requested {
        (at_stage(s, StageView::Closing), ActionView::Emit(EventView::QueueCancelled(s.completed, s.failed)))
    } else {
        (at_stage(s, StageView::ConfirmingProbe), ActionView::Emit(EventView::JobProbing(s.job_ids[s.next_job as int])))
    }
}

/// A job's encoding failed: it is cancelled where cancellation was requested,
/// and otherwise counted and reported as failed.
pub open spec fn spec_fail_job(s: RunnerView, message: Seq<char>, cancel_requested: bool) -> (RunnerView, ActionView) {
    let id = s.job_ids[s.next_job as int];
    if cancel_requested {
        (at_stage(s, StageView::CancellingJob), ActionView::Emit(EventView::JobCancelled(id)))
    } else {
        (
            RunnerView { failed: s.failed + 1, stage: StageView::ReportingFailure, ..s },
            ActionView::Emit(EventView::JobFailed(id, message)),
        )
    }
}

/// The message for a job on which both the hardware encoder and the CPU fallback failed.
pub open spec fn spec_fallback_message(failed_encoder: VideoEncoder, hardware_error: Seq<char>, cpu_error: Seq<char>) -> Seq<char> {
    spec_encoder_label(failed_encoder) + " failed, then the CPU fallback also failed.\nHardware error: "@ + hardware_error
        + "\nCPU error: "@ + cpu_error
}

/// One step of the queue: the next state and action after `input`, where
/// `cancel_requested` is whether cancellation has been requested by then.
///
/// An event that must arrive (all but the fallback notice, the cancellation of
/// a job and the final queue event) stops the queue and requests cancellation
/// where it does not. A hardware encoder that fails on a job, with no
/// cancellation requested, is replaced by the CPU encoder for that job and the
/// rest of the queue.
pub open spec fn spec_advance(s: RunnerView, input: InputView, cancel_requested: bool) -> (RunnerView, ActionView) {
    let stopped = (at_stage(s, StageView::Stopped), ActionView::Stop);
    let dropped = (at_stage(s, StageView::Stopped), ActionView::CancelAndStop);
    let id = s.job_ids[s.next_job as int];
    match s.stage {
        StageView::Announcing => match input {
            InputView::Delivered(true) => (at_stage(s, StageView::Locating), ActionView::LocateFfmpeg),
            InputView::Delivered(false) => dropped,
            _ => stopped,
        },
        StageView::Locating => match input {
            InputView::Located(Ok(_)) => (at_stage(s, StageView::Selecting), ActionView::SelectEncoder),
            InputView::Located(Err(m)) => (at_stage(s, StageView::Closing), ActionView::Emit(EventView::QueueFailed(m))),
            _ => stopped,
        },
        StageView::Selecting => match input {
            InputView::Selected(Ok((encoder, note))) => (
                RunnerView { active: encoder, stage: StageView::ConfirmingEncoder, ..s },
                ActionView::Emit(EventView::EncoderSelected(spec_encoder_label(encoder), encoder != VideoEncoder::Software, note)),
            ),
            InputView::Selected(Err(m)) => (
                at_stage(s, StageView::Closing),
                ActionView::Emit(EventView::QueueFailed("Could not initialize a video encoder: "@ + m)),
            ),
            _ => stopped,
        },
        StageView::ConfirmingEncoder => match input {
            InputView::Delivered(true) => spec_begin_job(s, cancel_requested),
            InputView::Delivered(false) => dropped,
            _ => stopped,
        },
        StageView::ConfirmingProbe => match input {
            InputView::Delivered(true) => (at_stage(s, StageView::Probing), ActionView::ProbeJob(s.next_job)),
            InputView::Delivered(false) => dropped,
            _ => stopped,
        },
        StageView::Probing => match input {
            InputView::Probed(Err(m)) => (
                RunnerView { failed: s.failed + 1, stage: StageView::ReportingFailure, ..s },
                ActionView::Emit(EventView::JobFailed(id, m)),
            ),
            InputView::Probed(Ok(_)) => if cancel_requested {
                (at_stage(s, StageView::CancellingJob), ActionView::Emit(EventView::JobCancelled(id)))
            } else {
                (at_stage(s, StageView::ConfirmingStart), ActionView::Emit(EventView::JobStarted(id, spec_encoder_label(s.active))))
            },
            _ => stopped,
        },
        StageView::ReportingFailure | StageView::ReportingCompletion => match input {
            InputView::Delivered(true) => spec_begin_job(RunnerView { next_job: s.next_job + 1, ..s }, cancel_requested),
            InputView::Delivered(false) => dropped,
            _ => stopped,
        },
        StageView::ConfirmingStart => match input {
            InputView::Delivered(true) => (at_stage(s, StageView::Encoding), ActionView::EncodeJob(s.next_job, s.active)),
            InputView::Delivered(false) => dropped,
            _ => stopped,
        },
        StageView::Encoding => match input {
            InputView::Encoded(Ok(_)) => (
                RunnerView { completed: s.completed + 1, stage: StageView::ReportingCompletion, ..s },
                ActionView::Emit(EventView::JobCompleted(id)),
            ),
            InputView::Encoded(Err((message, detailed))) => if s.active != VideoEncoder::Software && !cancel_requested {
                (
                    RunnerView {
                        active: VideoEncoder::Software,
                        stage: StageView::AnnouncingFallback(s.active, detailed),
                        ..s
                    },
                    ActionView::Emit(EventView::JobFallback(
                        id,
                        spec_encoder_label(s.active),
                        spec_encoder_label(VideoEncoder::Software),
                        spec_concise_error(detailed),
                    )),
                )
            } else {
                spec_fail_job(s, message, cancel_requested)
            },
            _ => stopped,
        },
        StageView::AnnouncingFallback(failed_encoder, hardware_error) => match input {
            InputView::Delivered(_) => (
                at_stage(s, StageView::EncodingFallback(failed_encoder, hardware_error)),
                ActionView::EncodeJob(s.next_job, VideoEncoder::Software),
            ),
            _ => stopped,
        },
        StageView::EncodingFallback(failed_encoder, hardware_error) => match input {
            InputView::Encoded(Ok(_)) => (
                RunnerView { completed: s.completed + 1, stage: StageView::ReportingCompletion, ..s },
                ActionView::Emit(EventView::JobCompleted(id)),
            ),
            InputView::Encoded(Err((_, detailed))) => spec_fail_job(
                s,
                spec_fallback_message(failed_encoder, hardware_error, detailed),
                cancel_requested,
            ),
            _ => stopped,
        },
        StageView::CancellingJob => match input {
            InputView::Delivered(_) => (
                at_stage(s, StageView::Closing),
                ActionView::Emit(EventView::QueueCancelled(s.completed, s.failed)),
            ),
            _ => stopped,
        },
        StageView::Closing | StageView::Stopped => stopped,
    }
}

/// What holds of the queue in every state: no more jobs are counted than were
/// taken up, and a fallback is always from a hardware encoder to the CPU.
pub open spec fn runner_inv(s: RunnerView) -> bool {
    &&& s.next_job <= s.job_ids.len()
    &&& match s.stage {
        StageView::Announcing | StageView::Locating | StageView::Selecting | StageView::ConfirmingEncoder =>
            s.next_job == 0 && s.completed == 0 && s.failed == 0,
        StageView::ConfirmingProbe | StageView::Probing | StageView::ConfirmingStart | StageView::Encoding
        | StageView::CancellingJob => s.next_job < s.job_ids.len() && s.completed + s.failed == s.next_job,
        StageView::AnnouncingFallback(failed_encoder, _) | StageView::EncodingFallback(failed_encoder, _) =>
            s.next_job < s.job_ids.len() && s.completed + s.failed == s.next_job
                && failed_encoder != VideoEncoder::Software && s.active == VideoEncoder::Software,
        StageView::ReportingFailure | StageView::ReportingCompletion =>
            s.next_job < s.job_ids.len() && s.completed + s.failed == s.next_job + 1,
        StageView::Closing | StageView::Stopped => s.completed + s.failed <= s.job_ids.len(),
    }
}

/// Every step keeps the queue's invariant.
pub proof fn lemma_advance_keeps_inv(s: RunnerView, input: InputView, cancel_requested: bool)
    requires
        runner_inv(s),
    ensures
        runner_inv(spec_advance(s, input, cancel_requested).0),
{
}

/// The state of an encoding queue between steps.
#[derive(Debug)]
pub struct QueueRunner {
    job_ids: Vec<u64>,
    next_job: usize,
    completed: usize,
    failed: usize,
    active: VideoEncoder,
    stage: QueueStage,
}

impl View for QueueRunner {
    type V = RunnerView;

    closed spec fn view(&self) -> RunnerView {
        RunnerView {
            job_ids: self.job_ids@,
            next_job: self.next_job as nat,
            completed: self.completed as nat,
            failed: self.failed as nat,
            active: self.active,
            stage: self.stage@,
        }
    }
}

impl QueueRunner {
    /// A queue for jobs with these ids, in order; its first step announces the queue.
    pub fn new(job_ids: Vec<u64>) -> (r: (QueueRunner, QueueAction))
        ensures
            r.0@ == (RunnerView {
                job_ids: job_ids@,
                next_job: 0,
                completed: 0,
                failed: 0,
                active: VideoEncoder::Software,
                stage: StageView::Announcing,
            }),
            r.1@ == ActionView::Emit(EventView::QueueStarted(job_ids.len() as nat)),
            runner_inv(r.0@),
    {
        let total = job_ids.len();
        let runner = QueueRunner {
            job_ids,
            next_job: 0,
            completed: 0,
            failed: 0,
            active: VideoEncoder::Software,
            stage: QueueStage::Announcing,
        };
        (runner, QueueAction::Emit(WorkerEvent::QueueStarted { total_jobs: total }))
    }

    fn begin_job(&mut self, cancel_requested: bool) -> (action: QueueAction)
        requires
            old(self).next_job <= old(self).job_ids.len(),
            old(self).completed + old(self).failed == old(self).next_job,
        ensures
            (final(self)@, action@) == spec_begin_job(old(self)@, cancel_requested),
    {
        if self.next_job >= self.job_ids.len() {
            self.stage = QueueStage::Closing;
            QueueAction::Emit(WorkerEvent::QueueCompleted { completed_jobs: self.completed, failed_jobs: self.failed })
        } else if cancel_requested {
            self.stage = QueueStage::Closing;
            QueueAction::Emit(WorkerEvent::QueueCancelled { completed_jobs: self.completed, failed_jobs: self.failed })
        } else {
            self.stage = QueueStage::ConfirmingProbe;
            QueueAction::Emit(WorkerEvent::JobProbing(self.job_ids[self.next_job]))
        }
    }

    /// Reports how the requested step went and returns the next step.
    /// `cancel_requested` is whether cancellation has been requested by now.
    pub fn advance(&mut self, input: QueueInput, cancel_requested: bool) -> (action: QueueAction)
        requires
            runner_inv(old(self)@),
        ensures
            (final(self)@, action@) == spec_advance(old(self)@, input@, cancel_requested),
            runner_inv(final(self)@),
    {
        proof {
            lemma_advance_keeps_inv(self@, input@, cancel_requested);
        }
        let ghost s0 = self@;
        let mut stage = QueueStage::Stopped;
        core::mem::swap(&mut stage, &mut self.stage);
        assert(stage@ == s0.stage);
        assert(self.completed + self.failed <= self.job_ids.len());
        match stage {
            QueueStage::Announcing => match input {
                QueueInput::Delivered(true) => {
                    self.stage = QueueStage::Locating;
                    QueueAction::LocateFfmpeg
                },
                QueueInput::Delivered(false) => QueueAction::CancelAndStop,
                _ => QueueAction::Stop,
            },
            QueueStage::Locating => match input {
                QueueInput::Located(Ok(())) => {
                    self.stage = QueueStage::Selecting;
                    QueueAction::SelectEncoder
                },
                QueueInput::Located(Err(m)) => {
                    self.stage = QueueStage::Closing;
                    QueueAction::Emit(WorkerEvent::QueueFailed { error: m })
                },
                _ => QueueAction::Stop,
            },
            QueueStage::Selecting => match input {
                QueueInput::Selected(Ok(selection)) => {
                    self.active = selection.encoder;
                    self.stage = QueueStage::ConfirmingEncoder;
                    QueueAction::Emit(WorkerEvent::EncoderSelected {
                        encoder: selection.encoder.label().to_owned(),
                        hardware: selection.encoder.is_hardware(),
                        note: selection.note,
                    })
                },
                QueueInput::Selected(Err(m)) => {
                    self.stage = QueueStage::Closing;
                    let mut error = "Could not initialize a video encoder: ".to_owned();
                    push_str(&mut error, m.as_str());
                    QueueAction::Emit(WorkerEvent::QueueFailed { error })
                },
                _ => QueueAction::Stop,
            },
            QueueStage::ConfirmingEncoder => match input {
                QueueInput::Delivered(true) => self.begin_job(cancel_requested),
                QueueInput::Delivered(false) => QueueAction::CancelAndStop,
                _ => QueueAction::Stop,
            },
            QueueStage::ConfirmingProbe => match input {
                QueueInput::Delivered(true) => {
                    self.stage = QueueStage::Probing;
                    QueueAction::ProbeJob(self.next_job)
                },
                QueueInput::Delivered(false) => QueueAction::CancelAndStop,
                _ => QueueAction::Stop,
            },
            QueueStage::Probing => match input {
                QueueInput::Probed(Err(m)) => {
                    let id = self.job_ids[self.next_job];
                    self.failed = self.failed + 1;
                    self.stage = QueueStage::ReportingFailure;
                    QueueAction::Emit(WorkerEvent::JobFailed { job_id: id, error: m })
                },
                QueueInput::Probed(Ok(())) => {
                    let id = self.job_ids[self.next_job];
                    if cancel_requested {
                        self.stage = QueueStage::CancellingJob;
                        QueueAction::Emit(WorkerEvent::JobCancelled(id))
                    } else {
                        self.stage = QueueStage::ConfirmingStart;
                        QueueAction::Emit(WorkerEvent::JobStarted { job_id: id, encoder: self.active.label().to_owned() })
                    }
                },
                _ => QueueAction::Stop,
            },
            QueueStage::ReportingFailure | QueueStage::ReportingCompletion => match input {
                QueueInput::Delivered(true) => {
                    self.next_job = self.next_job + 1;
                    self.begin_job(cancel_requested)
                },
                QueueInput::Delivered(false) => QueueAction::CancelAndStop,
                _ => QueueAction::Stop,
            },
            QueueStage::ConfirmingStart => match input {
                QueueInput::Delivered(true) => {
                    self.stage = QueueStage::Encoding;
                    QueueAction::EncodeJob(self.next_job, self.active)
                },
                QueueInput::Delivered(false) => QueueAction::CancelAndStop,
                _ => QueueAction::Stop,
            },
            QueueStage::Encoding => match input {
                QueueInput::Encoded(Ok(())) => {
                    let id = self.job_ids[self.next_job];
                    self.completed = self.completed + 1;
                    self.stage = QueueStage::ReportingCompletion;
                    QueueAction::Emit(WorkerEvent::JobCompleted(id))
                },
                QueueInput::Encoded(Err(failure)) => {
                    if self.active.is_hardware() && !cancel_requested {
                        let id = self.job_ids[self.next_job];
                        let failed_encoder = self.active;
                        self.active = VideoEncoder::Software;
                        let reason = concise_error(failure.detailed.as_str());
                        self.stage = QueueStage::AnnouncingFallback(failed_encoder, failure.detailed);
                        QueueAction::Emit(WorkerEvent::JobFallback {
                            job_id: id,
                            from: failed_encoder.label().to_owned(),
                            to: VideoEncoder::Software.label().to_owned(),
                            reason,
                        })
                    } else {
                        self.fail_job(failure.message, cancel_requested)
                    }
                },
                _ => QueueAction::Stop,
            },
            QueueStage::AnnouncingFallback(failed_encoder, hardware_error) => match input {
                QueueInput::Delivered(_) => {
                    self.stage = QueueStage::EncodingFallback(failed_encoder, hardware_error);
                    QueueAction::EncodeJob(self.next_job, VideoEncoder::Software)
                },
                _ => QueueAction::Stop,
            },
            QueueStage::EncodingFallback(failed_encoder, hardware_error) => match input {
                QueueInput::Encoded(Ok(())) => {
                    let id = self.job_ids[self.next_job];
                    self.completed = self.completed + 1;
                    self.stage = QueueStage::ReportingCompletion;
                    QueueAction::Emit(WorkerEvent::JobCompleted(id))
                },
                QueueInput::Encoded(Err(failure)) => {
                    let mut message = failed_encoder.label().to_owned();
                    push_str(&mut message, " failed, then the CPU fallback also failed.\nHardware error: ");
                    push_str(&mut message, hardware_error.as_str());
                    push_str(&mut message, "\nCPU error: ");
                    push_str(&mut message, failure.detailed.as_str());
                    self.fail_job(message, cancel_requested)
                },
                _ => QueueAction::Stop,
            },
            QueueStage::CancellingJob => match input {
                QueueInput::Delivered(_) => {
                    self.stage = QueueStage::Closing;
                    QueueAction::Emit(WorkerEvent::QueueCancelled { completed_jobs: self.completed, failed_jobs: self.failed })
                },
                _ => QueueAction::Stop,
            },
            QueueStage::Closing | QueueStage::Stopped => QueueAction::Stop,
        }
    }

    fn fail_job(&mut self, message: String, cancel_requested: bool) -> (action: QueueAction)
        requires
            old(self).next_job < old(self).job_ids.len(),
            old(self).completed + old(self).failed == old(self).next_job,
        ensures
            (final(self)@, action@) == spec_fail_job(old(self)@, message@, cancel_requested),
    {
        let id = self.job_ids[self.next_job];
        if cancel_requested {
            self.stage = QueueStage::CancellingJob;
            QueueAction::Emit(WorkerEvent::JobCancelled(id))
        } else {
            self.failed = self.failed + 1;
            self.stage = QueueStage::ReportingFailure;
            QueueAction::Emit(WorkerEvent::JobFailed { job_id: id, error: message })
        }
    }
}


/// When the queue completes, every job has been counted once, as completed or
/// as failed.
pub proof fn law_completed_queue_counts_every_job(s: RunnerView, input: InputView, cancel_requested: bool, completed: nat, failed: nat)
    requires
        runner_inv(s),
        spec_advance(s, input, cancel_requested).1 == ActionView::Emit(EventView::QueueCompleted(completed, failed)),
    ensures
        completed + failed == s.job_ids.len(),
{
}

/// A hardware encoder that fails on a job while no cancellation is requested
/// is reported with the shortened detailed error, and the same job is then
/// encoded again with the CPU encoder, which stays in use for the rest of the
/// queue.
pub proof fn law_failed_hardware_job_retries_on_cpu(
    s: RunnerView,
    message: Seq<char>,
    detailed: Seq<char>,
    delivered: bool,
    cancel_after: bool,
)
    requires
        runner_inv(s),
        s.stage == StageView::Encoding,
        s.active != VideoEncoder::Software,
    ensures
        ({
            let (s1, a1) = spec_advance(s, InputView::Encoded(Err((message, detailed))), false);
            let (s2, a2) = spec_advance(s1, InputView::Delivered(delivered), cancel_after);
            &&& a1 == ActionView::Emit(EventView::JobFallback(
                s.job_ids[s.next_job as int],
                spec_encoder_label(s.active),
                spec_encoder_label(VideoEncoder::Software),
                spec_concise_error(detailed),
            ))
            &&& a2 == ActionView::EncodeJob(s.next_job, VideoEncoder::Software)
            &&& s2.active == VideoEncoder::Software
            &&& s2.next_job == s.next_job
            &&& s2.completed == s.completed && s2.failed == s.failed
        }),
{
}

/// Once the CPU encoder is in use it stays in use: no later step switches
/// back to a hardware encoder.
pub proof fn law_cpu_encoder_stays_active(s: RunnerView, input: InputView, cancel_requested: bool)
    requires
        runner_inv(s),
        s.active == VideoEncoder::Software,
        !(s.stage is Selecting),
    ensures
        spec_advance(s, input, cancel_requested).0.active == VideoEncoder::Software,
{
}

/// A job that fails on the CPU encoder, or while cancellation is requested, is
/// not retried: it is reported as failed and counted, or as cancelled.
pub proof fn law_failure_without_fallback(s: RunnerView, message: Seq<char>, detailed: Seq<char>, cancel_requested: bool)
    requires
        runner_inv(s),
        s.stage == StageView::Encoding,
        s.active == VideoEncoder::Software || cancel_requested,
    ensures
        ({
            let (s1, a1) = spec_advance(s, InputView::Encoded(Err((message, detailed))), cancel_requested);
            let id = s.job_ids[s.next_job as int];
            if cancel_requested {
                a1 == ActionView::Emit(EventView::JobCancelled(id)) && s1.failed == s.failed
            } else {
                a1 == ActionView::Emit(EventView::JobFailed(id, message)) && s1.failed == s.failed + 1
            }
        }),
{
}

/// No step takes back progress: the position in the queue and the numbers of
/// completed and failed jobs never decrease, and each grows by at most one.
pub proof fn law_progress_only_grows(s: RunnerView, input: InputView, cancel_requested: bool)
    requires
        runner_inv(s),
    ensures
        ({
            let t = spec_advance(s, input, cancel_requested).0;
            &&& s.next_job <= t.next_job <= s.next_job + 1
            &&& s.completed <= t.completed <= s.completed + 1
            &&& s.failed <= t.failed <= s.failed + 1
            &&& t.job_ids == s.job_ids
        }),
{
}

/// Where cancellation is requested, no further job is begun: the queue reports
/// its cancellation where it would move to the next job, a job whose video was
/// just read is cancelled rather than encoded, and only a job already announced
/// as started, or its CPU retry, is encoded.
pub proof fn law_cancellation_begins_no_job(s: RunnerView, input: InputView)
    requires
        runner_inv(s),
    ensures
        ({
            let (t, a) = spec_advance(s, input, true);
            &&& (a is EncodeJob ==> (s.stage is ConfirmingStart || s.stage is AnnouncingFallback))
            &&& (a is ProbeJob ==> s.stage is ConfirmingProbe)
            &&& (s.stage is Probing && input == InputView::Probed(Ok(()))
                ==> a == ActionView::Emit(EventView::JobCancelled(s.job_ids[s.next_job as int])))
            &&& ((s.stage is ConfirmingEncoder || s.stage is ReportingFailure || s.stage is ReportingCompletion)
                && input == InputView::Delivered(true) && t.next_job < s.job_ids.len()
                ==> a == ActionView::Emit(EventView::QueueCancelled(s.completed, s.failed)))
        }),
{
}

/// An event the user interface must receive that does not arrive ends the
/// queue with a request to cancel.
pub proof fn law_lost_event_cancels_queue(s: RunnerView)
    requires
        s.stage is Announcing || s.stage is ConfirmingEncoder || s.stage is ConfirmingProbe
            || s.stage is ConfirmingStart || s.stage is ReportingFailure || s.stage is ReportingCompletion,
    ensures
        spec_advance(s, InputView::Delivered(false), false).1 == ActionView::CancelAndStop,
        spec_advance(s, InputView::Delivered(false), true).1 == ActionView::CancelAndStop,
        spec_advance(s, InputView::Delivered(false), false).0.stage == StageView::Stopped,
{
}

/// Every job's outcome is reported before the queue moves on: the queue
/// enters the stage after a completed job only by reporting that job as
/// completed, and the stage after a failed job only by reporting it as failed;
/// it moves to the next job only from those stages.
pub proof fn law_outcome_reported_before_next_job(s: RunnerView, input: InputView, cancel_requested: bool)
    requires
        runner_inv(s),
    ensures
        ({
            let (t, a) = spec_advance(s, input, cancel_requested);
            let id = s.job_ids[s.next_job as int];
            &&& (t.next_job != s.next_job ==> (s.stage is ReportingFailure || s.stage is ReportingCompletion))
            &&& (t.stage is ReportingCompletion && !(s.stage is ReportingCompletion)
                ==> a == ActionView::Emit(EventView::JobCompleted(id)) && t.completed == s.completed + 1)
            &&& (t.stage is ReportingFailure && !(s.stage is ReportingFailure)
                ==> (exists|m: Seq<char>| a == ActionView::Emit(EventView::JobFailed(id, m))) && t.failed == s.failed + 1)
        }),
{
    let (t, a) = spec_advance(s, input, cancel_requested);
    if t.stage is ReportingFailure && !(s.stage is ReportingFailure) {
        let m = a->Emit_0->JobFailed_1;
        assert(a == ActionView::Emit(EventView::JobFailed(s.job_ids[s.next_job as int], m)));
    }
}

/// The encoder in use changes only when the queue's encoder is selected (to
/// that encoder), or when a GPU encoder fails on a job with no cancellation
/// requested (to libx264). Every other step keeps it; in particular a GPU
/// encoder that encodes a job successfully stays in use for the next one.
pub proof fn law_active_encoder_changes_only_on_selection_or_fallback(s: RunnerView, input: InputView, cancel_requested: bool)
    requires
        runner_inv(s),
    ensures
        ({
            let t = spec_advance(s, input, cancel_requested).0;
            t.active != s.active ==> {
                ||| (s.stage is Selecting && (input matches InputView::Selected(Ok((e, _))) && t.active == e))
                ||| (s.stage is Encoding && (input matches InputView::Encoded(Err(_))) && s.active != VideoEncoder::Software
                    && !cancel_requested && t.active == VideoEncoder::Software)
            }
        }),
        input matches InputView::Encoded(Ok(_)) ==> spec_advance(s, input, cancel_requested).0.active == s.active,
{
}

} // verus!
