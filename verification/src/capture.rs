//! The protocol of one camera session. A session opens a device, opens its
//! stream, for a capture pulls one frame, and releases the device. The
//! session decides; whoever drives it performs each action on the device and
//! reports what came of it. Once the device is open, every path to the end of
//! the session goes through its release.

use crate::devices::{
    classify_failure, failure, is_sentinel, label_index, no_camera_text, resolve_device,
};
use crate::error::{CaptureError, CaptureFailure};
use crate::frame::{encode_frame, frame_outcome, outcome_view, FrameView, RgbFrame};
use crate::text::{decimal, decimal_string};
use vstd::prelude::*;

verus! {

/// What a session is for.
#[derive(Debug, Clone, Copy, PartialEq, Eq, Structural)]
pub enum Goal {
    /// To see whether the device can be opened; no frame is taken.
    Probe,
    /// To take one frame.
    Capture,
}

/// How far a session has come.
#[derive(Debug, Clone, Copy, PartialEq, Eq, Structural)]
pub enum Phase {
    /// Nothing was asked of the device yet.
    Idle,
    /// The device is being opened.
    Opening,
    /// The device is open and its stream is being opened.
    Streaming,
    /// The stream is open and a frame is being pulled.
    Capturing,
    /// The release of the device was asked for.
    Closing,
    /// The session is over.
    Done,
}

/// What a session asks of the device.
#[derive(Debug, Clone, Copy, PartialEq, Eq, Structural)]
pub enum DeviceAction {
    /// Open the device with this index.
    Open(u32),
    /// Open the stream of the device.
    OpenStream,
    /// Pull one frame and decode it.
    PullFrame,
    /// Stop the stream and let the device go.
    Release,
}

/// What came of the action that a session asked for.
pub enum DeviceEvent {
    /// The session is to start.
    Start,
    /// The action was carried out.
    Succeeded,
    /// The device's backend failed; this holds its message.
    Failed(String),
    /// The frame that was pulled.
    Frame(RgbFrame),
    /// A frame was pulled and could not be decoded; this holds the
    /// decoder's message.
    Unreadable(String),
}

/// The model of a `DeviceEvent`.
pub enum EventView {
    Start,
    Succeeded,
    Failed(Seq<char>),
    Frame(FrameView),
    Unreadable(Seq<char>),
}

impl View for DeviceEvent {
    type V = EventView;

    open spec fn view(&self) -> EventView {
        match self {
            DeviceEvent::Start => EventView::Start,
            DeviceEvent::Succeeded => EventView::Succeeded,
            DeviceEvent::Failed(detail) => EventView::Failed(detail@),
            DeviceEvent::Frame(frame) => EventView::Frame(frame@),
            DeviceEvent::Unreadable(detail) => EventView::Unreadable(detail@),
        }
    }
}

/// What a session answers to an event: the next action, or its outcome.
pub enum Step {
    Perform(DeviceAction),
    Finished(Result<String, CaptureError>),
}

/// The model of a `Step`.
pub enum StepView {
    Perform(DeviceAction),
    Finished(Result<Seq<char>, CaptureFailure>),
}

impl View for Step {
    type V = StepView;

    open spec fn view(&self) -> StepView {
        match self {
            Step::Perform(action) => StepView::Perform(*action),
            Step::Finished(outcome) => StepView::Finished(outcome_view(*outcome)),
        }
    }
}

/// The model of a session. `pending` is the outcome that waits for the
/// release of the device.
pub struct SessionView {
    pub goal: Goal,
    pub device: u32,
    pub stamp: u64,
    pub phase: Phase,
    pub pending: Option<Result<Seq<char>, CaptureFailure>>,
}

/// One camera session.
pub struct CaptureSession {
    goal: Goal,
    device: u32,
    stamp: u64,
    phase: Phase,
    pending: Option<Result<String, CaptureError>>,
}

impl View for CaptureSession {
    type V = SessionView;

    closed spec fn view(&self) -> SessionView {
        SessionView {
            goal: self.goal,
            device: self.device,
            stamp: self.stamp,
            phase: self.phase,
            pending: match self.pending {
                Some(outcome) => Some(outcome_view(outcome)),
                None => None,
            },
        }
    }
}

/// The token that a probe hands out: `camera_<device>_<stamp>`.
pub open spec fn token(device: u32, stamp: u64) -> Seq<char> {
    "camera_"@ + decimal(device as nat) + "_"@ + decimal(stamp as nat)
}

/// The message for an event that the session did not wait for.
pub open spec fn out_of_order_text() -> Seq<char> {
    "Camera event out of order"@
}

/// What precedes the backend's message where the device cannot be opened.
pub open spec fn open_context(goal: Goal) -> Seq<char> {
    match goal {
        Goal::Probe => "Failed to initialize camera: "@,
        Goal::Capture => "Failed to create camera: "@,
    }
}

/// What precedes the backend's message where the stream cannot be opened.
pub open spec fn stream_context(goal: Goal) -> Seq<char> {
    match goal {
        Goal::Probe => "Failed to access camera: "@,
        Goal::Capture => "Failed to open camera stream: "@,
    }
}

/// What precedes the backend's message where no frame can be pulled.
pub open spec fn pull_context() -> Seq<char> {
    "Failed to capture frame: "@
}

/// What precedes the decoder's message where a frame cannot be decoded.
pub open spec fn decode_context() -> Seq<char> {
    "Failed to decode frame: "@
}

impl SessionView {
    /// A pending outcome is there while the release is under way, and only
    /// then.
    pub open spec fn wf(self) -> bool {
        self.pending is Some <==> self.phase == Phase::Closing
    }

    /// The device is open and its release was not asked for yet.
    pub open spec fn owes_release(self) -> bool {
        self.phase == Phase::Streaming || self.phase == Phase::Capturing
    }

    /// This session with another phase and pending outcome.
    pub open spec fn moved(
        self,
        phase: Phase,
        pending: Option<Result<Seq<char>, CaptureFailure>>,
    ) -> SessionView {
        SessionView { phase, pending, ..self }
    }

    /// The session is over, with `outcome`.
    pub open spec fn ends(
        self,
        after: SessionView,
        step: StepView,
        outcome: Result<Seq<char>, CaptureFailure>,
    ) -> bool {
        after == self.moved(Phase::Done, None) && step == StepView::Finished(outcome)
    }

    /// The release of the device is asked for, and `outcome` waits for it.
    pub open spec fn releases(
        self,
        after: SessionView,
        step: StepView,
        outcome: Result<Seq<char>, CaptureFailure>,
    ) -> bool {
        after == self.moved(Phase::Closing, Some(outcome)) && step == StepView::Perform(
            DeviceAction::Release,
        )
    }

    /// The session goes on to `phase` and asks for `action`.
    pub open spec fn proceeds(
        self,
        after: SessionView,
        step: StepView,
        phase: Phase,
        action: DeviceAction,
    ) -> bool {
        after == self.moved(phase, None) && step == StepView::Perform(action)
    }

    /// The session `self`, told of `event`, becomes `after` and answers
    /// `step`.
    pub open spec fn steps(self, event: EventView, after: SessionView, step: StepView) -> bool {
        let stray = Err::<Seq<char>, CaptureFailure>(CaptureFailure::Device(out_of_order_text()));
        match self.phase {
            Phase::Idle => match event {
                EventView::Start => self.proceeds(
                    after,
                    step,
                    Phase::Opening,
                    DeviceAction::Open(self.device),
                ),
                _ => self.ends(after, step, stray),
            },
            Phase::Opening => match event {
                EventView::Succeeded => self.proceeds(
                    after,
                    step,
                    Phase::Streaming,
                    DeviceAction::OpenStream,
                ),
                EventView::Failed(detail) => self.ends(
                    after,
                    step,
                    Err(failure(open_context(self.goal), detail)),
                ),
                _ => self.ends(after, step, stray),
            },
            Phase::Streaming => match event {
                EventView::Succeeded => match self.goal {
                    Goal::Probe => self.releases(after, step, Ok(token(self.device, self.stamp))),
                    Goal::Capture => self.proceeds(
                        after,
                        step,
                        Phase::Capturing,
                        DeviceAction::PullFrame,
                    ),
                },
                EventView::Failed(detail) => self.releases(
                    after,
                    step,
                    Err(failure(stream_context(self.goal), detail)),
                ),
                _ => self.releases(after, step, stray),
            },
            Phase::Capturing => match event {
                EventView::Frame(frame) => exists|outcome: Result<Seq<char>, CaptureFailure>|
                    frame_outcome(frame, outcome) && self.releases(after, step, outcome),
                EventView::Failed(detail) => self.releases(
                    after,
                    step,
                    Err(failure(pull_context(), detail)),
                ),
                EventView::Unreadable(detail) => self.releases(
                    after,
                    step,
                    Err(failure(decode_context(), detail)),
                ),
                _ => self.releases(after, step, stray),
            },
            Phase::Closing => match self.pending {
                Some(outcome) => self.ends(after, step, outcome),
                None => self.ends(after, step, stray),
            },
            Phase::Done => self.ends(after, step, stray),
        }
    }

    /// How far a phase is from the start of a session.
    pub open spec fn progress(self) -> nat {
        match self.phase {
            Phase::Idle => 0,
            Phase::Opening => 1,
            Phase::Streaming => 2,
            Phase::Capturing => 3,
            Phase::Closing => 4,
            Phase::Done => 5,
        }
    }

    /// A device that was opened is released before the session ends,
    /// whatever happens in between. A session comes to owe the release only
    /// by opening the device. While it owes the release, every event either
    /// leaves it owing or makes it ask for the release; a failure makes it
    /// ask at once and keeps the failure as the outcome. And no session ends
    /// while it owes the release.
    pub proof fn lemma_device_is_released(
        self,
        event: EventView,
        after: SessionView,
        step: StepView,
    )
        requires
            self.wf(),
            self.steps(event, after, step),
        ensures
            after.wf(),
            !self.owes_release() && after.owes_release() ==> self.phase == Phase::Opening
                && event == EventView::Succeeded,
            self.owes_release() ==> after.owes_release() || (step == StepView::Perform(
                DeviceAction::Release,
            ) && after.phase == Phase::Closing),
            self.owes_release() && (event is Failed || event is Unreadable) ==> step
                == StepView::Perform(DeviceAction::Release) && after.pending is Some
                && after.pending->0 is Err,
            after.phase == Phase::Done ==> !self.owes_release(),
            step is Finished <==> after.phase == Phase::Done,
    {
    }

    /// Every event takes a session forward, so a session is over after five
    /// events at most; a session that is over stays so.
    pub proof fn lemma_session_advances(self, event: EventView, after: SessionView, step: StepView)
        requires
            self.wf(),
            self.steps(event, after, step),
        ensures
            self.phase != Phase::Done ==> after.progress() > self.progress(),
            self.phase == Phase::Done ==> after.phase == Phase::Done,
    {
    }
}

/// A run of a session: it begins well-formed, and each event takes it from
/// one state to the next and is answered by the step at the same place.
pub open spec fn is_run(
    states: Seq<SessionView>,
    events: Seq<EventView>,
    steps: Seq<StepView>,
) -> bool {
    &&& states.len() == events.len() + 1
    &&& steps.len() == events.len()
    &&& states[0].wf()
    &&& forall|i: int|
        0 <= i < events.len() ==> (#[trigger] states[i]).steps(events[i], states[i + 1], steps[i])
}

/// Every state of a run is well-formed.
pub proof fn lemma_run_is_well_formed(
    states: Seq<SessionView>,
    events: Seq<EventView>,
    steps: Seq<StepView>,
    at: int,
)
    requires
        is_run(states, events, steps),
        0 <= at < states.len(),
    ensures
        states[at].wf(),
    decreases at,
{
    if at > 0 {
        lemma_run_is_well_formed(states, events, steps, at - 1);
        states[at - 1].lemma_device_is_released(events[at - 1], states[at], steps[at - 1]);
    }
}

/// In a run that ends with the session over, a state in which the device is
/// open is followed by the request to release it: whatever the events in
/// between, failures of the device among them, no run ends with the device
/// left open.
pub proof fn lemma_run_releases_device(
    states: Seq<SessionView>,
    events: Seq<EventView>,
    steps: Seq<StepView>,
    opened: int,
)
    requires
        is_run(states, events, steps),
        0 <= opened < states.len(),
        states[opened].owes_release(),
        states.last().phase == Phase::Done,
    ensures
        exists|j: int|
            opened <= j < steps.len() && #[trigger] steps[j] == StepView::Perform(
                DeviceAction::Release,
            ),
    decreases states.len() - opened,
{
    lemma_run_is_well_formed(states, events, steps, opened);
    states[opened].lemma_device_is_released(events[opened], states[opened + 1], steps[opened]);
    if states[opened + 1].owes_release() {
        lemma_run_releases_device(states, events, steps, opened + 1);
    } else {
        assert(steps[opened] == StepView::Perform(DeviceAction::Release));
    }
}

impl CaptureSession {
    /// A session that has not started. `stamp` is the time in seconds that
    /// the token of a probe is to carry.
    pub fn new(goal: Goal, device: u32, stamp: u64) -> (session: CaptureSession)
        ensures
            session@ == (SessionView { goal, device, stamp, phase: Phase::Idle, pending: None }),
            session@.wf(),
    {
        CaptureSession { goal, device, stamp, phase: Phase::Idle, pending: None }
    }

    /// A session for the device that the label `text` picks; refused where
    /// the label stands for no device.
    pub fn for_label(
        goal: Goal,
        text: &str,
        stamp: u64,
    ) -> (made: Result<CaptureSession, CaptureError>)
        ensures
            match made {
                Ok(session) => !is_sentinel(text@) && session@ == (SessionView {
                    goal,
                    device: label_index(text@),
                    stamp,
                    phase: Phase::Idle,
                    pending: None,
                }) && session@.wf(),
                Err(error) => is_sentinel(text@) && error@ == CaptureFailure::Device(
                    no_camera_text(),
                ),
            },
    {
        match resolve_device(text) {
            Ok(device) => Ok(CaptureSession::new(goal, device, stamp)),
            Err(error) => Err(error),
        }
    }

    /// How far this session has come.
    pub fn phase(&self) -> (phase: Phase)
        ensures
            phase == self@.phase,
    {
        self.phase
    }

    /// What this session is for.
    pub fn goal(&self) -> (goal: Goal)
        ensures
            goal == self@.goal,
    {
        self.goal
    }

    /// The index of the device of this session.
    pub fn device(&self) -> (device: u32)
        ensures
            device == self@.device,
    {
        self.device
    }

    /// Whether this session is over.
    pub fn is_done(&self) -> (done: bool)
        ensures
            done == (self@.phase == Phase::Done),
    {
        match self.phase {
            Phase::Done => true,
            _ => false,
        }
    }

    /// The token of a probe of this session's device.
    fn make_token(&self) -> (text: String)
        ensures
            text@ == token(self.device, self.stamp),
    {
        let mut text = String::from_str("camera_");
        let device = decimal_string(self.device as u64);
        text.append(device.as_str());
        text.append("_");
        let stamp = decimal_string(self.stamp);
        text.append(stamp.as_str());
        text
    }

    /// Tells the session what came of the action it asked for, or that it is
    /// to start, and gets the next action or the outcome.
    pub fn advance(&mut self, event: DeviceEvent) -> (step: Step)
        ensures
            old(self)@.steps(event@, final(self)@, step@),
            old(self)@.wf() ==> final(self)@.wf(),
    {
        let mut waiting: Option<Result<String, CaptureError>> = None;
        core::mem::swap(&mut self.pending, &mut waiting);
        let ghost before = old(self)@;
        let stray: Result<String, CaptureError> = Err(
            CaptureError::Device(String::from_str("Camera event out of order")),
        );
        match self.phase {
            Phase::Idle => match event {
                DeviceEvent::Start => {
                    self.phase = Phase::Opening;
                    Step::Perform(DeviceAction::Open(self.device))
                },
                _ => {
                    self.phase = Phase::Done;
                    Step::Finished(stray)
                },
            },
            Phase::Opening => match event {
                DeviceEvent::Succeeded => {
                    self.phase = Phase::Streaming;
                    Step::Perform(DeviceAction::OpenStream)
                },
                DeviceEvent::Failed(detail) => {
                    let context = match self.goal {
                        Goal::Probe => "Failed to initialize camera: ",
                        Goal::Capture => "Failed to create camera: ",
                    };
                    self.phase = Phase::Done;
                    Step::Finished(Err(classify_failure(context, detail.as_str())))
                },
                _ => {
                    self.phase = Phase::Done;
                    Step::Finished(stray)
                },
            },
            Phase::Streaming => {
                let outcome: Option<Result<String, CaptureError>> = match event {
                    DeviceEvent::Succeeded => match self.goal {
                        Goal::Probe => Some(Ok(self.make_token())),
                        Goal::Capture => None,
                    },
                    DeviceEvent::Failed(detail) => {
                        let context = match self.goal {
                            Goal::Probe => "Failed to access camera: ",
                            Goal::Capture => "Failed to open camera stream: ",
                        };
                        Some(Err(classify_failure(context, detail.as_str())))
                    },
                    _ => Some(stray),
                };
                match outcome {
                    Some(outcome) => {
                        self.release_with(outcome)
                    },
                    None => {
                        self.phase = Phase::Capturing;
                        Step::Perform(DeviceAction::PullFrame)
                    },
                }
            },
            Phase::Capturing => {
                let ghost frame_seen = event@;
                let outcome: Result<String, CaptureError> = match event {
                    DeviceEvent::Frame(frame) => encode_frame(frame),
                    DeviceEvent::Failed(detail) => Err(
                        classify_failure("Failed to capture frame: ", detail.as_str()),
                    ),
                    DeviceEvent::Unreadable(detail) => Err(
                        classify_failure("Failed to decode frame: ", detail.as_str()),
                    ),
                    _ => stray,
                };
                let step = self.release_with(outcome);
                proof {
                    if let EventView::Frame(frame) = frame_seen {
                        let kept = outcome_view(outcome);
                        assert(frame_outcome(frame, kept) && before.releases(self@, step@, kept));
                    }
                }
                step
            },
            Phase::Closing => {
                self.phase = Phase::Done;
                match waiting {
                    Some(outcome) => Step::Finished(outcome),
                    None => Step::Finished(stray),
                }
            },
            Phase::Done => Step::Finished(stray),
        }
    }

    /// Keeps `outcome` until the device is released, and asks for the
    /// release.
    fn release_with(&mut self, outcome: Result<String, CaptureError>) -> (step: Step)
        requires
            old(self).pending is None,
        ensures
            final(self).goal == old(self).goal,
            final(self).device == old(self).device,
            final(self).stamp == old(self).stamp,
            final(self).phase == Phase::Closing,
            final(self).pending == Some(outcome),
            step == Step::Perform(DeviceAction::Release),
    {
        let mut waiting: Option<Result<String, CaptureError>> = Some(outcome);
        self.phase = Phase::Closing;
        core::mem::swap(&mut self.pending, &mut waiting);
        Step::Perform(DeviceAction::Release)
    }
}

} // verus!
