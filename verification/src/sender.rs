//! A connected session as its sender sees it: signaling, the viewer's requests,
//! and a capture that ends and starts again.
use crate::failure::Failure;
use crate::model;
use crate::model::{Display, DisplayId, DisplayView, StartedDesktop, StartedView};
use crate::profile;
use crate::profile::{
    active_profile, profile_candidates, video_format, ChromaMode, VideoFormat, VideoProfile,
};
use crate::text::{joined, push_str};
use vstd::prelude::*;

verus! {

/// How long a failed start waits for its next attempt.
pub const DESKTOP_RETRY_MS: u64 = 250;

/// What comes from the viewer, decoded.
#[derive(Debug)]
pub enum ViewerMessage {
    RequestKeyframe,
    SetBitrate(u32),
    /// What the viewer decodes, the bitrate that its quality preset means, and
    /// the chroma it wants.
    Capabilities { profiles: Vec<VideoProfile>, bitrate: u32, chroma: ChromaMode },
    SetQuality { bitrate: u32 },
    SetChroma(ChromaMode),
    ProfileRejected(VideoProfile),
    SelectDisplay(DisplayId),
    Input,
    Clipboard,
    Stop,
    /// The channel itself closed.
    ChannelClosed,
    Other,
}

/// Where a message of the viewer goes.
#[derive(Debug, Clone, Copy, PartialEq, Eq, Structural)]
pub enum MessageRoute {
    /// To the session's own loop.
    Session,
    /// To the session's loop, and the decoder is known to be ready.
    SessionDecoderReady,
    /// Straight to the input helper.
    Input,
    Discard,
}

pub fn route_message(message: &ViewerMessage) -> (route: MessageRoute)
    ensures
        route == (match *message {
            ViewerMessage::RequestKeyframe => MessageRoute::SessionDecoderReady,
            ViewerMessage::Input => MessageRoute::Input,
            ViewerMessage::Other => MessageRoute::Discard,
            _ => MessageRoute::Session,
        }),
{
    match message {
        ViewerMessage::RequestKeyframe => MessageRoute::SessionDecoderReady,
        ViewerMessage::Input => MessageRoute::Input,
        ViewerMessage::Other => MessageRoute::Discard,
        _ => MessageRoute::Session,
    }
}

/// How far a session has come.
#[derive(Debug, Clone, Copy, PartialEq, Eq, Structural)]
pub enum SessionState {
    Idle,
    Requested,
    Signaling,
    Connecting,
    Streaming,
    Closing,
}

/// The states of the connection to the viewer.
#[derive(Debug, Clone, Copy, PartialEq, Eq, Structural)]
pub enum PeerState {
    Unspecified,
    New,
    Connecting,
    Connected,
    Disconnected,
    Failed,
    Closed,
}

/// A way to reach an end of the connection, as signaling carries it.
#[derive(Debug, Clone, PartialEq, Eq)]
pub struct Candidate {
    pub candidate: String,
    pub sdp_mid: Option<String>,
    pub sdp_mline_index: Option<u16>,
    pub username_fragment: Option<String>,
}

/// What arrives over signaling.
#[derive(Debug)]
pub enum Signal {
    Ready,
    /// The viewer's description of itself.
    Answer(String),
    Candidate(Candidate),
    PeerLeft,
    Error(String),
    Ping(Vec<u8>),
    /// The other side closed the connection.
    Closed,
    /// The connection is gone.
    Lost,
    Other,
}

/// What a signal leads to.
#[derive(Debug)]
pub enum SignalAction {
    Nothing,
    SendOffer,
    /// Take the answer, then the candidates that were held for it, in order.
    AcceptAnswer(String, Vec<Candidate>),
    AddCandidate(Candidate),
    /// Answer a ping with what it carries.
    Pong(Vec<u8>),
    /// The session is over.
    Finish,
    /// The session is over, with the error that the signal carries.
    Fail(String),
    /// The session is over because signaling is; see `SenderFailure`.
    FailSignaling,
}

pub enum SignalActionView {
    Nothing,
    SendOffer,
    AcceptAnswer(Seq<char>, Seq<Candidate>),
    AddCandidate(Candidate),
    Pong(Seq<u8>),
    Finish,
    Fail(Seq<char>),
    FailSignaling,
}

impl View for SignalAction {
    type V = SignalActionView;

    open spec fn view(&self) -> SignalActionView {
        match *self {
            SignalAction::Nothing => SignalActionView::Nothing,
            SignalAction::SendOffer => SignalActionView::SendOffer,
            SignalAction::AcceptAnswer(answer, held) => SignalActionView::AcceptAnswer(
                answer@,
                held@,
            ),
            SignalAction::AddCandidate(candidate) => SignalActionView::AddCandidate(candidate),
            SignalAction::Pong(payload) => SignalActionView::Pong(payload@),
            SignalAction::Finish => SignalActionView::Finish,
            SignalAction::Fail(message) => SignalActionView::Fail(message@),
            SignalAction::FailSignaling => SignalActionView::FailSignaling,
        }
    }
}

/// The state of signaling: one offer, and no candidate before an answer.
#[derive(Debug)]
pub struct Signaling {
    pub offer_sent: bool,
    pub answered: bool,
    /// The candidates that wait for the answer.
    pub held: Vec<Candidate>,
}

pub struct SignalingView {
    pub offer_sent: bool,
    pub answered: bool,
    pub held: Seq<Candidate>,
}

impl View for Signaling {
    type V = SignalingView;

    open spec fn view(&self) -> SignalingView {
        SignalingView {
            offer_sent: self.offer_sent,
            answered: self.answered,
            held: self.held@,
        }
    }
}

impl SignalingView {
    /// Nothing is held once there is an answer.
    pub open spec fn valid(self) -> bool {
        self.answered ==> self.held.len() == 0
    }

    pub open spec fn action(self, signal: Signal) -> SignalActionView {
        match signal {
            Signal::Ready => if self.offer_sent {
                SignalActionView::Nothing
            } else {
                SignalActionView::SendOffer
            },
            Signal::Answer(answer) => SignalActionView::AcceptAnswer(answer@, self.held),
            Signal::Candidate(candidate) => if self.answered {
                SignalActionView::AddCandidate(candidate)
            } else {
                SignalActionView::Nothing
            },
            Signal::Ping(payload) => SignalActionView::Pong(payload@),
            Signal::PeerLeft => SignalActionView::Finish,
            Signal::Closed => SignalActionView::Finish,
            Signal::Error(message) => SignalActionView::Fail(message@),
            Signal::Lost => SignalActionView::FailSignaling,
            Signal::Other => SignalActionView::Nothing,
        }
    }

    pub open spec fn after(self, signal: Signal) -> SignalingView {
        SignalingView {
            offer_sent: self.offer_sent || signal is Ready,
            answered: self.answered || signal is Answer,
            held: match signal {
                Signal::Answer(_) => seq![],
                Signal::Candidate(candidate) => if self.answered {
                    self.held
                } else {
                    self.held.push(candidate)
                },
                _ => self.held,
            },
        }
    }
}

impl Signaling {
    pub fn new() -> (signaling: Self)
        ensures
            signaling@ == (SignalingView { offer_sent: false, answered: false, held: seq![] }),
            signaling@.valid(),
    {
        Signaling { offer_sent: false, answered: false, held: Vec::new() }
    }

    pub fn step(&mut self, signal: Signal) -> (action: SignalAction)
        ensures
            action@ == old(self)@.action(signal),
            final(self)@ == old(self)@.after(signal),
    {
        match signal {
            Signal::Ready => {
                if self.offer_sent {
                    SignalAction::Nothing
                } else {
                    self.offer_sent = true;
                    SignalAction::SendOffer
                }
            },
            Signal::Answer(answer) => {
                self.answered = true;
                let mut held: Vec<Candidate> = Vec::new();
                std::mem::swap(&mut held, &mut self.held);
                SignalAction::AcceptAnswer(answer, held)
            },
            Signal::Candidate(candidate) => if self.answered {
                SignalAction::AddCandidate(candidate)
            } else {
                self.held.push(candidate);
                SignalAction::Nothing
            },
            Signal::Ping(payload) => SignalAction::Pong(payload),
            Signal::PeerLeft => SignalAction::Finish,
            Signal::Closed => SignalAction::Finish,
            Signal::Error(message) => SignalAction::Fail(message),
            Signal::Lost => SignalAction::FailSignaling,
            Signal::Other => SignalAction::Nothing,
        }
    }
}

pub open spec fn signaling_after(state: SignalingView, signals: Seq<Signal>) -> SignalingView
    decreases signals.len(),
{
    if signals.len() == 0 {
        state
    } else {
        signaling_after(state, signals.drop_last()).after(signals.last())
    }
}

/// However often the viewer says it is ready, it gets one offer.
pub proof fn one_offer_per_session(
    state: SignalingView,
    signals: Seq<Signal>,
    first: int,
    second: int,
)
    requires
        0 <= first < second < signals.len(),
        signals[first] is Ready,
        signals[second] is Ready,
    ensures
        signaling_after(state, signals.take(second)).action(signals[second])
            == SignalActionView::Nothing,
{
    lemma_offer_sent(state, signals.take(second), first);
}

proof fn lemma_offer_sent(state: SignalingView, signals: Seq<Signal>, ready: int)
    requires
        0 <= ready < signals.len(),
        signals[ready] is Ready,
    ensures
        signaling_after(state, signals).offer_sent,
    decreases signals.len(),
{
    if ready < signals.len() - 1 {
        lemma_offer_sent(state, signals.drop_last(), ready);
    }
}

/// The candidates that signals bring.
pub open spec fn candidates_in(signals: Seq<Signal>) -> Seq<Candidate>
    decreases signals.len(),
{
    if signals.len() == 0 {
        seq![]
    } else {
        match signals.last() {
            Signal::Candidate(candidate) => candidates_in(signals.drop_last()).push(candidate),
            _ => candidates_in(signals.drop_last()),
        }
    }
}

/// The candidates that an action hands to the connection.
pub open spec fn handed(action: SignalActionView) -> Seq<Candidate> {
    match action {
        SignalActionView::AcceptAnswer(_, held) => held,
        SignalActionView::AddCandidate(candidate) => seq![candidate],
        _ => seq![],
    }
}

/// The candidates that signals hand to the connection.
pub open spec fn all_handed(state: SignalingView, signals: Seq<Signal>) -> Seq<Candidate>
    decreases signals.len(),
{
    if signals.len() == 0 {
        seq![]
    } else {
        all_handed(state, signals.drop_last()) + handed(
            signaling_after(state, signals.drop_last()).action(signals.last()),
        )
    }
}

/// No candidate is lost, repeated or overtaken: those that were handed over and
/// those still held are all that came, in the order in which they came, and once
/// there is an answer none is held.
pub proof fn candidates_reach_the_connection_in_order(state: SignalingView, signals: Seq<Signal>)
    requires
        state.valid(),
    ensures
        all_handed(state, signals) + signaling_after(state, signals).held == state.held
            + candidates_in(signals),
        signaling_after(state, signals).valid(),
    decreases signals.len(),
{
    if signals.len() > 0 {
        let earlier = signals.drop_last();
        let before = signaling_after(state, earlier);
        candidates_reach_the_connection_in_order(state, earlier);
        let whole = state.held + candidates_in(earlier);
        match signals.last() {
            Signal::Candidate(candidate) => {
                assert(all_handed(state, signals) + signaling_after(state, signals).held
                    =~= (all_handed(state, earlier) + before.held).push(candidate));
                assert(whole.push(candidate) =~= state.held + candidates_in(signals));
            },
            _ => {
                assert(all_handed(state, signals) + signaling_after(state, signals).held
                    =~= all_handed(state, earlier) + before.held);
            },
        }
    }
}

/// A capture that is to be started.
#[derive(Debug)]
pub struct Restart {
    /// The running capture is stopped first.
    pub stop: bool,
    /// Frames of the old stream are forgotten first.
    pub clear: bool,
    pub display: DisplayId,
    pub stream_id: u32,
    /// The profiles to try, in order.
    pub candidates: Vec<VideoProfile>,
    /// The session ends if none of them starts; otherwise it waits.
    pub required: bool,
}

pub struct RestartView {
    pub stop: bool,
    pub clear: bool,
    pub display: DisplayId,
    pub stream_id: u32,
    pub candidates: Seq<VideoProfile>,
    pub required: bool,
}

impl View for Restart {
    type V = RestartView;

    open spec fn view(&self) -> RestartView {
        RestartView {
            stop: self.stop,
            clear: self.clear,
            display: self.display,
            stream_id: self.stream_id,
            candidates: self.candidates@,
            required: self.required,
        }
    }
}

/// What a message of the viewer leads to.
#[derive(Debug)]
pub enum SenderAction {
    Nothing,
    RequestKeyframe,
    /// Set a running encoder's bitrate.
    AdaptBitrate(u32),
    /// Set the bitrate that a quality preset means.
    ApplyQuality(u32),
    /// Set the bitrate that a quality preset means, then restart.
    ApplyQualityAndRestart(u32, Restart),
    Restart(Restart),
    ForwardClipboard,
    Finish,
    /// The session ends because its control channel closed.
    ChannelClosed,
}

pub enum ActionView {
    Nothing,
    RequestKeyframe,
    AdaptBitrate(u32),
    ApplyQuality(u32),
    ApplyQualityAndRestart(u32, RestartView),
    Restart(RestartView),
    ForwardClipboard,
    Finish,
    ChannelClosed,
}

impl View for SenderAction {
    type V = ActionView;

    open spec fn view(&self) -> ActionView {
        match *self {
            SenderAction::Nothing => ActionView::Nothing,
            SenderAction::RequestKeyframe => ActionView::RequestKeyframe,
            SenderAction::AdaptBitrate(bits) => ActionView::AdaptBitrate(bits),
            SenderAction::ApplyQuality(bits) => ActionView::ApplyQuality(bits),
            SenderAction::ApplyQualityAndRestart(bits, restart) =>
                ActionView::ApplyQualityAndRestart(bits, restart@),
            SenderAction::Restart(restart) => ActionView::Restart(restart@),
            SenderAction::ForwardClipboard => ActionView::ForwardClipboard,
            SenderAction::Finish => ActionView::Finish,
            SenderAction::ChannelClosed => ActionView::ChannelClosed,
        }
    }
}

/// What a session streams, and what it would.
#[derive(Debug)]
pub struct Sender {
    pub displays: Vec<DisplayId>,
    pub active_display: DisplayId,
    pub active_profile: VideoProfile,
    pub viewer_profiles: Vec<VideoProfile>,
    pub requested_chroma: ChromaMode,
    pub rejected: Vec<VideoProfile>,
    pub quality_ceiling: u32,
    pub capture_running: bool,
    pub stream_id: u32,
    pub unavailable_since_ms: Option<u64>,
    pub retry_after_ms: u64,
    pub state: SessionState,
}

pub struct SenderView {
    pub displays: Seq<DisplayId>,
    pub active_display: DisplayId,
    pub active_profile: VideoProfile,
    pub viewer_profiles: Seq<VideoProfile>,
    pub requested_chroma: ChromaMode,
    pub rejected: Seq<VideoProfile>,
    pub quality_ceiling: u32,
    pub capture_running: bool,
    pub stream_id: u32,
    pub unavailable_since_ms: Option<u64>,
    pub retry_after_ms: u64,
    pub state: SessionState,
}

impl View for Sender {
    type V = SenderView;

    open spec fn view(&self) -> SenderView {
        SenderView {
            displays: self.displays@,
            active_display: self.active_display,
            active_profile: self.active_profile,
            viewer_profiles: self.viewer_profiles@,
            requested_chroma: self.requested_chroma,
            rejected: self.rejected@,
            quality_ceiling: self.quality_ceiling,
            capture_running: self.capture_running,
            stream_id: self.stream_id,
            unavailable_since_ms: self.unavailable_since_ms,
            retry_after_ms: self.retry_after_ms,
            state: self.state,
        }
    }
}

/// The id of the next stream; 0 is never one.
pub open spec fn next_stream(stream_id: u32) -> u32 {
    if stream_id == u32::MAX {
        1
    } else {
        (stream_id + 1) as u32
    }
}

fn following_stream(stream_id: u32) -> (next: u32)
    ensures
        next == next_stream(stream_id),
{
    if stream_id == 0xffff_ffff {
        1
    } else {
        stream_id + 1
    }
}

/// Every restart has a stream of its own, so that frames of the old one are
/// told apart.
pub proof fn streams_differ(stream_id: u32)
    ensures
        next_stream(stream_id) != stream_id,
        next_stream(stream_id) > 0,
        stream_id < u32::MAX ==> next_stream(stream_id) == stream_id + 1,
        next_stream(u32::MAX) == 1,
{
}

impl SenderView {
    pub open spec fn candidates(self) -> Seq<VideoProfile> {
        profile::candidates(self.viewer_profiles, self.requested_chroma, self.rejected)
    }

    /// Whether the profile that runs is the one that would be tried first.
    pub open spec fn settled(self) -> bool {
        self.candidates().len() > 0 && self.candidates()[0] == self.active_profile
    }

    /// The state once a restart is under way.
    pub open spec fn restarting(self) -> SenderView {
        SenderView { capture_running: false, stream_id: next_stream(self.stream_id), ..self }
    }

    pub open spec fn restart(self, display: DisplayId, required: bool) -> RestartView {
        RestartView {
            stop: true,
            clear: true,
            display,
            stream_id: next_stream(self.stream_id),
            candidates: self.candidates(),
            required,
        }
    }

    /// The effect of a message of the viewer.
    pub open spec fn handled(self, message: ViewerMessage, now_ms: u64) -> (SenderView, ActionView) {
        match message {
            ViewerMessage::RequestKeyframe => (self, ActionView::RequestKeyframe),
            ViewerMessage::SetBitrate(bits) => (self, ActionView::AdaptBitrate(bits)),
            ViewerMessage::SetQuality { bitrate } => (
                SenderView { quality_ceiling: bitrate, ..self },
                ActionView::ApplyQuality(bitrate),
            ),
            ViewerMessage::Capabilities { profiles, bitrate, chroma } => {
                let told = SenderView {
                    quality_ceiling: bitrate,
                    viewer_profiles: profiles@,
                    requested_chroma: chroma,
                    rejected: seq![],
                    ..self
                };
                if told.settled() {
                    (told, ActionView::ApplyQuality(bitrate))
                } else {
                    (
                        told.restarting(),
                        ActionView::ApplyQualityAndRestart(
                            bitrate,
                            told.restart(told.active_display, true),
                        ),
                    )
                }
            },
            ViewerMessage::SetChroma(chroma) => {
                let told = SenderView { requested_chroma: chroma, rejected: seq![], ..self };
                if told.settled() {
                    (told, ActionView::Nothing)
                } else {
                    (
                        told.restarting(),
                        ActionView::Restart(told.restart(told.active_display, true)),
                    )
                }
            },
            ViewerMessage::ProfileRejected(rejected) => if rejected != self.active_profile {
                (self, ActionView::Nothing)
            } else {
                let told = SenderView { rejected: self.rejected.push(rejected), ..self };
                (
                    told.restarting(),
                    ActionView::Restart(told.restart(told.active_display, true)),
                )
            },
            ViewerMessage::SelectDisplay(id) => if (id == self.active_display
                && self.capture_running) || !self.displays.contains(id) {
                (self, ActionView::Nothing)
            } else {
                (
                    SenderView { unavailable_since_ms: Some(now_ms), ..self.restarting() },
                    ActionView::Restart(self.restart(id, false)),
                )
            },
            ViewerMessage::Clipboard => (self, ActionView::ForwardClipboard),
            ViewerMessage::Stop => (self, ActionView::Finish),
            ViewerMessage::ChannelClosed => (self, ActionView::ChannelClosed),
            ViewerMessage::Input => (self, ActionView::Nothing),
            ViewerMessage::Other => (self, ActionView::Nothing),
        }
    }

    /// The effect of a look at the desktop; `ended` is whether the capture has.
    pub open spec fn looked(self, ended: bool, now_ms: u64) -> (SenderView, Option<RestartView>) {
        let over = self.capture_running && ended;
        let after = if over {
            SenderView {
                unavailable_since_ms: Some(now_ms),
                retry_after_ms: now_ms,
                ..self.restarting()
            }
        } else {
            self
        };
        if !after.capture_running && now_ms >= after.retry_after_ms {
            (
                after,
                Some(
                    RestartView {
                        stop: false,
                        clear: over,
                        display: after.active_display,
                        stream_id: after.stream_id,
                        candidates: after.candidates(),
                        required: false,
                    },
                ),
            )
        } else {
            (after, None)
        }
    }

    /// The state after a restart that worked.
    pub open spec fn started(self, started: StartedView) -> SenderView {
        SenderView {
            displays: display_ids(started.displays),
            active_display: started.active_display.id,
            active_profile: profile::profile_of(started.format),
            capture_running: true,
            unavailable_since_ms: None,
            ..self
        }
    }

    /// The state after a restart that did not work but may be tried again.
    pub open spec fn waiting(self, display: DisplayId, now_ms: u64) -> SenderView {
        SenderView {
            active_display: display,
            retry_after_ms: (now_ms + DESKTOP_RETRY_MS) as u64,
            ..self
        }
    }
}

/// What the viewer is told of a stream.
#[derive(Debug)]
pub struct Configuration {
    pub displays: Vec<Display>,
    pub active_display: DisplayId,
    pub stream_id: u32,
    pub format: VideoFormat,
}

pub struct ConfigurationView {
    pub displays: Seq<DisplayView>,
    pub active_display: DisplayId,
    pub stream_id: u32,
    pub format: VideoFormat,
}

impl View for Configuration {
    type V = ConfigurationView;

    open spec fn view(&self) -> ConfigurationView {
        ConfigurationView {
            displays: model::display_views(self.displays@),
            active_display: self.active_display,
            stream_id: self.stream_id,
            format: self.format,
        }
    }
}

/// What the viewer is told of a capture that has started.
pub open spec fn configuration_of(started: StartedView, stream_id: u32) -> ConfigurationView {
    ConfigurationView {
        displays: started.displays,
        active_display: started.active_display.id,
        stream_id,
        format: profile::format_of(started.format),
    }
}

pub open spec fn display_ids(displays: Seq<DisplayView>) -> Seq<DisplayId> {
    displays.map_values(|display: DisplayView| display.id)
}

fn ids_of(displays: &Vec<Display>) -> (ids: Vec<DisplayId>)
    ensures
        ids@ == display_ids(model::display_views(displays@)),
{
    let ghost views = model::display_views(displays@);
    let mut ids: Vec<DisplayId> = Vec::new();
    let mut next: usize = 0;
    while next < displays.len()
        invariant
            next <= displays@.len(),
            views == model::display_views(displays@),
            ids@ =~= display_ids(views).take(next as int),
        decreases displays@.len() - next,
    {
        ids.push(displays[next].id);
        assert(views[next as int] == displays@[next as int]@);
        next += 1;
    }
    ids
}

/// What follows a restart.
#[derive(Debug)]
pub enum RestartResult {
    /// The viewer is told the new configuration and, again, the cursor.
    Announce(Configuration),
    /// Nothing started; another attempt is made later.
    Wait,
    /// Nothing started; the session ends.
    Fail,
}

pub enum RestartResultView {
    Announce(ConfigurationView),
    Wait,
    Fail,
}

impl View for RestartResult {
    type V = RestartResultView;

    open spec fn view(&self) -> RestartResultView {
        match *self {
            RestartResult::Announce(configuration) => RestartResultView::Announce(configuration@),
            RestartResult::Wait => RestartResultView::Wait,
            RestartResult::Fail => RestartResultView::Fail,
        }
    }
}

impl Sender {
    /// A session whose first capture has started, and what the viewer, who is
    /// waited for, is told of it first. The format's bitrate is the most that the
    /// session may take.
    pub fn new(started: StartedDesktop, now_ms: u64) -> (result: (Self, Configuration))
        ensures
            result.0@ == (SenderView {
                displays: display_ids(started@.displays),
                active_display: started@.active_display.id,
                active_profile: profile::profile_of(started@.format),
                viewer_profiles: seq![profile::profile_of(started@.format)],
                requested_chroma: ChromaMode::Yuv420,
                rejected: seq![],
                quality_ceiling: started@.format.bitrate_bits_per_second,
                capture_running: true,
                stream_id: 1,
                unavailable_since_ms: None,
                retry_after_ms: now_ms,
                state: SessionState::Connecting,
            }),
            result.1@ == configuration_of(started@, 1),
    {
        let profile = active_profile(&started.format);
        let mut viewer_profiles: Vec<VideoProfile> = Vec::new();
        viewer_profiles.push(profile);
        assert(viewer_profiles@ =~= seq![profile]);
        let active_display = started.active_display.id;
        let sender = Sender {
            displays: ids_of(&started.displays),
            active_display,
            active_profile: profile,
            viewer_profiles,
            requested_chroma: ChromaMode::Yuv420,
            rejected: Vec::new(),
            quality_ceiling: started.format.bitrate_bits_per_second,
            capture_running: true,
            stream_id: 1,
            unavailable_since_ms: None,
            retry_after_ms: now_ms,
            state: SessionState::Connecting,
        };
        let format = video_format(&started.format);
        (sender, Configuration { displays: started.displays, active_display, stream_id: 1, format })
    }

    fn candidates(&self) -> (found: Vec<VideoProfile>)
        ensures
            found@ == self@.candidates(),
    {
        profile_candidates(
            self.viewer_profiles.as_slice(),
            self.requested_chroma,
            self.rejected.as_slice(),
        )
    }

    fn begin_restart(&mut self, display: DisplayId, required: bool, candidates: Vec<VideoProfile>) -> (
    restart: Restart)
        requires
            candidates@ == old(self)@.candidates(),
        ensures
            final(self)@ == old(self)@.restarting(),
            restart@ == old(self)@.restart(display, required),
    {
        self.capture_running = false;
        self.stream_id = following_stream(self.stream_id);
        Restart {
            stop: true,
            clear: true,
            display,
            stream_id: self.stream_id,
            candidates,
            required,
        }
    }

    fn offers(&self, id: DisplayId) -> (found: bool)
        ensures
            found == self@.displays.contains(id),
    {
        let mut next: usize = 0;
        while next < self.displays.len()
            invariant
                next <= self.displays@.len(),
                forall|i: int| 0 <= i < next ==> self.displays@[i] != id,
            decreases self.displays@.len() - next,
        {
            if self.displays[next] == id {
                assert(self.displays@[next as int] == id);
                return true;
            }
            next += 1;
        }
        false
    }

    /// Whether the profile that runs is the one that would be tried first.
    fn is_settled(&self, candidates: &Vec<VideoProfile>) -> (settled: bool)
        requires
            candidates@ == self@.candidates(),
        ensures
            settled == self@.settled(),
    {
        candidates.len() > 0 && candidates[0] == self.active_profile
    }

    /// Handles a message of the viewer.
    pub fn handle(&mut self, message: ViewerMessage, now_ms: u64) -> (action: SenderAction)
        ensures
            (final(self)@, action@) == old(self)@.handled(message, now_ms),
    {
        match message {
            ViewerMessage::RequestKeyframe => SenderAction::RequestKeyframe,
            ViewerMessage::SetBitrate(bits) => SenderAction::AdaptBitrate(bits),
            ViewerMessage::SetQuality { bitrate } => {
                self.quality_ceiling = bitrate;
                SenderAction::ApplyQuality(bitrate)
            },
            ViewerMessage::Capabilities { profiles, bitrate, chroma } => {
                self.quality_ceiling = bitrate;
                self.viewer_profiles = profiles;
                self.requested_chroma = chroma;
                self.rejected = Vec::new();
                let candidates = self.candidates();
                if self.is_settled(&candidates) {
                    return SenderAction::ApplyQuality(bitrate);
                }
                let display = self.active_display;
                SenderAction::ApplyQualityAndRestart(
                    bitrate,
                    self.begin_restart(display, true, candidates),
                )
            },
            ViewerMessage::SetChroma(chroma) => {
                self.requested_chroma = chroma;
                self.rejected = Vec::new();
                let candidates = self.candidates();
                if self.is_settled(&candidates) {
                    return SenderAction::Nothing;
                }
                let display = self.active_display;
                SenderAction::Restart(self.begin_restart(display, true, candidates))
            },
            ViewerMessage::ProfileRejected(rejected) => {
                if rejected != self.active_profile {
                    return SenderAction::Nothing;
                }
                self.rejected.push(rejected);
                let candidates = self.candidates();
                let display = self.active_display;
                SenderAction::Restart(self.begin_restart(display, true, candidates))
            },
            ViewerMessage::SelectDisplay(id) => {
                if id == self.active_display && self.capture_running {
                    return SenderAction::Nothing;
                }
                if !self.offers(id) {
                    return SenderAction::Nothing;
                }
                let candidates = self.candidates();
                let restart = self.begin_restart(id, false, candidates);
                self.unavailable_since_ms = Some(now_ms);
                SenderAction::Restart(restart)
            },
            ViewerMessage::Clipboard => SenderAction::ForwardClipboard,
            ViewerMessage::Stop => SenderAction::Finish,
            ViewerMessage::ChannelClosed => SenderAction::ChannelClosed,
            ViewerMessage::Input => SenderAction::Nothing,
            ViewerMessage::Other => SenderAction::Nothing,
        }
    }

    /// Looks at the desktop: a capture that has ended is replaced, and a start
    /// that failed is repeated.
    pub fn look(&mut self, ended: bool, now_ms: u64) -> (restart: Option<Restart>)
        ensures
            ({
                let (after, expected) = old(self)@.looked(ended, now_ms);
                &&& final(self)@ == after
                &&& match expected {
                    Some(view) => restart is Some && restart->Some_0@ == view,
                    None => restart is None,
                }
            }),
    {
        let over = self.capture_running && ended;
        if over {
            self.capture_running = false;
            self.unavailable_since_ms = Some(now_ms);
            self.retry_after_ms = now_ms;
            self.stream_id = following_stream(self.stream_id);
        }
        if !self.capture_running && now_ms >= self.retry_after_ms {
            let candidates = self.candidates();
            Some(
                Restart {
                    stop: false,
                    clear: over,
                    display: self.active_display,
                    stream_id: self.stream_id,
                    candidates,
                    required: false,
                },
            )
        } else {
            None
        }
    }

    /// Records how a restart went, and tells what follows.
    pub fn restarted(
        &mut self,
        restart: &Restart,
        started: Option<StartedDesktop>,
        now_ms: u64,
    ) -> (result: RestartResult)
        requires
            now_ms + DESKTOP_RETRY_MS <= u64::MAX,
        ensures
            match started {
                Some(desktop) => result@ == RestartResultView::Announce(
                    configuration_of(desktop@, old(self)@.stream_id),
                ) && final(self)@ == old(self)@.started(desktop@),
                None => if restart.required {
                    result@ == RestartResultView::Fail && final(self)@ == old(self)@
                } else {
                    result@ == RestartResultView::Wait && final(self)@ == old(self)@.waiting(
                        restart.display,
                        now_ms,
                    )
                },
            },
    {
        match started {
            Some(desktop) => {
                self.displays = ids_of(&desktop.displays);
                self.active_display = desktop.active_display.id;
                self.active_profile = active_profile(&desktop.format);
                self.capture_running = true;
                self.unavailable_since_ms = None;
                RestartResult::Announce(
                    Configuration {
                        active_display: desktop.active_display.id,
                        stream_id: self.stream_id,
                        format: video_format(&desktop.format),
                        displays: desktop.displays,
                    },
                )
            },
            None => {
                if restart.required {
                    return RestartResult::Fail;
                }
                self.active_display = restart.display;
                self.retry_after_ms = now_ms + DESKTOP_RETRY_MS;
                RestartResult::Wait
            },
        }
    }

    /// Follows the connection to the viewer; `false` ends the session.
    pub fn peer_changed(&mut self, peer: PeerState) -> (alive: bool)
        ensures
            alive == !(peer == PeerState::Failed || peer == PeerState::Closed || peer
                == PeerState::Disconnected),
            final(self)@ == (SenderView {
                state: if peer == PeerState::Connected && old(self)@.state
                    == SessionState::Connecting {
                    SessionState::Streaming
                } else {
                    old(self)@.state
                },
                ..old(self)@
            }),
    {
        if peer == PeerState::Connected && self.state == SessionState::Connecting {
            self.state = SessionState::Streaming;
        }
        match peer {
            PeerState::Failed => false,
            PeerState::Closed => false,
            PeerState::Disconnected => false,
            _ => true,
        }
    }

    /// Whether the clipboard is looked at.
    pub fn polls_clipboard(&self, channel_open: bool) -> (polls: bool)
        ensures
            polls == (self@.state == SessionState::Streaming && channel_open),
    {
        self.state == SessionState::Streaming && channel_open
    }

    /// Begins to clean up a session that has not ended.
    pub fn begin_close(&mut self)
        ensures
            final(self)@ == (SenderView {
                state: if old(self)@.state == SessionState::Idle {
                    SessionState::Idle
                } else {
                    SessionState::Closing
                },
                ..old(self)@
            }),
    {
        if self.state != SessionState::Idle {
            self.state = SessionState::Closing;
        }
    }

    /// Ends the session, once it has been cleaned up.
    pub fn close(&mut self)
        ensures
            final(self)@ == (SenderView { state: SessionState::Idle, ..old(self)@ }),
    {
        self.state = SessionState::Idle;
    }
}

/// The attempts to start a capture: one profile after the other, until one
/// starts.
#[derive(Debug)]
pub struct StartAttempts {
    pub candidates: Vec<VideoProfile>,
    pub tried: usize,
    /// Why each of those tried did not start.
    pub failures: Vec<String>,
}

/// Texts joined by a separator.
pub open spec fn list(texts: Seq<Seq<char>>, separator: Seq<char>) -> Seq<char>
    decreases texts.len(),
{
    if texts.len() == 0 {
        seq![]
    } else if texts.len() == 1 {
        texts[0]
    } else {
        list(texts.drop_last(), separator) + separator + texts.last()
    }
}

pub open spec fn texts(strings: Seq<String>) -> Seq<Seq<char>> {
    Seq::new(strings.len(), |i: int| strings[i]@)
}

fn listed(strings: &Vec<String>, separator: &str) -> (text: String)
    ensures
        text@ == list(texts(strings@), separator@),
{
    let mut text = String::new();
    let mut next: usize = 0;
    while next < strings.len()
        invariant
            next <= strings@.len(),
            text@ == list(texts(strings@).take(next as int), separator@),
        decreases strings@.len() - next,
    {
        let ghost before = text@;
        if next > 0 {
            push_str(&mut text, separator);
        }
        push_str(&mut text, strings[next].as_str());
        proof {
            let longer = texts(strings@).take(next + 1);
            assert(longer.drop_last() =~= texts(strings@).take(next as int));
            assert(longer.last() == strings@[next as int]@);
            if next == 0 {
                assert(before =~= seq![]);
                assert(text@ =~= longer[0]);
            } else {
                assert(text@ =~= before + separator@ + longer.last());
            }
        }
        next += 1;
    }
    assert(texts(strings@).take(next as int) =~= texts(strings@));
    text
}

impl StartAttempts {
    pub fn new(candidates: Vec<VideoProfile>) -> (attempts: Self)
        ensures
            attempts.candidates@ == candidates@,
            attempts.tried == 0,
            attempts.failures@ == Seq::<String>::empty(),
    {
        StartAttempts { candidates, tried: 0, failures: Vec::new() }
    }

    /// The profile to try, if one is left.
    pub fn profile(&self) -> (profile: Option<VideoProfile>)
        ensures
            profile == (if self.tried < self.candidates@.len() {
                Some(self.candidates@[self.tried as int])
            } else {
                None
            }),
    {
        if self.tried < self.candidates.len() {
            Some(self.candidates[self.tried])
        } else {
            None
        }
    }

    /// Notes why the profile that was tried did not start.
    pub fn failed(&mut self, reason: String)
        requires
            old(self).tried < old(self).candidates.len(),
        ensures
            final(self).candidates@ == old(self).candidates@,
            final(self).tried == old(self).tried + 1,
            final(self).failures@ == old(self).failures@.push(reason),
    {
        self.failures.push(reason);
        self.tried += 1;
    }

    /// What is said when no profile started.
    pub fn message(&self) -> (message: String)
        ensures
            message@ == "no mutually supported hardware video profile could start: "@ + list(
                texts(self.failures@),
                "; "@,
            ),
    {
        let reasons = listed(&self.failures, "; ");
        joined("no mutually supported hardware video profile could start: ", reasons.as_str())
    }
}

/// The cursor that the viewer was last told, as it was encoded.
#[derive(Debug)]
pub struct CursorReport {
    pub sent: Option<Vec<u8>>,
}

fn same_bytes(first: &Vec<u8>, second: &Vec<u8>) -> (same: bool)
    ensures
        same == (first@ == second@),
{
    if first.len() != second.len() {
        return false;
    }
    let mut next: usize = 0;
    while next < first.len()
        invariant
            next <= first@.len(),
            first@.len() == second@.len(),
            forall|i: int| 0 <= i < next ==> first@[i] == second@[i],
        decreases first@.len() - next,
    {
        if first[next] != second[next] {
            return false;
        }
        next += 1;
    }
    assert(first@ =~= second@);
    true
}

impl CursorReport {
    pub open spec fn told(self, shape: Seq<u8>) -> bool {
        self.sent matches Some(sent) && sent@ == shape
    }

    /// Whether a cursor has to be told: it is news, and it can be told.
    pub fn is_due(&self, shape: &Vec<u8>, streaming: bool, channel_open: bool) -> (due: bool)
        ensures
            due == (streaming && channel_open && !self.told(shape@)),
    {
        if !streaming || !channel_open {
            return false;
        }
        match &self.sent {
            Some(sent) => !same_bytes(sent, shape),
            None => true,
        }
    }

    pub fn record(&mut self, shape: Vec<u8>)
        ensures
            final(self).told(shape@),
    {
        self.sent = Some(shape);
    }

    /// A new stream starts without a cursor.
    pub fn forget(&mut self)
        ensures
            final(self).sent is None,
    {
        self.sent = None;
    }
}

/// Why a session ends that nobody ended.
#[derive(Debug, Clone, Copy, PartialEq, Eq, Structural)]
pub enum SenderFailure {
    SignalingLost,
    PeerEnded(PeerState),
    ChannelClosed,
}

impl PeerState {
    pub open spec fn name_of(self) -> Seq<char> {
        match self {
            PeerState::Unspecified => "Unspecified"@,
            PeerState::New => "New"@,
            PeerState::Connecting => "Connecting"@,
            PeerState::Connected => "Connected"@,
            PeerState::Disconnected => "Disconnected"@,
            PeerState::Failed => "Failed"@,
            PeerState::Closed => "Closed"@,
        }
    }

    pub fn name(self) -> (name: &'static str)
        ensures
            name@ == self.name_of(),
    {
        match self {
            PeerState::Unspecified => "Unspecified",
            PeerState::New => "New",
            PeerState::Connecting => "Connecting",
            PeerState::Connected => "Connected",
            PeerState::Disconnected => "Disconnected",
            PeerState::Failed => "Failed",
            PeerState::Closed => "Closed",
        }
    }
}

impl SenderFailure {
    pub open spec fn text_of(self) -> Seq<char> {
        match self {
            SenderFailure::SignalingLost => "signaling connection closed"@,
            SenderFailure::PeerEnded(state) => "WebRTC connection ended in state "@
                + state.name_of(),
            SenderFailure::ChannelClosed => "remote input/control channel closed unexpectedly"@,
        }
    }

    pub fn message(&self) -> (text: String)
        ensures
            text@ == self.text_of(),
    {
        match self {
            SenderFailure::SignalingLost => "signaling connection closed".to_owned(),
            SenderFailure::PeerEnded(state) => joined(
                "WebRTC connection ended in state ",
                state.name(),
            ),
            SenderFailure::ChannelClosed =>
                "remote input/control channel closed unexpectedly".to_owned(),
        }
    }
}

/// How a session's parts ended.
#[derive(Debug, Clone, Copy, PartialEq, Eq, Structural)]
pub enum SessionEnd {
    Finished,
    /// The session itself failed.
    Failed,
    /// The session finished, but its capture did not stop.
    CaptureNotStopped,
    /// The session finished, but its connection did not close.
    ConnectionNotClosed,
}

/// How a session ended: its own failure counts before those of cleaning up. The
/// viewer is told of every end but `Finished`, and told once.
pub fn session_end(failed: bool, capture_stopped: bool, connection_closed: bool) -> (end:
    SessionEnd)
    ensures
        end == (if failed {
            SessionEnd::Failed
        } else if !capture_stopped {
            SessionEnd::CaptureNotStopped
        } else if !connection_closed {
            SessionEnd::ConnectionNotClosed
        } else {
            SessionEnd::Finished
        }),
{
    if failed {
        SessionEnd::Failed
    } else if !capture_stopped {
        SessionEnd::CaptureNotStopped
    } else if !connection_closed {
        SessionEnd::ConnectionNotClosed
    } else {
        SessionEnd::Finished
    }
}

/// The failure that a session ends with, given that of the part that failed.
pub fn end_failure(end: SessionEnd, failure: Failure) -> (result: Option<Failure>)
    ensures
        match end {
            SessionEnd::Finished => result is None,
            SessionEnd::Failed => result is Some && result->Some_0@ == failure@,
            SessionEnd::CaptureNotStopped => result is Some && result->Some_0@ == seq![
                "screen streamer cleanup failed"@,
            ] + failure@,
            SessionEnd::ConnectionNotClosed => result is Some && result->Some_0@ == seq![
                "failed to close WebRTC peer"@,
            ] + failure@,
        },
{
    match end {
        SessionEnd::Finished => None,
        SessionEnd::Failed => Some(failure),
        SessionEnd::CaptureNotStopped => Some(
            failure.context("screen streamer cleanup failed".to_owned()),
        ),
        SessionEnd::ConnectionNotClosed => Some(
            failure.context("failed to close WebRTC peer".to_owned()),
        ),
    }
}

/// A profile that the viewer rejects while it runs is not tried again until the
/// viewer says anew what it wants.
pub proof fn rejected_profiles_are_not_retried(sender: SenderView, now_ms: u64)
    ensures
        ({
            let message = ViewerMessage::ProfileRejected(sender.active_profile);
            let (after, action) = sender.handled(message, now_ms);
            &&& action matches ActionView::Restart(restart) && !restart.candidates.contains(
                sender.active_profile,
            )
            &&& !after.candidates().contains(sender.active_profile)
        }),
{
    let message = ViewerMessage::ProfileRejected(sender.active_profile);
    let (after, action) = sender.handled(message, now_ms);
    assert(after.rejected[after.rejected.len() - 1] == sender.active_profile);
    profile::candidates_are_exactly_the_usable_profiles(
        after.viewer_profiles,
        after.requested_chroma,
        after.rejected,
        sender.active_profile,
    );
}

/// Every restart is on the stream at which the session then stands, which is the
/// one that the viewer is told once it has started.
pub proof fn restarts_are_on_the_told_stream(
    sender: SenderView,
    message: ViewerMessage,
    ended: bool,
    now_ms: u64,
)
    ensures
        ({
            let (after, action) = sender.handled(message, now_ms);
            &&& action matches ActionView::Restart(restart) ==> restart.stream_id
                == after.stream_id
            &&& action matches ActionView::ApplyQualityAndRestart(_, restart)
                ==> restart.stream_id == after.stream_id
        }),
        sender.looked(ended, now_ms).1 matches Some(restart) ==> restart.stream_id
            == sender.looked(ended, now_ms).0.stream_id,
{
}

/// A capture that ends while it runs is replaced at once, on the same display
/// and on a stream of its own.
pub proof fn ended_capture_is_replaced(sender: SenderView, now_ms: u64)
    requires
        sender.capture_running,
    ensures
        sender.looked(true, now_ms).1 matches Some(restart) && restart.display
            == sender.active_display && restart.stream_id != sender.stream_id && restart.clear,
        sender.looked(false, now_ms) == (sender, None::<RestartView>),
{
}

/// What a session streams follows what the viewer can decode and wants: when it
/// says so, the profile that runs is kept exactly where it is the first to try
/// of what was said; otherwise capture of the same display is stopped and started
/// anew on a stream of its own, with just the profiles to try, and the session
/// ends if none starts. What the viewer rejected before is forgotten.
pub proof fn streams_follow_the_viewers_wishes(
    sender: SenderView,
    message: ViewerMessage,
    now_ms: u64,
)
    requires
        message is Capabilities || message is SetChroma,
    ensures
        ({
            let (after, action) = sender.handled(message, now_ms);
            let (profiles, chroma) = match message {
                ViewerMessage::Capabilities { profiles, chroma, .. } => (profiles@, chroma),
                ViewerMessage::SetChroma(chroma) => (sender.viewer_profiles, chroma),
                _ => (sender.viewer_profiles, sender.requested_chroma),
            };
            let tried = profile::candidates(profiles, chroma, seq![]);
            let restart = match action {
                ActionView::Restart(restart) => Some(restart),
                ActionView::ApplyQualityAndRestart(_, restart) => Some(restart),
                _ => None,
            };
            &&& after.viewer_profiles == profiles
            &&& after.requested_chroma == chroma
            &&& after.rejected.len() == 0
            &&& after.active_display == sender.active_display
            &&& after.active_profile == sender.active_profile
            &&& after.displays == sender.displays
            &&& message matches ViewerMessage::Capabilities { bitrate, .. } ==> after.quality_ceiling
                == bitrate && (action == ActionView::ApplyQuality(bitrate) || (action
                matches ActionView::ApplyQualityAndRestart(bits, _) && bits == bitrate))
            &&& message is SetChroma ==> after.quality_ceiling == sender.quality_ceiling
            &&& tried.len() > 0 && tried[0] == sender.active_profile ==> restart is None
                && after.capture_running == sender.capture_running && after.stream_id
                == sender.stream_id
            &&& tried.len() == 0 || tried[0] != sender.active_profile ==> {
                &&& restart matches Some(told)
                &&& told.stop && told.clear && told.required
                &&& told.display == sender.active_display
                &&& told.candidates == tried
                &&& told.stream_id == after.stream_id && after.stream_id != sender.stream_id
                &&& !after.capture_running
            }
        }),
{
}

/// A profile that the viewer rejects while it runs is given up at once: capture
/// of the same display starts anew with what is left, and the session ends if
/// nothing is. A rejection of any other profile changes nothing.
pub proof fn rejections_count_for_the_running_profile(
    sender: SenderView,
    rejected: VideoProfile,
    now_ms: u64,
)
    ensures
        ({
            let (after, action) = sender.handled(ViewerMessage::ProfileRejected(rejected), now_ms);
            &&& rejected != sender.active_profile ==> after == sender && action
                == ActionView::Nothing
            &&& rejected == sender.active_profile ==> {
                &&& action matches ActionView::Restart(told)
                &&& told.stop && told.clear && told.required
                &&& told.display == sender.active_display
                &&& told.stream_id == after.stream_id && after.stream_id != sender.stream_id
                &&& told.candidates == profile::candidates(
                    sender.viewer_profiles,
                    sender.requested_chroma,
                    after.rejected,
                )
                &&& after.rejected == sender.rejected.push(rejected)
                &&& !after.capture_running
                &&& after.viewer_profiles == sender.viewer_profiles
                &&& after.requested_chroma == sender.requested_chroma
            }
        }),
{
}

/// A display that the viewer selects is shown if it is offered: capture starts
/// anew on it, and is tried again if it does not start. The display that is
/// shown already, and one that is not offered, change nothing.
pub proof fn selected_displays_are_shown(sender: SenderView, id: DisplayId, now_ms: u64)
    ensures
        ({
            let (after, action) = sender.handled(ViewerMessage::SelectDisplay(id), now_ms);
            let offered = exists|i: int|
                0 <= i < sender.displays.len() && #[trigger] sender.displays[i] == id;
            let shown = sender.capture_running && sender.active_display == id;
            &&& !offered || shown ==> after == sender && action == ActionView::Nothing
            &&& offered && !shown ==> {
                &&& action matches ActionView::Restart(told)
                &&& told.stop && told.clear && !told.required
                &&& told.display == id
                &&& told.stream_id == after.stream_id && after.stream_id != sender.stream_id
                &&& told.candidates == profile::candidates(
                    sender.viewer_profiles,
                    sender.requested_chroma,
                    sender.rejected,
                )
                &&& !after.capture_running
                &&& after.unavailable_since_ms == Some(now_ms)
                &&& after.rejected == sender.rejected
                &&& after.active_profile == sender.active_profile
            }
        }),
{
}

/// Only a restart interrupts a capture, and only the viewer's stop or the end of
/// its channel ends the session. A bitrate that is asked for is the one that is
/// set; that of a quality preset is also the most that the session may take.
pub proof fn messages_do_what_they_say(sender: SenderView, message: ViewerMessage, now_ms: u64)
    ensures
        ({
            let (after, action) = sender.handled(message, now_ms);
            let restarts = action is Restart || action is ApplyQualityAndRestart;
            &&& !restarts ==> after.capture_running == sender.capture_running && after.stream_id
                == sender.stream_id
            &&& restarts ==> !after.capture_running && after.stream_id != sender.stream_id
            &&& after.state == sender.state
            &&& after.retry_after_ms == sender.retry_after_ms
            &&& action is Finish <==> message is Stop
            &&& action is ChannelClosed <==> message is ChannelClosed
            &&& action is RequestKeyframe <==> message is RequestKeyframe
            &&& action is ForwardClipboard <==> message is Clipboard
            &&& action matches ActionView::AdaptBitrate(bits) ==> message
                == ViewerMessage::SetBitrate(bits)
            &&& message is SetBitrate ==> action is AdaptBitrate && after == sender
            &&& message matches ViewerMessage::SetQuality { bitrate } ==> action
                == ActionView::ApplyQuality(bitrate) && after.quality_ceiling == bitrate
                && after.viewer_profiles == sender.viewer_profiles && after.rejected
                == sender.rejected
            &&& message is RequestKeyframe || message is Clipboard || message is Stop || message
                is ChannelClosed || message is Input || message is Other ==> after == sender
            &&& message is Input || message is Other ==> action == ActionView::Nothing
        }),
{
}

/// While nothing is captured, a look starts the active display again, on the
/// stream at which the session stands, but not before the time to wait is over;
/// nothing has to be stopped for it and nothing forgotten. A start that is not
/// required and fails waits a quarter of a second before the next.
pub proof fn failed_starts_are_repeated(
    sender: SenderView,
    ended: bool,
    now_ms: u64,
    display: DisplayId,
    failed_ms: u64,
)
    requires
        failed_ms + 250 <= u64::MAX,
    ensures
        !sender.capture_running ==> {
            let (after, restart) = sender.looked(ended, now_ms);
            &&& after == sender
            &&& now_ms < sender.retry_after_ms ==> restart is None
            &&& now_ms >= sender.retry_after_ms ==> {
                &&& restart matches Some(told)
                &&& told.display == sender.active_display
                &&& told.stream_id == sender.stream_id
                &&& !told.stop && !told.clear && !told.required
                &&& told.candidates == profile::candidates(
                    sender.viewer_profiles,
                    sender.requested_chroma,
                    sender.rejected,
                )
            }
        },
        sender.capture_running && ended ==> {
            let (after, restart) = sender.looked(ended, now_ms);
            &&& !after.capture_running
            &&& after.unavailable_since_ms == Some(now_ms)
            &&& restart matches Some(told)
            &&& told.clear && !told.stop && !told.required
        },
        ({
            let waiting = SenderView { capture_running: false, ..sender }.waiting(
                display,
                failed_ms,
            );
            &&& waiting.active_display == display
            &&& now_ms < failed_ms + 250 ==> waiting.looked(ended, now_ms).1 is None
            &&& now_ms >= failed_ms + 250 ==> (waiting.looked(ended, now_ms).1 matches Some(told)
                && told.display == display)
        }),
{
}

/// Once a capture has started, the session shows what it reports: its displays
/// are those offered, its active display is the one shown, its profile the one
/// that runs, and nothing counts as unavailable. What the viewer wants stays.
pub proof fn started_captures_are_shown(sender: SenderView, started: StartedView, stream_id: u32)
    ensures
        ({
            let after = sender.started(started);
            let told = configuration_of(started, stream_id);
            &&& after.capture_running && after.unavailable_since_ms is None
            &&& after.active_display == started.active_display.id
            &&& after.active_profile == profile::profile_of(started.format)
            &&& after.displays.len() == started.displays.len()
            &&& forall|i: int|
                0 <= i < started.displays.len() ==> #[trigger] after.displays[i]
                    == started.displays[i].id
            &&& after.stream_id == sender.stream_id && after.state == sender.state
            &&& after.viewer_profiles == sender.viewer_profiles
            &&& after.requested_chroma == sender.requested_chroma
            &&& after.rejected == sender.rejected
            &&& after.quality_ceiling == sender.quality_ceiling
            &&& told.displays == started.displays
            &&& told.active_display == after.active_display
            &&& told.stream_id == stream_id
            &&& (told.format.width, told.format.height) == (
                started.format.width,
                started.format.height,
            )
            &&& told.format.bitrate_bits_per_second == started.format.bitrate_bits_per_second
        }),
{
}

/// A signal leads to what it asks for: the first word that the viewer is ready
/// to an offer, an answer to its being taken, a ping to a pong with what it
/// carried, and an end of either side to the end of the session, with the reason
/// where one is given.
pub proof fn signals_are_answered(state: SignalingView, signal: Signal)
    ensures
        state.action(signal) is SendOffer <==> signal is Ready && !state.offer_sent,
        signal is Ready ==> state.after(signal).offer_sent,
        !(signal is Ready) ==> state.after(signal).offer_sent == state.offer_sent,
        signal matches Signal::Answer(answer) ==> (state.action(signal)
            matches SignalActionView::AcceptAnswer(text, held) && text == answer@ && held
            == state.held) && state.after(signal).answered,
        signal matches Signal::Ping(payload) ==> state.action(signal) == SignalActionView::Pong(
            payload@,
        ),
        state.action(signal) is Finish <==> signal is PeerLeft || signal is Closed,
        signal matches Signal::Error(message) ==> state.action(signal) == SignalActionView::Fail(
            message@,
        ),
        state.action(signal) is FailSignaling <==> signal is Lost,
        !(signal is Answer) && !(signal is Candidate) ==> state.after(signal).held == state.held,
{
}

/// The states of a connection are called by their names.
pub proof fn peer_states_have_their_names(state: PeerState)
    ensures
        state == PeerState::Unspecified ==> state.name_of() == "Unspecified"@,
        state == PeerState::New ==> state.name_of() == "New"@,
        state == PeerState::Connecting ==> state.name_of() == "Connecting"@,
        state == PeerState::Connected ==> state.name_of() == "Connected"@,
        state == PeerState::Disconnected ==> state.name_of() == "Disconnected"@,
        state == PeerState::Failed ==> state.name_of() == "Failed"@,
        state == PeerState::Closed ==> state.name_of() == "Closed"@,
{
}

/// A session that nobody ended says which of its parts did.
pub proof fn failures_say_what_ended(failure: SenderFailure)
    ensures
        failure == SenderFailure::SignalingLost ==> failure.text_of()
            == "signaling connection closed"@,
        failure matches SenderFailure::PeerEnded(state) ==> failure.text_of()
            == "WebRTC connection ended in state "@ + state.name_of(),
        failure == SenderFailure::ChannelClosed ==> failure.text_of()
            == "remote input/control channel closed unexpectedly"@,
{
}

/// Texts are joined in their order, with the separator between each two and
/// nowhere else.
pub proof fn texts_are_joined_in_order(
    texts: Seq<Seq<char>>,
    last: Seq<char>,
    separator: Seq<char>,
)
    ensures
        list(seq![], separator) == Seq::<char>::empty(),
        list(seq![last], separator) == last,
        texts.len() > 0 ==> list(texts.push(last), separator) == list(texts, separator)
            + separator + last,
{
    assert(texts.push(last).drop_last() =~= texts);
}

/// A message changes what it is about and nothing else: only the viewer's
/// capabilities change its profiles, only they and a wish for a chroma change that,
/// only they, that and a rejection change what is rejected, only they and a quality
/// the ceiling, and only the choice of a display since when there is none. A restart
/// moves on to the next stream.
pub proof fn messages_change_nothing_else(
    sender: SenderView,
    message: ViewerMessage,
    now_ms: u64,
)
    ensures
        ({
            let (after, action) = sender.handled(message, now_ms);
            let restarts = action is Restart || action is ApplyQualityAndRestart;
            &&& after.displays == sender.displays
            &&& after.active_display == sender.active_display
            &&& after.active_profile == sender.active_profile
            &&& after.retry_after_ms == sender.retry_after_ms
            &&& after.state == sender.state
            &&& !(message is Capabilities) ==> after.viewer_profiles == sender.viewer_profiles
            &&& !(message is Capabilities) && !(message is SetChroma) ==> after.requested_chroma
                == sender.requested_chroma
            &&& !(message is Capabilities) && !(message is SetChroma) && !(message
                is ProfileRejected) ==> after.rejected == sender.rejected
            &&& !(message is Capabilities) && !(message is SetQuality) ==> after.quality_ceiling
                == sender.quality_ceiling
            &&& !(message is SelectDisplay) ==> after.unavailable_since_ms
                == sender.unavailable_since_ms
            &&& !restarts ==> after.unavailable_since_ms == sender.unavailable_since_ms
                && after.capture_running == sender.capture_running && after.stream_id
                == sender.stream_id
            &&& restarts ==> !after.capture_running && after.stream_id == (if sender.stream_id
                == u32::MAX {
                1
            } else {
                sender.stream_id + 1
            })
        }),
{
}

/// Looks, starts and waits leave what the viewer wants alone. A capture that ended
/// makes way for the next at once, on a stream of its own and for the same display;
/// a start that has to wait changes only what is waited for, and for how long.
pub proof fn starts_leave_the_viewers_wishes_alone(
    sender: SenderView,
    ended: bool,
    now_ms: u64,
    display: DisplayId,
    started: StartedView,
)
    requires
        now_ms + 250 <= u64::MAX,
    ensures
        ({
            let (after, restart) = sender.looked(ended, now_ms);
            let over = sender.capture_running && ended;
            &&& !over ==> after == sender
            &&& sender.capture_running && !ended ==> restart is None
            &&& over ==> after == (SenderView {
                capture_running: false,
                stream_id: after.stream_id,
                unavailable_since_ms: Some(now_ms),
                retry_after_ms: now_ms,
                ..sender
            })
            &&& over ==> after.stream_id == (if sender.stream_id == u32::MAX {
                1
            } else {
                sender.stream_id + 1
            })
            &&& over ==> restart is Some && restart->0.display == sender.active_display
                && restart->0.stream_id == after.stream_id && restart->0.candidates
                == profile::candidates(
                sender.viewer_profiles,
                sender.requested_chroma,
                sender.rejected,
            )
        }),
        sender.waiting(display, now_ms) == (SenderView {
            active_display: display,
            retry_after_ms: (now_ms + 250) as u64,
            ..sender
        }),
        sender.started(started).retry_after_ms == sender.retry_after_ms,
{
}

} // verus!
