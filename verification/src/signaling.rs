//! The agent's connection to its coordinator: where it is, how it is kept up,
//! and which remote session runs.
use crate::text;
use crate::text::{push_decimal, push_str, same_text};
use vstd::prelude::*;

verus! {

pub const HEARTBEAT_MS: u64 = 20_000;

/// How long the coordinator may stay silent.
pub const LIVENESS_SECONDS: u64 = 60;

pub const FIRST_RETRY_MS: u64 = 1_000;

pub const LAST_RETRY_MS: u64 = 30_000;

/// An endpoint of a server: the server's address, and the segments of the path
/// and the query to add to it.
#[derive(Debug)]
pub struct Endpoint {
    pub server: String,
    pub segments: Vec<String>,
    pub query: Vec<(String, String)>,
    pub websocket: bool,
}

pub struct EndpointView {
    pub server: Seq<char>,
    pub segments: Seq<Seq<char>>,
    pub query: Seq<(Seq<char>, Seq<char>)>,
    pub websocket: bool,
}

impl View for Endpoint {
    type V = EndpointView;

    open spec fn view(&self) -> EndpointView {
        EndpointView {
            server: self.server@,
            segments: Seq::new(self.segments@.len(), |i: int| self.segments@[i]@),
            query: Seq::new(
                self.query@.len(),
                |i: int| (self.query@[i].0@, self.query@[i].1@),
            ),
            websocket: self.websocket,
        }
    }
}

/// Where an agent connects.
pub fn agent_connection_url(server: &str, device_id: &str) -> (endpoint: Endpoint)
    ensures
        endpoint@ == (EndpointView {
            server: server@,
            segments: seq!["v1"@, "agents"@, device_id@, "connect"@],
            query: seq![],
            websocket: true,
        }),
{
    let mut segments: Vec<String> = Vec::new();
    segments.push("v1".to_owned());
    segments.push("agents".to_owned());
    segments.push(device_id.to_owned());
    segments.push("connect".to_owned());
    let endpoint = Endpoint {
        server: server.to_owned(),
        segments,
        query: Vec::new(),
        websocket: true,
    };
    assert(endpoint@.segments =~= seq!["v1"@, "agents"@, device_id@, "connect"@]);
    assert(endpoint@.query =~= seq![]);
    endpoint
}

/// Where the two sides of a remote session meet.
pub fn session_signal_url(server: &str, session_id: &str, role: &str) -> (endpoint: Endpoint)
    ensures
        endpoint@ == (EndpointView {
            server: server@,
            segments: seq!["v1"@, "remote"@, "sessions"@, session_id@, "signal"@],
            query: seq![("role"@, role@)],
            websocket: true,
        }),
{
    let mut segments: Vec<String> = Vec::new();
    segments.push("v1".to_owned());
    segments.push("remote".to_owned());
    segments.push("sessions".to_owned());
    segments.push(session_id.to_owned());
    segments.push("signal".to_owned());
    let mut query: Vec<(String, String)> = Vec::new();
    query.push(("role".to_owned(), role.to_owned()));
    let endpoint = Endpoint { server: server.to_owned(), segments, query, websocket: true };
    assert(endpoint@.segments =~= seq!["v1"@, "remote"@, "sessions"@, session_id@, "signal"@]);
    assert(endpoint@.query =~= seq![("role"@, role@)]);
    endpoint
}

/// How long the agent waits before it connects again.
#[derive(Debug, Clone, Copy, PartialEq, Eq, Structural)]
pub struct Reconnect {
    pub delay_ms: u64,
}

pub open spec fn doubled(delay_ms: u64) -> u64 {
    if delay_ms * 2 > LAST_RETRY_MS {
        LAST_RETRY_MS
    } else {
        (delay_ms * 2) as u64
    }
}

impl Reconnect {
    pub open spec fn wf(self) -> bool {
        FIRST_RETRY_MS <= self.delay_ms <= LAST_RETRY_MS
    }

    pub fn new() -> (reconnect: Self)
        ensures
            reconnect == (Reconnect { delay_ms: FIRST_RETRY_MS }),
            reconnect.wf(),
    {
        Reconnect { delay_ms: FIRST_RETRY_MS }
    }

    /// A connection that worked starts the delays anew.
    pub fn connected(&mut self)
        ensures
            *final(self) == (Reconnect { delay_ms: FIRST_RETRY_MS }),
            final(self).wf(),
    {
        self.delay_ms = FIRST_RETRY_MS;
    }

    /// How long to wait now; the next wait is twice as long, up to a limit.
    pub fn wait(&mut self) -> (delay_ms: u64)
        requires
            old(self).wf(),
        ensures
            delay_ms == old(self).delay_ms,
            *final(self) == (Reconnect { delay_ms: doubled(old(self).delay_ms) }),
            final(self).wf(),
    {
        let delay_ms: u64 = self.delay_ms;
        self.delay_ms = if delay_ms * 2 > LAST_RETRY_MS {
            LAST_RETRY_MS
        } else {
            delay_ms * 2
        };
        delay_ms
    }
}

/// The delay after a number of waits without a connection.
pub open spec fn delay_after(waits: nat) -> u64
    decreases waits,
{
    if waits == 0 {
        FIRST_RETRY_MS
    } else {
        doubled(delay_after((waits - 1) as nat))
    }
}

/// Delays only grow, up to the limit, which they reach.
pub proof fn delays_grow_to_the_limit(waits: nat)
    ensures
        FIRST_RETRY_MS <= delay_after(waits) <= delay_after(waits + 1) <= LAST_RETRY_MS,
        waits >= 5 ==> delay_after(waits) == LAST_RETRY_MS,
    decreases waits,
{
    if waits > 0 {
        delays_grow_to_the_limit((waits - 1) as nat);
    }
    if waits == 5 {
        reveal_with_fuel(delay_after, 6);
        assert(delay_after(5) == LAST_RETRY_MS);
    }
}

/// What a heartbeat comes to.
#[derive(Debug)]
pub enum Heartbeat {
    Ping,
    /// The coordinator was silent for too long.
    Lost(String),
}

/// Looks at a connection on which the coordinator was heard last at `heard_ms`.
pub fn heartbeat(heard_ms: u64, now_ms: u64) -> (beat: Heartbeat)
    ensures
        if now_ms - heard_ms >= LIVENESS_SECONDS * 1000 {
            beat matches Heartbeat::Lost(message) && message@
                == "Agent signaling did not respond for "@ + text::decimal(
                LIVENESS_SECONDS as nat,
            ) + " seconds"@
        } else {
            beat is Ping
        },
{
    if now_ms >= heard_ms && now_ms - heard_ms >= LIVENESS_SECONDS * 1000 {
        let mut message = "Agent signaling did not respond for ".to_owned();
        push_decimal(&mut message, LIVENESS_SECONDS);
        push_str(&mut message, " seconds");
        Heartbeat::Lost(message)
    } else {
        Heartbeat::Ping
    }
}

/// A server that helps the two sides of a session to reach each other.
#[derive(Debug)]
pub struct IceServer {
    pub urls: Vec<String>,
    pub username: Option<String>,
    pub credential: Option<String>,
}

#[verifier::ext_equal]
pub struct IceServerView {
    pub urls: Seq<Seq<char>>,
    pub username: Option<Seq<char>>,
    pub credential: Option<Seq<char>>,
}

pub open spec fn text_view(text: Option<String>) -> Option<Seq<char>> {
    match text {
        Some(inner) => Some(inner@),
        None => None,
    }
}

impl View for IceServer {
    type V = IceServerView;

    open spec fn view(&self) -> IceServerView {
        IceServerView {
            urls: Seq::new(self.urls@.len(), |i: int| self.urls@[i]@),
            username: text_view(self.username),
            credential: text_view(self.credential),
        }
    }
}

pub open spec fn or_empty(text: Option<Seq<char>>) -> Seq<char> {
    match text {
        Some(inner) => inner,
        None => seq![],
    }
}

fn text_or_empty(text: &Option<String>) -> (inner: String)
    ensures
        inner@ == or_empty(text_view(*text)),
{
    match text {
        Some(inner) => inner.clone(),
        None => {
            let inner = String::new();
            assert(inner@ =~= seq![]);
            inner
        },
    }
}

fn same_optional(first: &Option<String>, second: &Option<String>) -> (same: bool)
    ensures
        same == (text_view(*first) == text_view(*second)),
{
    match (first, second) {
        (Some(one), Some(other)) => same_text(one.as_str(), other.as_str()),
        (None, None) => true,
        _ => false,
    }
}

impl IceServer {
    /// The name and the secret to sign in with; empty where there is none.
    pub fn login(&self) -> (login: (String, String))
        ensures
            login.0@ == or_empty(self@.username),
            login.1@ == or_empty(self@.credential),
    {
        (text_or_empty(&self.username), text_or_empty(&self.credential))
    }

    fn same(&self, other: &IceServer) -> (same: bool)
        ensures
            same == (self@ == other@),
    {
        if self.urls.len() != other.urls.len() {
            assert(self@.urls.len() != other@.urls.len());
            return false;
        }
        let mut next: usize = 0;
        while next < self.urls.len()
            invariant
                next <= self.urls@.len(),
                self.urls@.len() == other.urls@.len(),
                forall|i: int| 0 <= i < next ==> self.urls@[i]@ == other.urls@[i]@,
            decreases self.urls@.len() - next,
        {
            if !same_text(self.urls[next].as_str(), other.urls[next].as_str()) {
                assert(self@.urls[next as int] != other@.urls[next as int]);
                return false;
            }
            next += 1;
        }
        assert(self@.urls =~= other@.urls);
        same_optional(&self.username, &other.username) && same_optional(
            &self.credential,
            &other.credential,
        )
    }
}

/// A remote session that the coordinator wants.
#[derive(Debug)]
pub struct SessionRequest {
    pub session_id: String,
    pub signaling_token: String,
    pub ice_servers: Vec<IceServer>,
}

#[verifier::ext_equal]
pub struct RequestView {
    pub session_id: Seq<char>,
    pub signaling_token: Seq<char>,
    pub ice_servers: Seq<IceServerView>,
}

impl View for SessionRequest {
    type V = RequestView;

    open spec fn view(&self) -> RequestView {
        RequestView {
            session_id: self.session_id@,
            signaling_token: self.signaling_token@,
            ice_servers: Seq::new(self.ice_servers@.len(), |i: int| self.ice_servers@[i]@),
        }
    }
}

impl SessionRequest {
    /// Whether two requests are the same in every part.
    pub fn same(&self, other: &SessionRequest) -> (same: bool)
        ensures
            same == (self@ == other@),
    {
        if self.ice_servers.len() != other.ice_servers.len() {
            assert(self@.ice_servers.len() != other@.ice_servers.len());
            return false;
        }
        let mut next: usize = 0;
        while next < self.ice_servers.len()
            invariant
                next <= self.ice_servers@.len(),
                self.ice_servers@.len() == other.ice_servers@.len(),
                forall|i: int| 0 <= i < next ==> self.ice_servers@[i]@ == other.ice_servers@[i]@,
            decreases self.ice_servers@.len() - next,
        {
            if !self.ice_servers[next].same(&other.ice_servers[next]) {
                assert(self@.ice_servers[next as int] != other@.ice_servers[next as int]);
                return false;
            }
            next += 1;
        }
        assert(self@.ice_servers =~= other@.ice_servers);
        same_text(self.session_id.as_str(), other.session_id.as_str()) && same_text(
            self.signaling_token.as_str(),
            other.signaling_token.as_str(),
        )
    }
}

/// What the coordinator sends.
#[derive(Debug)]
pub enum AgentEvent {
    Uninstall,
    EndSession { session_id: String },
    /// A remote session is wanted.
    Request(SessionRequest),
    /// A text that is neither a command nor a request.
    Invalid,
    Ping(Vec<u8>),
    /// The connection was closed.
    Closed,
    Other,
}

/// What an event leads to.
#[derive(Debug, PartialEq, Eq)]
pub enum AgentAction {
    Nothing,
    /// Stop the active session.
    StopSession,
    /// Start the session that is now active, and first stop the one that was, if
    /// there was one.
    StartSession { replaces: bool },
    /// Answer a ping with what it carries.
    Pong(Vec<u8>),
    /// Schedule the removal of the agent, tell the coordinator, and end.
    Uninstall,
    Reconnect,
}

pub enum AgentActionView {
    Nothing,
    StopSession,
    StartSession { replaces: bool },
    Pong(Seq<u8>),
    Uninstall,
    Reconnect,
}

impl View for AgentAction {
    type V = AgentActionView;

    open spec fn view(&self) -> AgentActionView {
        match *self {
            AgentAction::Nothing => AgentActionView::Nothing,
            AgentAction::StopSession => AgentActionView::StopSession,
            AgentAction::StartSession { replaces } => AgentActionView::StartSession { replaces },
            AgentAction::Pong(payload) => AgentActionView::Pong(payload@),
            AgentAction::Uninstall => AgentActionView::Uninstall,
            AgentAction::Reconnect => AgentActionView::Reconnect,
        }
    }
}

/// The remote session that runs, if one does: what it was started for.
#[derive(Debug)]
pub struct AgentSessions {
    pub active: Option<SessionRequest>,
}

pub open spec fn active_request(active: Option<SessionRequest>) -> Option<RequestView> {
    match active {
        Some(request) => Some(request@),
        None => None,
    }
}

/// The session that is active after an event, and what is done. `finished` is
/// whether the active session has ended by itself.
pub open spec fn handled(active: Option<RequestView>, event: AgentEvent, finished: bool) -> (
    Option<RequestView>,
    AgentActionView,
) {
    match event {
        AgentEvent::Uninstall => (active, AgentActionView::Uninstall),
        AgentEvent::EndSession { session_id } => if active matches Some(request)
            && request.session_id == session_id@ {
            (None, AgentActionView::StopSession)
        } else {
            (active, AgentActionView::Nothing)
        },
        AgentEvent::Request(request) => if active == Some(request@) && !finished {
            (active, AgentActionView::Nothing)
        } else {
            (Some(request@), AgentActionView::StartSession { replaces: active is Some })
        },
        AgentEvent::Invalid => (active, AgentActionView::Nothing),
        AgentEvent::Ping(payload) => (active, AgentActionView::Pong(payload@)),
        AgentEvent::Closed => (active, AgentActionView::Reconnect),
        AgentEvent::Other => (active, AgentActionView::Nothing),
    }
}

impl AgentSessions {
    pub fn new() -> (sessions: Self)
        ensures
            active_request(sessions.active) is None,
    {
        AgentSessions { active: None }
    }

    /// Forgets an active session that has ended; whether there was one.
    pub fn reap(&mut self, finished: bool) -> (reaped: bool)
        ensures
            reaped == (finished && old(self).active is Some),
            final(self).active == (if finished {
                None
            } else {
                old(self).active
            }),
    {
        if !finished {
            return false;
        }
        self.active.take().is_some()
    }

    /// The agent ends, and its session with it; whether there is one to stop.
    pub fn finish(&mut self) -> (stops: bool)
        ensures
            stops == (old(self).active is Some),
            final(self).active is None,
    {
        self.active.take().is_some()
    }

    pub fn handle(&mut self, event: AgentEvent, finished: bool) -> (action: AgentAction)
        ensures
            (active_request(final(self).active), action@) == handled(
                active_request(old(self).active),
                event,
                finished,
            ),
    {
        match event {
            AgentEvent::Uninstall => AgentAction::Uninstall,
            AgentEvent::EndSession { session_id } => {
                let same = match &self.active {
                    Some(active) => same_text(active.session_id.as_str(), session_id.as_str()),
                    None => false,
                };
                if same {
                    self.active = None;
                    AgentAction::StopSession
                } else {
                    AgentAction::Nothing
                }
            },
            AgentEvent::Request(request) => {
                let repeated = match &self.active {
                    Some(active) => active.same(&request),
                    None => false,
                };
                if repeated && !finished {
                    return AgentAction::Nothing;
                }
                let replaces = self.active.is_some();
                self.active = Some(request);
                AgentAction::StartSession { replaces }
            },
            AgentEvent::Invalid => AgentAction::Nothing,
            AgentEvent::Ping(payload) => AgentAction::Pong(payload),
            AgentEvent::Closed => AgentAction::Reconnect,
            AgentEvent::Other => AgentAction::Nothing,
        }
    }
}

/// A request that is repeated while its session runs, as after a reconnect, does
/// not disturb the session; and losing the connection does not either.
pub proof fn running_session_survives_reconnects(active: RequestView, request: SessionRequest)
    requires
        request@ == active,
    ensures
        handled(Some(active), AgentEvent::Closed, false).0 == Some(active),
        handled(Some(active), AgentEvent::Request(request), false) == (
            Some(active),
            AgentActionView::Nothing,
        ),
{
}

/// How a remote session goes on after its sender ended.
#[derive(Debug, Clone, Copy, PartialEq, Eq, Structural)]
pub enum SessionRetry {
    Done,
    Fail,
    /// Wait and connect again.
    Retry,
}

/// How a remote session goes on: an error that no retry can mend ends it.
pub fn after_sender(finished: bool, terminal: bool) -> (retry: SessionRetry)
    ensures
        retry == (if finished {
            SessionRetry::Done
        } else if terminal {
            SessionRetry::Fail
        } else {
            SessionRetry::Retry
        }),
{
    if finished {
        SessionRetry::Done
    } else if terminal {
        SessionRetry::Fail
    } else {
        SessionRetry::Retry
    }
}

/// Each wait is twice the one before, as long as that is no more than half a
/// minute, which is as long as any wait gets; the first is a second.
pub proof fn waits_double_from_a_second(waits: nat)
    ensures
        delay_after(0) == 1_000,
        2 * delay_after(waits) <= 30_000 ==> delay_after(waits + 1) == 2 * delay_after(waits),
        2 * delay_after(waits) > 30_000 ==> delay_after(waits + 1) == 30_000,
{
}

/// The agent stops the session that it is told to end and no other, starts every
/// session that is not the one already running, and runs at most one. Only these
/// change which session runs. A ping is answered with what it carried, and a
/// connection that closed is made again.
pub proof fn sessions_are_run_as_asked(
    active: Option<RequestView>,
    event: AgentEvent,
    finished: bool,
)
    ensures
        ({
            let (after, action) = handled(active, event, finished);
            &&& event matches AgentEvent::Request(request) ==> after == Some(request@)
            &&& event matches AgentEvent::Request(request) ==> (action is Nothing <==> active
                == Some(request@) && !finished)
            &&& event is Request && !(action is Nothing) ==> action == (
            AgentActionView::StartSession { replaces: active is Some })
            &&& event matches AgentEvent::EndSession { session_id } ==> (action is StopSession
                <==> active is Some && active->0.session_id == session_id@)
            &&& event is EndSession ==> (action is StopSession || action is Nothing)
            &&& event is EndSession && action is StopSession ==> after is None
            &&& event is EndSession && action is Nothing ==> after == active
            &&& !(event is Request) && !(event is EndSession) ==> after == active
            &&& event matches AgentEvent::Ping(payload) ==> action == AgentActionView::Pong(
                payload@,
            )
            &&& action is Pong <==> event is Ping
            &&& action is Uninstall <==> event is Uninstall
            &&& action is Reconnect <==> event is Closed
            &&& event is Invalid || event is Other ==> action is Nothing
        }),
{
}

/// A secret that a server needs is handed on as it is, and an empty one where it
/// needs none.
pub proof fn secrets_are_handed_on(text: Seq<char>)
    ensures
        or_empty(Some(text)) == text,
        or_empty(None).len() == 0,
{
}

} // verus!
