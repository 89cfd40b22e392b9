//! The handshake with the session broker, as a state machine.
//!
//! The machine never touches the channel. It is told what the broker
//! replied, and answers with the request to send next and, once the
//! handshake is over, with its outcome.

use vstd::prelude::*;
use crate::config::{Runner, RunnerView};
use crate::text::copy_strings;

verus! {

/// Why a login attempt failed.
#[derive(Clone, Copy, Debug, PartialEq, Eq, Structural)]
pub enum LoginFailure {
    /// The login attempt failed due to invalid auth credentials
    AuthError,
    /// The login attempt failed due to missing auth credentials
    MissingFields,
    /// There was an error during the login attempt
    Error,
}

/// How a login attempt ended.
#[derive(Clone, Copy, Debug, PartialEq, Eq, Structural)]
pub enum LoginResult {
    /// The login attempt failed
    Failure(LoginFailure),
    /// The login attempt succeeded
    Success,
}

/// The kind of a prompt that the broker sends while it authenticates.
#[derive(Clone, Copy, Debug, PartialEq, Eq, Structural)]
pub enum AuthMessageType {
    /// A question whose answer may be shown
    Visible,
    /// A question whose answer must stay hidden
    Secret,
    /// A notice that asks for nothing
    Info,
    /// A complaint that asks for nothing
    Error,
}

/// The kind of an error that the broker reports.
#[derive(Clone, Copy, Debug, PartialEq, Eq, Structural)]
pub enum ErrorType {
    /// The credentials were rejected
    AuthError,
    /// Anything else went wrong
    Error,
}

/// A message to the broker.
#[derive(Clone, Debug, PartialEq, Eq)]
pub enum Request {
    CreateSession { username: String },
    PostAuthMessageResponse { response: Option<String> },
    StartSession { cmd: Vec<String>, env: Vec<String> },
    CancelSession,
}

/// A message from the broker.
#[derive(Clone, Debug, PartialEq, Eq)]
pub enum Response {
    AuthMessage { auth_message: String, auth_message_type: AuthMessageType },
    Success,
    Error { error_type: ErrorType, description: String },
}

/// What came back after a request was sent.
#[derive(Clone, Debug, PartialEq, Eq)]
pub enum Event {
    /// The broker replied
    Reply(Response),
    /// The request could not be written, or no well-formed reply could be read
    TransportFailure,
}

/// A [`Request`] as plain text.
pub enum RequestView {
    CreateSession { username: Seq<char> },
    PostAuthMessageResponse { response: Option<Seq<char>> },
    StartSession { cmd: Seq<Seq<char>>, env: Seq<Seq<char>> },
    CancelSession,
}

/// A [`Response`] as plain text.
pub enum ResponseView {
    AuthMessage { auth_message: Seq<char>, auth_message_type: AuthMessageType },
    Success,
    Error { error_type: ErrorType, description: Seq<char> },
}

/// An [`Event`] as plain text.
pub enum EventView {
    Reply(ResponseView),
    TransportFailure,
}

impl View for Request {
    type V = RequestView;

    open spec fn view(&self) -> RequestView {
        match self {
            Request::CreateSession { username } => RequestView::CreateSession { username: username@ },
            Request::PostAuthMessageResponse { response } => RequestView::PostAuthMessageResponse {
                response: match response {
                    Some(text) => Some(text@),
                    None => None,
                },
            },
            Request::StartSession { cmd, env } => RequestView::StartSession {
                cmd: cmd.deep_view(),
                env: env.deep_view(),
            },
            Request::CancelSession => RequestView::CancelSession,
        }
    }
}

impl View for Response {
    type V = ResponseView;

    open spec fn view(&self) -> ResponseView {
        match self {
            Response::AuthMessage { auth_message, auth_message_type } => ResponseView::AuthMessage {
                auth_message: auth_message@,
                auth_message_type: *auth_message_type,
            },
            Response::Success => ResponseView::Success,
            Response::Error { error_type, description } => ResponseView::Error {
                error_type: *error_type,
                description: description@,
            },
        }
    }
}

impl View for Event {
    type V = EventView;

    open spec fn view(&self) -> EventView {
        match self {
            Event::Reply(response) => EventView::Reply(response@),
            Event::TransportFailure => EventView::TransportFailure,
        }
    }
}

/// Where a handshake stands.
#[derive(Clone, Copy, Debug, PartialEq, Eq, Structural)]
pub enum Phase {
    /// The session was asked for; the broker has not yet accepted the user
    Authenticating,
    /// The user was accepted and the session command was handed over
    Starting,
    /// The handshake is over
    Done(LoginResult),
}

/// What the machine asks of its driver after one move.
#[derive(Clone, Debug, PartialEq, Eq)]
pub struct Step {
    /// The request to send now, if any. Where `outcome` is set too, the
    /// request is a courtesy: whether it can be written changes nothing.
    pub send: Option<Request>,
    /// The outcome, once the handshake is over: nothing is read after it.
    pub outcome: Option<LoginResult>,
}

/// A [`Step`] as plain text.
pub struct StepView {
    pub send: Option<RequestView>,
    pub outcome: Option<LoginResult>,
}

impl View for Step {
    type V = StepView;

    open spec fn view(&self) -> StepView {
        StepView {
            send: match self.send {
                Some(request) => Some(request@),
                None => None,
            },
            outcome: self.outcome,
        }
    }
}

/// One login attempt: the secret to answer prompts with, the runner to
/// start, and the phase reached.
#[derive(Debug)]
pub struct AuthSession<'a> {
    pub password: String,
    pub runner: &'a Runner,
    pub phase: Phase,
}

/// An [`AuthSession`] as plain text.
pub struct SessionView {
    pub password: Seq<char>,
    pub runner: RunnerView,
    pub phase: Phase,
}

impl<'a> View for AuthSession<'a> {
    type V = SessionView;

    open spec fn view(&self) -> SessionView {
        SessionView { password: self.password@, runner: self.runner@, phase: self.phase }
    }
}

/// The failure that an error reported by the broker stands for.
pub open spec fn failure_of(error_type: ErrorType) -> LoginFailure {
    match error_type {
        ErrorType::AuthError => LoginFailure::AuthError,
        ErrorType::Error => LoginFailure::Error,
    }
}

/// The answer to a prompt: the password where the broker asks a question,
/// nothing where it only informs.
pub open spec fn answer_to(kind: AuthMessageType, password: Seq<char>) -> Option<Seq<char>> {
    match kind {
        AuthMessageType::Visible | AuthMessageType::Secret => Some(password),
        AuthMessageType::Info | AuthMessageType::Error => None,
    }
}

/// The session a login attempt opens with, and its first step. An attempt
/// with an empty username or password is over before a message is sent.
pub open spec fn opening(username: Seq<char>, password: Seq<char>, runner: RunnerView) -> (
    SessionView,
    StepView,
) {
    if username.len() == 0 || password.len() == 0 {
        let failed = LoginResult::Failure(LoginFailure::MissingFields);
        (
            SessionView { password, runner, phase: Phase::Done(failed) },
            StepView { send: None, outcome: Some(failed) },
        )
    } else {
        (
            SessionView { password, runner, phase: Phase::Authenticating },
            StepView { send: Some(RequestView::CreateSession { username }), outcome: None },
        )
    }
}

/// The transition function of the handshake: the session after `event`
/// and the step it asks for.
pub open spec fn next(session: SessionView, event: EventView) -> (SessionView, StepView) {
    match session.phase {
        Phase::Done(result) => (session, StepView { send: None, outcome: Some(result) }),
        _ => match event {
            EventView::TransportFailure => {
                let failed = LoginResult::Failure(LoginFailure::Error);
                (
                    SessionView { phase: Phase::Done(failed), ..session },
                    StepView { send: None, outcome: Some(failed) },
                )
            },
            EventView::Reply(ResponseView::AuthMessage { auth_message_type, .. }) => (
                session,
                StepView {
                    send: Some(
                        RequestView::PostAuthMessageResponse {
                            response: answer_to(auth_message_type, session.password),
                        },
                    ),
                    outcome: None,
                },
            ),
            EventView::Reply(ResponseView::Success) => if session.phase == Phase::Starting {
                (
                    SessionView { phase: Phase::Done(LoginResult::Success), ..session },
                    StepView { send: None, outcome: Some(LoginResult::Success) },
                )
            } else {
                (
                    SessionView { phase: Phase::Starting, ..session },
                    StepView {
                        send: Some(
                            RequestView::StartSession {
                                cmd: session.runner.run,
                                env: session.runner.env,
                            },
                        ),
                        outcome: None,
                    },
                )
            },
            EventView::Reply(ResponseView::Error { error_type, .. }) => {
                let failed = LoginResult::Failure(failure_of(error_type));
                (
                    SessionView { phase: Phase::Done(failed), ..session },
                    StepView { send: Some(RequestView::CancelSession), outcome: Some(failed) },
                )
            },
        },
    }
}

/// The requests that one step puts on the channel: one or none.
pub open spec fn sent_in(step: StepView) -> Seq<RequestView> {
    match step.send {
        Some(request) => seq![request],
        None => Seq::empty(),
    }
}

/// What was sent during a handshake, and how it ended; `outcome` is `None`
/// where the channel fell silent before the handshake was over.
pub struct TranscriptView {
    pub sent: Seq<RequestView>,
    pub outcome: Option<LoginResult>,
}

/// What a session that stands at `session` still sends, and how it ends,
/// when the channel yields `events` one after the other.
pub open spec fn unfold(session: SessionView, events: Seq<EventView>) -> TranscriptView
    decreases events.len(),
{
    if let Phase::Done(result) = session.phase {
        TranscriptView { sent: Seq::empty(), outcome: Some(result) }
    } else if events.len() == 0 {
        TranscriptView { sent: Seq::empty(), outcome: None }
    } else {
        let (after, step) = next(session, events[0]);
        let rest = unfold(after, events.skip(1));
        TranscriptView { sent: sent_in(step) + rest.sent, outcome: rest.outcome }
    }
}

/// The whole dialogue of one login attempt against a channel that yields
/// `events`: every request in the order sent, and the outcome.
pub open spec fn dialogue(
    username: Seq<char>,
    password: Seq<char>,
    runner: RunnerView,
    events: Seq<EventView>,
) -> TranscriptView {
    let (session, step) = opening(username, password, runner);
    let rest = unfold(session, events);
    TranscriptView { sent: sent_in(step) + rest.sent, outcome: rest.outcome }
}

/// The requests of a list, each as plain text.
pub open spec fn requests_view(requests: Seq<Request>) -> Seq<RequestView> {
    requests.map_values(|request: Request| request@)
}

/// The events of a list, each as plain text.
pub open spec fn events_view(events: Seq<Event>) -> Seq<EventView> {
    events.map_values(|event: Event| event@)
}

/// The record of one handshake.
#[derive(Clone, Debug, PartialEq, Eq)]
pub struct Transcript {
    /// Every request, in the order sent
    pub sent: Vec<Request>,
    /// The outcome, unless the channel fell silent first
    pub outcome: Option<LoginResult>,
}

impl View for Transcript {
    type V = TranscriptView;

    open spec fn view(&self) -> TranscriptView {
        TranscriptView { sent: requests_view(self.sent@), outcome: self.outcome }
    }
}

/// An attempt with an empty username or password sends nothing, whatever
/// the channel would have answered, and fails for want of credentials.
pub proof fn missing_fields_send_nothing(
    username: Seq<char>,
    password: Seq<char>,
    runner: RunnerView,
    events: Seq<EventView>,
)
    requires
        username.len() == 0 || password.len() == 0,
    ensures
        dialogue(username, password, runner, events).sent == Seq::<RequestView>::empty(),
        dialogue(username, password, runner, events).outcome == Some(
            LoginResult::Failure(LoginFailure::MissingFields),
        ),
{
    let (session, step) = opening(username, password, runner);
    assert(sent_in(step) + unfold(session, events).sent =~= Seq::<RequestView>::empty());
}

/// Whether an event is a prompt of the broker.
pub open spec fn is_prompt(event: EventView) -> bool {
    event matches EventView::Reply(ResponseView::AuthMessage { .. })
}

/// Whether the request with index `k` among those that a session at
/// `session` still sends is the due answer to the event with index `k`:
///
/// - no session is asked for: that was done when the attempt was opened;
/// - a prompt is answered with the password if it asks a question, and
///   with nothing if it does not;
/// - the runner's command is handed over on the first acceptance, which
///   only prompts precede;
/// - the session is cancelled on an error of the broker, which ends the
///   handshake with the failure that the error stands for.
pub open spec fn answers(session: SessionView, events: Seq<EventView>, k: int) -> bool {
    let record = unfold(session, events);
    match record.sent[k] {
        RequestView::CreateSession { .. } => false,
        RequestView::PostAuthMessageResponse { response } => {
            &&& events[k] matches EventView::Reply(
                ResponseView::AuthMessage { auth_message_type, .. },
            )
            &&& response == answer_to(auth_message_type, session.password)
        },
        RequestView::StartSession { cmd, env } => {
            &&& session.phase == Phase::Authenticating
            &&& events[k] == EventView::Reply(ResponseView::Success)
            &&& cmd == session.runner.run
            &&& env == session.runner.env
            &&& forall|j: int| 0 <= j < k ==> is_prompt(#[trigger] events[j])
        },
        RequestView::CancelSession => {
            &&& events[k] matches EventView::Reply(ResponseView::Error { error_type, .. })
            &&& k == record.sent.len() - 1
            &&& record.outcome == Some(LoginResult::Failure(failure_of(error_type)))
        },
    }
}

/// A session only ever answers: each request it sends is the due answer
/// to one event, the `k`-th request to the `k`-th event.
pub proof fn session_only_answers(session: SessionView, events: Seq<EventView>, k: int)
    requires
        0 <= k < unfold(session, events).sent.len(),
    ensures
        k < events.len(),
        answers(session, events, k),
    decreases events.len(),
{
    let (after, step) = next(session, events[0]);
    let rest = events.skip(1);
    let later = unfold(after, rest);
    assert(unfold(session, events).sent =~= sent_in(step) + later.sent);
    if k == 0 {
        if step.send is None {
            assert(later.sent.len() > 0);
        }
        assert(unfold(session, events).sent[0] == step.send->0);
        if step.outcome is Some {
            assert(later.sent =~= Seq::<RequestView>::empty());
        }
    } else {
        assert(step.send is Some && step.outcome is None) by {
            if step.outcome is Some {
                assert(later.sent =~= Seq::<RequestView>::empty());
            }
        }
        session_only_answers(after, rest, k - 1);
        assert(unfold(session, events).sent[k] == later.sent[k - 1]);
        assert(rest[k - 1] == events[k]);
        assert(unfold(session, events).outcome == later.outcome);
        if later.sent[k - 1] is StartSession {
            assert forall|j: int| 0 <= j < k implies is_prompt(#[trigger] events[j]) by {
                if j > 0 {
                    assert(rest[j - 1] == events[j]);
                }
            }
        }
    }
}

/// Whether the request with index `k` of a dialogue is due: the first
/// asks for a session for the username, and each later one is the answer
/// to the event before it.
pub open spec fn due(
    username: Seq<char>,
    password: Seq<char>,
    runner: RunnerView,
    events: Seq<EventView>,
    k: int,
) -> bool {
    let record = dialogue(username, password, runner, events);
    match record.sent[k] {
        RequestView::CreateSession { username: name } => k == 0 && name == username,
        RequestView::PostAuthMessageResponse { response } => {
            &&& k >= 1
            &&& events[k - 1] matches EventView::Reply(
                ResponseView::AuthMessage { auth_message_type, .. },
            )
            &&& response == answer_to(auth_message_type, password)
        },
        RequestView::StartSession { cmd, env } => {
            &&& k >= 1
            &&& events[k - 1] == EventView::Reply(ResponseView::Success)
            &&& cmd == runner.run
            &&& env == runner.env
            &&& forall|j: int| 0 <= j < k - 1 ==> is_prompt(#[trigger] events[j])
        },
        RequestView::CancelSession => {
            &&& k >= 1
            &&& events[k - 1] matches EventView::Reply(ResponseView::Error { error_type, .. })
            &&& k == record.sent.len() - 1
            &&& record.outcome == Some(LoginResult::Failure(failure_of(error_type)))
        },
    }
}

/// The order of the protocol. A dialogue opens with the request for a
/// session; after that one request is in flight at a time, and each is the
/// answer to what came back for the one before. The password goes out only
/// where the broker asks a question. The runner's command is handed over
/// only on the broker's first acceptance, with nothing but prompts before
/// it. A cancellation follows only an error of the broker, and is the last
/// thing sent.
pub proof fn protocol_order(
    username: Seq<char>,
    password: Seq<char>,
    runner: RunnerView,
    events: Seq<EventView>,
    k: int,
)
    requires
        0 <= k < dialogue(username, password, runner, events).sent.len(),
    ensures
        k <= events.len(),
        due(username, password, runner, events, k),
{
    let (session, step) = opening(username, password, runner);
    let later = unfold(session, events);
    let record = dialogue(username, password, runner, events);
    assert(record.sent =~= sent_in(step) + later.sent);
    if step.send is None {
        assert(later.sent =~= Seq::<RequestView>::empty());
    } else if k > 0 {
        session_only_answers(session, events, k - 1);
        assert(record.sent[k] == later.sent[k - 1]);
    }
}

/// A login succeeds only after the broker accepted twice: the runner's
/// command was handed over on the first acceptance, and the last event
/// taken, which nothing was sent after, is the second.
pub proof fn success_is_earned(
    username: Seq<char>,
    password: Seq<char>,
    runner: RunnerView,
    events: Seq<EventView>,
)
    requires
        dialogue(username, password, runner, events).outcome == Some(LoginResult::Success),
    ensures
        ({
            let sent = dialogue(username, password, runner, events).sent;
            &&& 2 <= sent.len() <= events.len()
            &&& events[sent.len() - 1] == EventView::Reply(ResponseView::Success)
            &&& exists|k: int| 1 <= k < sent.len() && #[trigger] sent[k] is StartSession
        }),
{
    let (session, step) = opening(username, password, runner);
    let later = unfold(session, events);
    let record = dialogue(username, password, runner, events);
    assert(record.sent =~= sent_in(step) + later.sent);
    session_success(session, events);
    let k = choose|k: int| 0 <= k < later.sent.len() && #[trigger] later.sent[k] is StartSession;
    assert(record.sent[k + 1] == later.sent[k]);
}

/// A session that ends in success has taken the broker's last acceptance
/// as the event after its last request and, unless the command had been
/// handed over before, hands it over on the way.
pub proof fn session_success(session: SessionView, events: Seq<EventView>)
    requires
        !(session.phase is Done),
        unfold(session, events).outcome == Some(LoginResult::Success),
    ensures
        ({
            let sent = unfold(session, events).sent;
            &&& sent.len() < events.len()
            &&& events[sent.len() as int] == EventView::Reply(ResponseView::Success)
            &&& session.phase == Phase::Authenticating ==> exists|k: int|
                0 <= k < sent.len() && #[trigger] sent[k] is StartSession
        }),
    decreases events.len(),
{
    let (after, step) = next(session, events[0]);
    let rest = events.skip(1);
    let later = unfold(after, rest);
    let sent = unfold(session, events).sent;
    assert(sent =~= sent_in(step) + later.sent);
    if after.phase is Done {
        assert(later.sent =~= Seq::<RequestView>::empty());
    } else {
        session_success(after, rest);
        assert(rest[later.sent.len() as int] == events[later.sent.len() as int + 1]);
        if session.phase == Phase::Authenticating {
            if after.phase == Phase::Authenticating {
                let k = choose|k: int|
                    0 <= k < later.sent.len() && #[trigger] later.sent[k] is StartSession;
                assert(sent[k + 1] == later.sent[k]);
            } else {
                assert(sent[0] is StartSession);
            }
        }
    }
}

/// Through prompts a session keeps its phase: it answers each and then
/// goes on as if it had started behind them.
pub proof fn prompts_pass(session: SessionView, events: Seq<EventView>, n: int)
    requires
        !(session.phase is Done),
        0 <= n <= events.len(),
        forall|j: int| 0 <= j < n ==> is_prompt(#[trigger] events[j]),
    ensures
        unfold(session, events).outcome == unfold(session, events.skip(n)).outcome,
        unfold(session, events).sent.len() == n + unfold(session, events.skip(n)).sent.len(),
    decreases n,
{
    if n == 0 {
        assert(events.skip(0) =~= events);
    } else {
        let rest = events.skip(1);
        assert(is_prompt(events[0]));
        assert(next(session, events[0]).0 == session);
        assert forall|j: int| 0 <= j < n - 1 implies is_prompt(#[trigger] rest[j]) by {
            assert(rest[j] == events[j + 1]);
        }
        prompts_pass(session, rest, n - 1);
        assert(rest.skip(n - 1) =~= events.skip(n));
    }
}

/// A login succeeds whenever the broker accepts twice and sends nothing
/// but prompts before and between: the first acceptance is answered with
/// the runner's command, the second ends the handshake, and nothing is sent
/// after it.
pub proof fn accepted_login_succeeds(
    username: Seq<char>,
    password: Seq<char>,
    runner: RunnerView,
    events: Seq<EventView>,
    first: int,
    second: int,
)
    requires
        username.len() > 0,
        password.len() > 0,
        0 <= first < second < events.len(),
        events[first] == EventView::Reply(ResponseView::Success),
        events[second] == EventView::Reply(ResponseView::Success),
        forall|j: int| 0 <= j < second && j != first ==> is_prompt(#[trigger] events[j]),
    ensures
        dialogue(username, password, runner, events).outcome == Some(LoginResult::Success),
        dialogue(username, password, runner, events).sent.len() == second + 1,
{
    let (session, step) = opening(username, password, runner);
    prompts_pass(session, events, first);
    let from_first = events.skip(first);
    assert(from_first[0] == events[first]);
    let (starting, start) = next(session, from_first[0]);
    let behind = from_first.skip(1);
    assert forall|j: int| 0 <= j < second - first - 1 implies is_prompt(#[trigger] behind[j]) by {
        assert(behind[j] == events[first + 1 + j]);
    }
    prompts_pass(starting, behind, second - first - 1);
    let from_second = behind.skip(second - first - 1);
    assert(from_second[0] == events[second]);
    let (done, last) = next(starting, from_second[0]);
    assert(unfold(done, from_second.skip(1)).sent =~= Seq::<RequestView>::empty());
    assert(unfold(starting, from_second).sent.len() == 0);
    assert(unfold(session, from_first).sent.len() == 1 + unfold(starting, behind).sent.len());
}

impl<'a> AuthSession<'a> {
    /// Opens a login attempt. With an empty username or password the
    /// attempt ends at once with `MissingFields` and nothing to send;
    /// otherwise the first request asks the broker for a session.
    pub fn begin(username: String, password: String, runner: &'a Runner) -> (r: (Self, Step))
        ensures
            (r.0@, r.1@) == opening(username@, password@, runner@),
    {
        if username.as_str().is_empty() || password.as_str().is_empty() {
            let failed = LoginResult::Failure(LoginFailure::MissingFields);
            (
                AuthSession { password, runner, phase: Phase::Done(failed) },
                Step { send: None, outcome: Some(failed) },
            )
        } else {
            (
                AuthSession { password, runner, phase: Phase::Authenticating },
                Step { send: Some(Request::CreateSession { username }), outcome: None },
            )
        }
    }

    /// Takes what came back from the channel and says what to do next.
    pub fn step(&mut self, event: &Event) -> (step: Step)
        ensures
            (final(self)@, step@) == next(old(self)@, event@),
    {
        if let Phase::Done(result) = self.phase {
            return Step { send: None, outcome: Some(result) };
        }
        match event {
            Event::TransportFailure => {
                let failed = LoginResult::Failure(LoginFailure::Error);
                self.phase = Phase::Done(failed);
                Step { send: None, outcome: Some(failed) }
            },
            Event::Reply(Response::AuthMessage { auth_message_type, .. }) => {
                let response = match auth_message_type {
                    AuthMessageType::Visible | AuthMessageType::Secret => Some(
                        self.password.clone(),
                    ),
                    AuthMessageType::Info | AuthMessageType::Error => None,
                };
                Step { send: Some(Request::PostAuthMessageResponse { response }), outcome: None }
            },
            Event::Reply(Response::Success) => {
                if self.phase == Phase::Starting {
                    self.phase = Phase::Done(LoginResult::Success);
                    Step { send: None, outcome: Some(LoginResult::Success) }
                } else {
                    self.phase = Phase::Starting;
                    let cmd = copy_strings(&self.runner.run);
                    let env = copy_strings(&self.runner.env);
                    Step { send: Some(Request::StartSession { cmd, env }), outcome: None }
                }
            },
            Event::Reply(Response::Error { error_type, .. }) => {
                let failure = match error_type {
                    ErrorType::AuthError => LoginFailure::AuthError,
                    ErrorType::Error => LoginFailure::Error,
                };
                let failed = LoginResult::Failure(failure);
                self.phase = Phase::Done(failed);
                Step { send: Some(Request::CancelSession), outcome: Some(failed) }
            },
        }
    }

    /// Plays one login attempt against a recorded channel: `events` holds
    /// what comes back after each request, in order. Events that follow the
    /// end of the handshake are not looked at.
    pub fn replay(username: String, password: String, runner: &'a Runner, events: &Vec<Event>) -> (record: Transcript)
        ensures
            record@ == dialogue(username@, password@, runner@, events_view(events@)),
    {
        let ghost script = events_view(events@);
        let ghost whole = dialogue(username@, password@, runner@, script);
        let (mut session, first) = AuthSession::begin(username, password, runner);
        let mut sent: Vec<Request> = Vec::new();
        let mut outcome = first.outcome;
        if let Some(request) = first.send {
            sent.push(request);
        }
        assert(requests_view(sent@) =~= sent_in(first@));
        assert(script.skip(0) =~= script);
        let mut i: usize = 0;
        while i < events.len() && outcome.is_none()
            invariant
                i <= events.len(),
                script == events_view(events@),
                whole.sent == requests_view(sent@) + unfold(session@, script.skip(i as int)).sent,
                whole.outcome == unfold(session@, script.skip(i as int)).outcome,
                match outcome {
                    Some(result) => session.phase == Phase::Done(result),
                    None => !(session.phase is Done),
                },
            decreases events.len() - i,
        {
            let ghost before = session@;
            let ghost so_far = requests_view(sent@);
            let step = session.step(&events[i]);
            proof {
                let rest = script.skip(i as int);
                assert(rest[0] == events[i as int]@);
                assert(rest.skip(1) =~= script.skip(i + 1));
            }
            outcome = step.outcome;
            if let Some(request) = step.send {
                sent.push(request);
            }
            proof {
                assert(requests_view(sent@) =~= so_far + sent_in(step@));
                assert(whole.sent =~= requests_view(sent@) + unfold(
                    session@,
                    script.skip(i + 1),
                ).sent);
            }
            i = i + 1;
        }
        proof {
            assert(whole.sent =~= requests_view(sent@));
        }
        Transcript { sent, outcome }
    }
}

} // verus!
