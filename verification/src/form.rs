//! The rules of the login form: what must hold before it is shown, what a
//! submission does with the values of its fields, and which fields are
//! marked when an attempt fails.

use vstd::prelude::*;
use crate::config::{runner_shown_as, Config, Runner};
use crate::login::{
    dialogue,
    events_view,
    requests_view,
    AuthSession,
    Event,
    EventView,
    LoginFailure,
    LoginResult,
    Phase,
    Request,
    RequestView,
    SessionView,
};
use crate::table::{deref_of, lookup};
use crate::text::text_of;
use crate::resolve::{
    conflicts_view,
    first_of,
    left_out,
    prune,
    resolve,
    slots_of,
    Resolution,
    Role,
    Slots,
    SlotsView,
};

verus! {

/// Why a configuration cannot be turned into a login form.
#[derive(Clone, Copy, Debug, PartialEq, Eq, Structural)]
pub enum ConfigError {
    /// The layout holds no password field
    NoPassword,
    /// The layout holds no runner selector and no default runner is configured
    NoRunner,
    /// The layout holds no username field and no default username is configured
    NoUsername,
}

/// Whether a form with these slots can be shown: it needs a password
/// field, and for the runner and the username either a field or a default.
/// Of several things missing, the first in that order is reported.
pub open spec fn startup_check(slots: SlotsView, config: &Config) -> Result<(), ConfigError> {
    if slots.password is None {
        Err(ConfigError::NoPassword)
    } else if slots.runner is None && config.default_runner is None {
        Err(ConfigError::NoRunner)
    } else if slots.username is None && config.username is None {
        Err(ConfigError::NoUsername)
    } else {
        Ok(())
    }
}

/// Checks that a form with these slots can be shown.
pub fn check_startup(slots: &Slots, config: &Config) -> (r: Result<(), ConfigError>)
    ensures
        r == startup_check(slots@, config),
        slots.runner is None && config.default_runner is None ==> r is Err,
{
    if slots.password.is_none() {
        Err(ConfigError::NoPassword)
    } else if slots.runner.is_none() && config.default_runner.is_none() {
        Err(ConfigError::NoRunner)
    } else if slots.username.is_none() && config.username.is_none() {
        Err(ConfigError::NoUsername)
    } else {
        Ok(())
    }
}

/// Resolves the layout of a configuration and checks that the form can be
/// shown. On success what the walk yielded is returned.
pub fn startup<'a>(config: &'a Config) -> (r: Result<Resolution<'a>, ConfigError>)
    requires
        config.layout.size() <= usize::MAX,
    ensures
        match r {
            Ok(resolution) => {
                &&& startup_check(slots_of(config.layout.roles()), config) is Ok
                &&& Some(resolution.rendered@) == prune(config.layout, 0, config.layout.roles())
                &&& resolution.slots@ == slots_of(config.layout.roles())
                &&& conflicts_view(resolution.conflicts@) == left_out(
                    config.layout.roles(),
                    0,
                    config.layout.size() as int,
                )
            },
            Err(error) => startup_check(slots_of(config.layout.roles()), config) == Err::<
                (),
                ConfigError,
            >(error),
        },
        first_of(config.layout.roles(), Role::Runner) is None && config.default_runner is None
            ==> r is Err,
{
    let resolution = resolve(&config.layout);
    match check_startup(&resolution.slots, config) {
        Ok(()) => Ok(resolution),
        Err(error) => Err(error),
    }
}

/// The names that the runner selector offers: the display name of each
/// runner, in the order held.
pub open spec fn options_of(runners: Seq<(String, Runner)>) -> Seq<Seq<char>> {
    runners.map_values(|entry: (String, Runner)| entry.1.display_name@)
}

/// Whether `index` is the option that the runner selector shows at first:
/// the first option that reads as the default runner does, and the first
/// of all where none does or no default is configured.
pub open spec fn preselects(options: Seq<Seq<char>>, wanted: Option<Seq<char>>, index: int) -> bool {
    match wanted {
        Some(wanted) => {
            ||| {
                &&& 0 <= index < options.len()
                &&& options[index] == wanted
                &&& forall|j: int| 0 <= j < index ==> options[j] != wanted
            }
            ||| {
                &&& index == 0
                &&& forall|j: int| 0 <= j < options.len() ==> options[j] != wanted
            }
        },
        None => index == 0,
    }
}

/// Lists the names that the runner selector offers.
pub fn runner_options(config: &Config) -> (options: Vec<String>)
    ensures
        options.deep_view() == options_of(config.runners@),
{
    let mut options: Vec<String> = Vec::new();
    let mut i: usize = 0;
    while i < config.runners.len()
        invariant
            i <= config.runners.len(),
            options@.len() == i,
            forall|j: int| 0 <= j < i ==> options@[j]@ == config.runners@[j].1.display_name@,
        decreases config.runners.len() - i,
    {
        options.push(config.runners[i].1.display_name.clone());
        i = i + 1;
    }
    assert(options.deep_view() =~= options_of(config.runners@));
    options
}

/// Finds the option that the runner selector shows at first.
pub fn preselected(options: &Vec<String>, default_runner: &Option<String>) -> (index: usize)
    ensures
        preselects(options.deep_view(), text_of(*default_runner), index as int),
{
    match default_runner {
        Some(wanted) => {
            let mut i: usize = 0;
            while i < options.len()
                invariant
                    i <= options.len(),
                    *default_runner == Some(*wanted),
                    forall|j: int| 0 <= j < i ==> options.deep_view()[j] != wanted@,
                decreases options.len() - i,
            {
                assert(options.deep_view().len() == options@.len());
                assert(options.deep_view()[i as int] == options@[i as int]@);
                if options[i] == *wanted {
                    return i;
                }
                i = i + 1;
            }
            assert(options.deep_view().len() == options@.len());
            0
        },
        None => 0,
    }
}

/// What the fields of the form hold at the moment of a submission.
#[derive(Clone, Debug, PartialEq, Eq)]
pub struct FieldValues {
    /// Text of the username field; not looked at where the form has none
    pub username: String,
    /// Text of the password field
    pub password: String,
    /// Display name selected in the runner selector, if one is selected;
    /// not looked at where the form has no selector
    pub selection: Option<String>,
}

/// [`FieldValues`] as plain text.
pub struct FieldValuesView {
    pub username: Seq<char>,
    pub password: Seq<char>,
    pub selection: Option<Seq<char>>,
}

impl View for FieldValues {
    type V = FieldValuesView;

    open spec fn view(&self) -> FieldValuesView {
        FieldValuesView {
            username: self.username@,
            password: self.password@,
            selection: text_of(self.selection),
        }
    }
}

/// How a submission ended.
#[derive(Clone, Copy, Debug, PartialEq, Eq, Structural)]
pub enum SubmissionOutcome {
    /// The session was started
    Success,
    /// The attempt failed
    Failure(LoginFailure),
    /// No runner could be made out, so nothing was attempted
    NoRunnerAvailable,
}

/// The runner a submission starts: with a selector in the form, the
/// runner shown under the selected name; without one, the default runner.
pub open spec fn chosen_runner(slots: SlotsView, config: &Config, values: FieldValuesView) -> Option<
    Runner,
> {
    if slots.runner is Some {
        match values.selection {
            Some(display_name) => runner_shown_as(config.runners@, display_name),
            None => None,
        }
    } else {
        match config.default_runner {
            Some(name) => lookup(config.runners@, name@),
            None => None,
        }
    }
}

/// The username a submission logs in: with a username field in the form,
/// its text; without one, the default username, and nothing where there is
/// none.
pub open spec fn chosen_username(slots: SlotsView, config: &Config, values: FieldValuesView) -> Seq<
    char,
> {
    if slots.username is Some {
        values.username
    } else {
        match config.username {
            Some(username) => username@,
            None => Seq::empty(),
        }
    }
}

/// What a submission leads to before anything is sent: the reason it is
/// turned down, or nothing where a handshake is due.
pub open spec fn refusal(slots: SlotsView, config: &Config, values: FieldValuesView) -> Option<
    SubmissionOutcome,
> {
    if chosen_runner(slots, config, values) is None {
        Some(SubmissionOutcome::NoRunnerAvailable)
    } else if chosen_username(slots, config, values).len() == 0 || values.password.len() == 0 {
        Some(SubmissionOutcome::Failure(LoginFailure::MissingFields))
    } else {
        None
    }
}

/// What a submission leads to: it is turned down, or a handshake starts.
#[derive(Debug)]
pub enum Submission<'a> {
    /// Nothing is sent; the outcome stands
    Rejected(SubmissionOutcome),
    /// A handshake starts: `first` is to be sent, `session` takes what comes back
    Started { session: AuthSession<'a>, first: Request },
}

/// A [`Submission`] as plain text.
pub enum SubmissionView {
    Rejected(SubmissionOutcome),
    Started { session: SessionView, first: RequestView },
}

impl<'a> View for Submission<'a> {
    type V = SubmissionView;

    open spec fn view(&self) -> SubmissionView {
        match self {
            Submission::Rejected(outcome) => SubmissionView::Rejected(*outcome),
            Submission::Started { session, first } => SubmissionView::Started {
                session: session@,
                first: first@,
            },
        }
    }
}

/// What a submission leads to, gate by gate: without a runner it is
/// turned down; with an empty username or password it is turned down; else
/// a session is opened for the username, with the password and the runner.
pub open spec fn submission(slots: SlotsView, config: &Config, values: FieldValuesView) -> SubmissionView {
    match refusal(slots, config, values) {
        Some(outcome) => SubmissionView::Rejected(outcome),
        None => SubmissionView::Started {
            session: SessionView {
                password: values.password,
                runner: chosen_runner(slots, config, values)->0@,
                phase: Phase::Authenticating,
            },
            first: RequestView::CreateSession {
                username: chosen_username(slots, config, values),
            },
        },
    }
}

/// The outcome of a submission whose handshake ended with `result`.
pub open spec fn outcome_of(result: LoginResult) -> SubmissionOutcome {
    match result {
        LoginResult::Success => SubmissionOutcome::Success,
        LoginResult::Failure(failure) => SubmissionOutcome::Failure(failure),
    }
}

/// Which fields are marked as faulty.
#[derive(Clone, Copy, Debug, PartialEq, Eq, Structural)]
pub struct Marks {
    pub username: bool,
    pub password: bool,
}

/// The fields to mark after a submission. Where credentials were missing,
/// the password field if it was empty, and else the username field. Where
/// the attempt failed otherwise, both. A form without a username field has
/// none to mark.
pub open spec fn marks_for(outcome: SubmissionOutcome, slots: SlotsView, values: FieldValuesView) -> Marks {
    match outcome {
        SubmissionOutcome::Failure(LoginFailure::MissingFields) => if values.password.len() == 0 {
            Marks { username: false, password: true }
        } else {
            Marks { username: slots.username is Some, password: false }
        },
        SubmissionOutcome::Failure(_) => Marks { username: slots.username is Some, password: true },
        _ => Marks { username: false, password: false },
    }
}

/// Everything a submission does, against a channel that yields `events`:
/// what is sent, how it ends, and which fields are marked. One that is
/// turned down sends nothing.
pub struct AttemptView {
    pub sent: Seq<RequestView>,
    pub outcome: Option<SubmissionOutcome>,
    pub marks: Marks,
}

/// The course of a submission against a channel that yields `events`.
pub open spec fn attempt_of(
    slots: SlotsView,
    config: &Config,
    values: FieldValuesView,
    events: Seq<EventView>,
) -> AttemptView {
    match refusal(slots, config, values) {
        Some(outcome) => AttemptView {
            sent: Seq::empty(),
            outcome: Some(outcome),
            marks: marks_for(outcome, slots, values),
        },
        None => {
            let record = dialogue(
                chosen_username(slots, config, values),
                values.password,
                chosen_runner(slots, config, values)->0@,
                events,
            );
            match record.outcome {
                Some(result) => AttemptView {
                    sent: record.sent,
                    outcome: Some(outcome_of(result)),
                    marks: marks_for(outcome_of(result), slots, values),
                },
                None => AttemptView {
                    sent: record.sent,
                    outcome: None,
                    marks: Marks { username: false, password: false },
                },
            }
        },
    }
}

/// The record of one submission.
#[derive(Clone, Debug, PartialEq, Eq)]
pub struct Attempt {
    /// Every request, in the order sent
    pub sent: Vec<Request>,
    /// The outcome, unless the channel fell silent first
    pub outcome: Option<SubmissionOutcome>,
    /// The fields to mark
    pub marks: Marks,
}

impl View for Attempt {
    type V = AttemptView;

    open spec fn view(&self) -> AttemptView {
        AttemptView { sent: requests_view(self.sent@), outcome: self.outcome, marks: self.marks }
    }
}

impl SubmissionOutcome {
    /// The outcome of a submission whose handshake ended with `result`.
    pub fn from_login(result: LoginResult) -> (outcome: SubmissionOutcome)
        ensures
            outcome == outcome_of(result),
    {
        match result {
            LoginResult::Success => SubmissionOutcome::Success,
            LoginResult::Failure(failure) => SubmissionOutcome::Failure(failure),
        }
    }
}

/// Makes out the runner of a submission.
pub fn choose_runner<'a>(slots: &Slots, config: &'a Config, values: &FieldValues) -> (found: Option<
    &'a Runner,
>)
    ensures
        deref_of(found) == chosen_runner(slots@, config, values@),
{
    if slots.runner.is_some() {
        match &values.selection {
            Some(display_name) => config.runner_by_display_name(display_name),
            None => None,
        }
    } else {
        match &config.default_runner {
            Some(name) => config.runner(name),
            None => None,
        }
    }
}

/// Makes out the username of a submission.
pub fn choose_username(slots: &Slots, config: &Config, values: &FieldValues) -> (username: String)
    ensures
        username@ == chosen_username(slots@, config, values@),
{
    if slots.username.is_some() {
        values.username.clone()
    } else {
        match &config.username {
            Some(username) => username.clone(),
            None => String::new(),
        }
    }
}

/// Takes a submission through its gates. The runner is made out first,
/// then username and password are checked; only if both gates pass is a
/// session opened and the first request handed back.
pub fn submit<'a>(slots: &Slots, config: &'a Config, values: &FieldValues) -> (r: Submission<'a>)
    ensures
        r@ == submission(slots@, config, values@),
        values.password@.len() == 0 && chosen_runner(slots@, config, values@) is Some ==> r@
            == SubmissionView::Rejected(SubmissionOutcome::Failure(LoginFailure::MissingFields)),
        slots.runner is None && config.default_runner is None ==> r@ == SubmissionView::Rejected(
            SubmissionOutcome::NoRunnerAvailable,
        ),
{
    let runner = match choose_runner(slots, config, values) {
        Some(runner) => runner,
        None => {
            return Submission::Rejected(SubmissionOutcome::NoRunnerAvailable);
        },
    };
    let username = choose_username(slots, config, values);
    let (session, step) = AuthSession::begin(username, values.password.clone(), runner);
    match step.send {
        Some(first) => Submission::Started { session, first },
        None => Submission::Rejected(SubmissionOutcome::Failure(LoginFailure::MissingFields)),
    }
}

/// Says which fields to mark after a submission.
pub fn marks(outcome: SubmissionOutcome, slots: &Slots, values: &FieldValues) -> (r: Marks)
    ensures
        r == marks_for(outcome, slots@, values@),
{
    match outcome {
        SubmissionOutcome::Failure(LoginFailure::MissingFields) => {
            if values.password.as_str().is_empty() {
                Marks { username: false, password: true }
            } else {
                Marks { username: slots.username.is_some(), password: false }
            }
        },
        SubmissionOutcome::Failure(_) => Marks {
            username: slots.username.is_some(),
            password: true,
        },
        _ => Marks { username: false, password: false },
    }
}

/// Plays a whole submission against a recorded channel: `events` holds
/// what comes back after each request, in order.
pub fn attempt(slots: &Slots, config: &Config, values: &FieldValues, events: &Vec<Event>) -> (r:
    Attempt)
    ensures
        r@ == attempt_of(slots@, config, values@, events_view(events@)),
        values.password@.len() == 0 && chosen_runner(slots@, config, values@) is Some ==> {
            &&& r@.sent == Seq::<RequestView>::empty()
            &&& r.outcome == Some(SubmissionOutcome::Failure(LoginFailure::MissingFields))
        },
{
    let runner = match choose_runner(slots, config, values) {
        Some(runner) => runner,
        None => {
            let outcome = SubmissionOutcome::NoRunnerAvailable;
            let r = Attempt {
                sent: Vec::new(),
                outcome: Some(outcome),
                marks: marks(outcome, slots, values),
            };
            assert(r@.sent =~= Seq::<RequestView>::empty());
            return r;
        },
    };
    let username = choose_username(slots, config, values);
    proof {
        if username@.len() == 0 || values.password@.len() == 0 {
            crate::login::missing_fields_send_nothing(
                username@,
                values.password@,
                runner@,
                events_view(events@),
            );
        }
    }
    let record = AuthSession::replay(username, values.password.clone(), runner, events);
    match record.outcome {
        Some(result) => {
            let outcome = SubmissionOutcome::from_login(result);
            Attempt { sent: record.sent, outcome: Some(outcome), marks: marks(outcome, slots, values) }
        },
        None => Attempt {
            sent: record.sent,
            outcome: None,
            marks: Marks { username: false, password: false },
        },
    }
}

} // verus!
