use sali::components::{
    BoxComponent, Component, LabelComponent, PasswordComponent, RunnerComponent,
    UsernameComponent,
};
use sali::config::{Config, Runner};
use sali::form::{
    attempt, check_startup, choose_runner, choose_username, marks, preselected, runner_options,
    startup, submit, ConfigError, FieldValues, Marks, Submission, SubmissionOutcome,
};
use sali::login::{
    AuthMessageType, ErrorType, Event, LoginFailure, LoginResult, Phase, Request, Response,
};
use sali::resolve::Slots;

fn named(name: &str, display_name: &str, command: &str) -> (String, Runner) {
    (
        name.to_string(),
        Runner {
            display_name: display_name.to_string(),
            run: vec![command.to_string()],
            env: vec![format!("SESSION={}", name)],
        },
    )
}

fn config() -> Config {
    let mut config = Config::default();
    config.runners = vec![named("hypr", "Hyprland", "Hyprland"), named("sway", "Sway", "sway")];
    config.default_runner = Some("sway".to_string());
    config.username = Some("greeter".to_string());
    config
}

fn all_slots() -> Slots {
    Slots { username: Some(2), password: Some(3), runner: Some(4) }
}

fn only_password() -> Slots {
    Slots { username: None, password: Some(1), runner: None }
}

fn values(username: &str, password: &str, selection: Option<&str>) -> FieldValues {
    FieldValues {
        username: username.to_string(),
        password: password.to_string(),
        selection: selection.map(|s| s.to_string()),
    }
}

fn container(children: Vec<Component>) -> Component {
    Component::Box(BoxComponent { children, ..BoxComponent::default() })
}

#[test]
fn empty_password_is_turned_down_before_anything_is_sent() {
    let config = config();
    let given = values("alice", "", Some("Sway"));
    match submit(&all_slots(), &config, &given) {
        Submission::Rejected(outcome) => {
            assert_eq!(outcome, SubmissionOutcome::Failure(LoginFailure::MissingFields))
        }
        Submission::Started { .. } => panic!("nothing may be started"),
    }
    let record = attempt(&all_slots(), &config, &given, &vec![Event::Reply(Response::Success)]);
    assert_eq!(record.sent, Vec::<Request>::new());
    assert_eq!(record.outcome, Some(SubmissionOutcome::Failure(LoginFailure::MissingFields)));
    assert_eq!(record.marks, Marks { username: false, password: true });
}

#[test]
fn empty_username_is_turned_down_and_marked() {
    let config = config();
    let given = values("", "pw", Some("Sway"));
    let record = attempt(&all_slots(), &config, &given, &vec![]);
    assert_eq!(record.sent, Vec::<Request>::new());
    assert_eq!(record.outcome, Some(SubmissionOutcome::Failure(LoginFailure::MissingFields)));
    assert_eq!(record.marks, Marks { username: true, password: false });
}

#[test]
fn both_fields_empty_mark_the_password_only() {
    let config = config();
    let given = values("", "", Some("Sway"));
    let record = attempt(&all_slots(), &config, &given, &vec![]);
    assert_eq!(record.outcome, Some(SubmissionOutcome::Failure(LoginFailure::MissingFields)));
    assert_eq!(record.marks, Marks { username: false, password: true });
}

#[test]
fn startup_fails_without_a_runner_and_no_submission_starts_a_session() {
    let mut config = config();
    config.default_runner = None;
    config.layout = container(vec![
        Component::Username(UsernameComponent::default()),
        Component::Password(PasswordComponent::default()),
    ]);
    assert_eq!(startup(&config).err(), Some(ConfigError::NoRunner));

    let slots = Slots { username: Some(1), password: Some(2), runner: None };
    assert_eq!(check_startup(&slots, &config), Err(ConfigError::NoRunner));
    let given = values("alice", "pw", None);
    assert!(matches!(
        submit(&slots, &config, &given),
        Submission::Rejected(SubmissionOutcome::NoRunnerAvailable)
    ));
    let record = attempt(&slots, &config, &given, &vec![Event::Reply(Response::Success)]);
    assert_eq!(record.sent, Vec::<Request>::new());
    assert_eq!(record.outcome, Some(SubmissionOutcome::NoRunnerAvailable));
    assert_eq!(record.marks, Marks { username: false, password: false });
}

#[test]
fn startup_reports_the_first_thing_missing() {
    let mut bare = Config::default();
    bare.layout = container(vec![Component::Label(LabelComponent::default())]);
    assert_eq!(startup(&bare).err(), Some(ConfigError::NoPassword));

    bare.layout = container(vec![Component::Password(PasswordComponent::default())]);
    assert_eq!(startup(&bare).err(), Some(ConfigError::NoRunner));

    bare.default_runner = Some("sway".to_string());
    assert_eq!(startup(&bare).err(), Some(ConfigError::NoUsername));

    bare.username = Some("greeter".to_string());
    let resolution = startup(&bare).expect("the form can be shown");
    assert_eq!(resolution.slots, Slots { username: None, password: Some(1), runner: None });
    assert_eq!(resolution.rendered.id, 0);
    assert_eq!(resolution.rendered.children.len(), 1);
    assert!(resolution.conflicts.is_empty());
}

#[test]
fn startup_accepts_fields_in_place_of_defaults() {
    let mut config = Config::default();
    config.layout = container(vec![
        Component::Runner(RunnerComponent::default()),
        Component::Password(PasswordComponent::default()),
        Component::Username(UsernameComponent::default()),
    ]);
    let resolution = startup(&config).expect("the form can be shown");
    assert_eq!(resolution.slots, Slots { username: Some(3), password: Some(2), runner: Some(1) });
}

#[test]
fn startup_accepts_the_default_layout() {
    let config = Config::default();
    let resolution = startup(&config).expect("the default layout holds every field");
    assert_eq!(resolution.slots, Slots { username: Some(2), password: Some(3), runner: Some(4) });
    assert_eq!(resolution.rendered.children.len(), 4);
}

#[test]
fn check_startup_names_each_error() {
    let config = config();
    let mut bare = Config::default();
    bare.layout = container(vec![]);
    assert_eq!(
        check_startup(&Slots { username: Some(1), password: None, runner: Some(2) }, &config),
        Err(ConfigError::NoPassword)
    );
    assert_eq!(check_startup(&only_password(), &bare), Err(ConfigError::NoRunner));
    assert_eq!(
        check_startup(&Slots { username: None, password: Some(1), runner: Some(2) }, &bare),
        Err(ConfigError::NoUsername)
    );
    assert_eq!(check_startup(&only_password(), &config), Ok(()));
    assert_eq!(check_startup(&all_slots(), &bare), Ok(()));
}

#[test]
fn selected_runner_is_looked_up_by_display_name() {
    let config = config();
    let given = values("alice", "pw", Some("Hyprland"));
    let runner = choose_runner(&all_slots(), &config, &given).expect("the runner exists");
    assert_eq!(runner.run, vec!["Hyprland".to_string()]);
    assert!(choose_runner(&all_slots(), &config, &values("a", "b", Some("hypr"))).is_none());
    assert!(choose_runner(&all_slots(), &config, &values("a", "b", None)).is_none());
}

#[test]
fn default_runner_is_looked_up_by_name() {
    let mut config = config();
    let given = values("alice", "pw", Some("Hyprland"));
    let runner = choose_runner(&only_password(), &config, &given).expect("the runner exists");
    assert_eq!(runner.display_name, "Sway");
    config.default_runner = Some("Sway".to_string());
    assert!(choose_runner(&only_password(), &config, &given).is_none());
    config.default_runner = None;
    assert!(choose_runner(&only_password(), &config, &given).is_none());
}

#[test]
fn first_runner_shown_under_a_name_wins() {
    let mut config = config();
    config.runners.push(named("sway-debug", "Sway", "sway -d"));
    let given = values("alice", "pw", Some("Sway"));
    let runner = choose_runner(&all_slots(), &config, &given).expect("the runner exists");
    assert_eq!(runner.run, vec!["sway".to_string()]);
}

#[test]
fn username_comes_from_the_field_or_the_default() {
    let config = config();
    let given = values("alice", "pw", None);
    assert_eq!(choose_username(&all_slots(), &config, &given), "alice");
    assert_eq!(choose_username(&only_password(), &config, &given), "greeter");
    assert_eq!(choose_username(&only_password(), &Config::default(), &given), "");
    assert_eq!(choose_username(&all_slots(), &config, &values("", "pw", None)), "");
}

#[test]
fn unknown_runner_is_no_runner_available() {
    let config = config();
    let given = values("alice", "pw", Some("Gnome"));
    assert!(matches!(
        submit(&all_slots(), &config, &given),
        Submission::Rejected(SubmissionOutcome::NoRunnerAvailable)
    ));
    // the runner gate comes before the credentials gate
    let given = values("", "", Some("Gnome"));
    assert!(matches!(
        submit(&all_slots(), &config, &given),
        Submission::Rejected(SubmissionOutcome::NoRunnerAvailable)
    ));
}

#[test]
fn a_complete_submission_opens_a_session() {
    let config = config();
    let given = values("alice", "pw", Some("Hyprland"));
    match submit(&all_slots(), &config, &given) {
        Submission::Started { session, first } => {
            assert_eq!(first, Request::CreateSession { username: "alice".to_string() });
            assert_eq!(session.phase, Phase::Authenticating);
            assert_eq!(session.password, "pw");
            assert_eq!(session.runner.display_name, "Hyprland");
        }
        Submission::Rejected(_) => panic!("a session was expected"),
    }
}

#[test]
fn a_submission_without_fields_uses_the_defaults() {
    let config = config();
    let given = values("ignored", "pw", Some("Hyprland"));
    match submit(&only_password(), &config, &given) {
        Submission::Started { session, first } => {
            assert_eq!(first, Request::CreateSession { username: "greeter".to_string() });
            assert_eq!(session.runner.display_name, "Sway");
        }
        Submission::Rejected(_) => panic!("a session was expected"),
    }
}

#[test]
fn whole_attempt_that_succeeds() {
    let config = config();
    let given = values("alice", "pw", Some("Sway"));
    let events = vec![
        Event::Reply(Response::AuthMessage {
            auth_message: "Password:".to_string(),
            auth_message_type: AuthMessageType::Secret,
        }),
        Event::Reply(Response::Success),
        Event::Reply(Response::Success),
    ];
    let record = attempt(&all_slots(), &config, &given, &events);
    assert_eq!(record.outcome, Some(SubmissionOutcome::Success));
    assert_eq!(record.marks, Marks { username: false, password: false });
    assert_eq!(
        record.sent,
        vec![
            Request::CreateSession { username: "alice".to_string() },
            Request::PostAuthMessageResponse { response: Some("pw".to_string()) },
            Request::StartSession {
                cmd: vec!["sway".to_string()],
                env: vec!["SESSION=sway".to_string()],
            },
        ]
    );
}

#[test]
fn whole_attempt_that_is_rejected_marks_both_fields() {
    let config = config();
    let given = values("alice", "pw", Some("Sway"));
    let events = vec![Event::Reply(Response::Error {
        error_type: ErrorType::AuthError,
        description: "bad creds".to_string(),
    })];
    let record = attempt(&all_slots(), &config, &given, &events);
    assert_eq!(record.outcome, Some(SubmissionOutcome::Failure(LoginFailure::AuthError)));
    assert_eq!(record.marks, Marks { username: true, password: true });
    assert_eq!(record.sent.last(), Some(&Request::CancelSession));

    let record = attempt(&only_password(), &config, &given, &vec![Event::TransportFailure]);
    assert_eq!(record.outcome, Some(SubmissionOutcome::Failure(LoginFailure::Error)));
    assert_eq!(record.marks, Marks { username: false, password: true });
}

#[test]
fn whole_attempt_against_a_silent_channel() {
    let config = config();
    let given = values("alice", "pw", Some("Sway"));
    let record = attempt(&all_slots(), &config, &given, &vec![]);
    assert_eq!(record.outcome, None);
    assert_eq!(record.marks, Marks { username: false, password: false });
    assert_eq!(record.sent, vec![Request::CreateSession { username: "alice".to_string() }]);
}

#[test]
fn marks_for_each_outcome() {
    let filled = values("alice", "pw", None);
    let no_password = values("alice", "", None);
    let no_username = values("", "pw", None);
    let missing = SubmissionOutcome::Failure(LoginFailure::MissingFields);
    let rejected = SubmissionOutcome::Failure(LoginFailure::AuthError);
    let broken = SubmissionOutcome::Failure(LoginFailure::Error);

    assert_eq!(marks(missing, &all_slots(), &no_password), Marks { username: false, password: true });
    assert_eq!(marks(missing, &all_slots(), &no_username), Marks { username: true, password: false });
    assert_eq!(
        marks(missing, &only_password(), &no_username),
        Marks { username: false, password: false }
    );
    assert_eq!(marks(rejected, &all_slots(), &filled), Marks { username: true, password: true });
    assert_eq!(marks(broken, &all_slots(), &filled), Marks { username: true, password: true });
    assert_eq!(marks(broken, &only_password(), &filled), Marks { username: false, password: true });
    assert_eq!(
        marks(SubmissionOutcome::Success, &all_slots(), &filled),
        Marks { username: false, password: false }
    );
    assert_eq!(
        marks(SubmissionOutcome::NoRunnerAvailable, &all_slots(), &no_password),
        Marks { username: false, password: false }
    );
}

#[test]
fn outcome_of_a_login_result() {
    assert_eq!(SubmissionOutcome::from_login(LoginResult::Success), SubmissionOutcome::Success);
    assert_eq!(
        SubmissionOutcome::from_login(LoginResult::Failure(LoginFailure::AuthError)),
        SubmissionOutcome::Failure(LoginFailure::AuthError)
    );
    assert_eq!(
        SubmissionOutcome::from_login(LoginResult::Failure(LoginFailure::Error)),
        SubmissionOutcome::Failure(LoginFailure::Error)
    );
}

#[test]
fn selector_offers_the_display_names() {
    let config = config();
    assert_eq!(runner_options(&config), vec!["Hyprland".to_string(), "Sway".to_string()]);
    assert_eq!(runner_options(&Config::default()), Vec::<String>::new());
}

#[test]
fn selector_shows_the_default_first_if_it_is_offered() {
    let options = vec!["Hyprland".to_string(), "Sway".to_string(), "Sway".to_string()];
    assert_eq!(preselected(&options, &Some("Sway".to_string())), 1);
    assert_eq!(preselected(&options, &Some("Hyprland".to_string())), 0);
    assert_eq!(preselected(&options, &Some("sway".to_string())), 0);
    assert_eq!(preselected(&options, &None), 0);
    assert_eq!(preselected(&vec![], &Some("Sway".to_string())), 0);
}
