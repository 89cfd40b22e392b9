use sali::cli::{default_config_path_from, get_default_config_path, Cli, CONFIG_PATH};
use sali::components::{
    Align, BoxComponent, ButtonComponent, Component, DateTimeComponent, LabelComponent,
    Orientation, PasswordComponent, RunnerComponent, UsernameComponent,
};
use sali::config::{
    default_layout, expand_path_from, is_relative, Classes, Config, Monitor, MonitorBackground,
    Runner, Target,
};
use sali::text::{copy_strings, replace, starts_with};

fn strings(items: &[&str]) -> Vec<String> {
    items.iter().map(|s| s.to_string()).collect()
}

fn at(path: &str) -> Config {
    Config::default().with_path(path.to_string())
}

fn expand(path: &str, home: Option<&str>) -> Option<String> {
    expand_path_from(&path.to_string(), home.map(|h| h.to_string()))
}

#[test]
fn component_defaults() {
    assert_eq!(RunnerComponent::default().classes, strings(&["runner", "dropdown"]));

    let clock = DateTimeComponent::default();
    assert_eq!(clock.classes, strings(&["label", "datetime"]));
    assert_eq!(clock.format, "%H:%M");
    assert_eq!(clock.interval, 1000);

    let label = LabelComponent::default();
    assert_eq!(label.classes, strings(&["label"]));
    assert_eq!(label.label, "");

    let username = UsernameComponent::default();
    assert_eq!(username.classes, strings(&["input", "username"]));
    assert_eq!(username.placeholder, "Username");

    let password = PasswordComponent::default();
    assert_eq!(password.classes, strings(&["input", "password"]));
    assert_eq!(password.placeholder, "Password");

    let button = ButtonComponent::default();
    assert_eq!(button.classes, strings(&["button"]));
    assert_eq!(button.label, "");
    assert_eq!(button.command, "");
}

#[test]
fn box_default() {
    let frame = BoxComponent::default();
    assert_eq!(frame.classes, strings(&["box"]));
    assert_eq!(frame.halign, Align::Center);
    assert_eq!(frame.valign, Align::Center);
    assert!(frame.hexpand);
    assert!(frame.vexpand);
    assert_eq!(frame.width, 500);
    assert_eq!(frame.spacing, 12);
    assert_eq!(frame.orientation, Orientation::Vertical);
    assert!(frame.children.is_empty());
}

#[test]
fn classes_default() {
    let classes = Classes::default();
    assert_eq!(classes.background, strings(&["background"]));
    assert_eq!(classes.window, strings(&["window"]));
    assert_eq!(classes.field_error, "error");
    assert_eq!(classes.field_empty, "empty");
}

#[test]
fn default_layout_is_a_box_with_clock_fields_and_selector() {
    match default_layout() {
        Component::Box(frame) => {
            assert_eq!(frame.spacing, 12);
            assert_eq!(frame.width, 500);
            assert_eq!(frame.classes, strings(&["box"]));
            assert_eq!(frame.children.len(), 4);
            assert!(matches!(&frame.children[0], Component::DateTime(c) if c.format == "%H:%M"));
            assert!(
                matches!(&frame.children[1], Component::Username(c) if c.placeholder == "Username")
            );
            assert!(
                matches!(&frame.children[2], Component::Password(c) if c.placeholder == "Password")
            );
            assert!(
                matches!(&frame.children[3], Component::Runner(c) if c.classes == strings(&["runner", "dropdown"]))
            );
        }
        _ => panic!("a box was expected"),
    }
}

#[test]
fn config_default() {
    let config = Config::default();
    assert_eq!(config.path(), "");
    assert!(config.monitors.is_empty());
    assert_eq!(config.main_monitor, "");
    assert_eq!(config.username, None);
    assert!(config.styles.is_empty());
    assert_eq!(config.classes, Classes::default());
    assert!(config.runners.is_empty());
    assert_eq!(config.default_runner, None);
    assert!(matches!(&config.layout, Component::Box(frame) if frame.children.len() == 4));
}

#[test]
fn with_path_keeps_everything_else() {
    let mut config = Config::default();
    config.main_monitor = "left".to_string();
    config.monitors = vec![(
        "left".to_string(),
        Monitor {
            output: "DP-1".to_string(),
            background: Some(MonitorBackground::Rgb(1, 2, 3)),
        },
    )];
    config.styles = strings(&["a.css"]);
    config.username = Some("greeter".to_string());
    let config = config.with_path("/etc/sali/config.yaml".to_string());
    assert_eq!(config.path(), "/etc/sali/config.yaml");
    assert_eq!(config.main_monitor, "left");
    assert_eq!(config.monitors.len(), 1);
    assert_eq!(config.monitors[0].1.background, Some(MonitorBackground::Rgb(1, 2, 3)));
    assert_eq!(config.styles, strings(&["a.css"]));
    assert_eq!(config.username, Some("greeter".to_string()));
}

#[test]
fn directory_is_the_parent_of_the_file() {
    assert_eq!(at("/etc/sali/config.yaml").directory(), "/etc/sali");
    assert_eq!(at("config.yaml").directory(), "");
    assert_eq!(at("sali/config.yaml").directory(), "sali");
    assert_eq!(at("/config.yaml").directory(), "/");
}

#[test]
fn directory_of_a_path_without_parent_is_the_path() {
    assert_eq!(at("/").directory(), "/");
    assert_eq!(at("").directory(), "");
}

#[test]
fn runners_are_found_by_name_and_by_display_name() {
    let mut config = Config::default();
    config.runners = vec![
        (
            "a".to_string(),
            Runner { display_name: "Shown".to_string(), run: strings(&["one"]), env: vec![] },
        ),
        (
            "b".to_string(),
            Runner { display_name: "Shown".to_string(), run: strings(&["two"]), env: vec![] },
        ),
        (
            "c".to_string(),
            Runner { display_name: "Other".to_string(), run: strings(&["three"]), env: vec![] },
        ),
    ];
    assert_eq!(config.runner(&"b".to_string()).map(|r| r.run.clone()), Some(strings(&["two"])));
    assert_eq!(config.runner(&"c".to_string()).map(|r| r.run.clone()), Some(strings(&["three"])));
    assert!(config.runner(&"Shown".to_string()).is_none());
    assert_eq!(
        config.runner_by_display_name(&"Shown".to_string()).map(|r| r.run.clone()),
        Some(strings(&["one"]))
    );
    assert_eq!(
        config.runner_by_display_name(&"Other".to_string()).map(|r| r.run.clone()),
        Some(strings(&["three"]))
    );
    assert!(config.runner_by_display_name(&"a".to_string()).is_none());
}

#[test]
fn paths_without_a_home_name_are_left_alone() {
    assert_eq!(expand("/etc/sali/style.css", Some("/home/u")), Some("/etc/sali/style.css".to_string()));
    assert_eq!(expand("style.css", None), Some("style.css".to_string()));
    assert_eq!(expand("", None), Some(String::new()));
    assert_eq!(expand("a/~/b", Some("/home/u")), Some("a/~/b".to_string()));
    assert_eq!(expand("HOME/x", Some("/home/u")), Some("HOME/x".to_string()));
}

#[test]
fn a_bare_home_name_is_the_home_directory() {
    assert_eq!(expand("~", Some("/home/u")), Some("/home/u".to_string()));
    assert_eq!(expand("$HOME", Some("/home/u")), Some("/home/u".to_string()));
    assert_eq!(expand("~", Some("/")), Some("/".to_string()));
    assert_eq!(expand("~", None), None);
    assert_eq!(expand("$HOME", None), None);
}

#[test]
fn home_names_are_written_out() {
    assert_eq!(expand("~/.config/x", Some("/home/u")), Some("/home/u/.config/x".to_string()));
    assert_eq!(expand("$HOME/.config/x", Some("/home/u")), Some("/home/u/.config/x".to_string()));
    assert_eq!(expand("~/x", None), None);
    assert_eq!(expand("$HOME/x", None), None);
}

#[test]
fn every_home_name_in_the_path_is_written_out() {
    assert_eq!(expand("~/a~b", Some("/h")), Some("/h/a/hb".to_string()));
    assert_eq!(expand("$HOME/$HOME", Some("/h")), Some("/h//h".to_string()));
    assert_eq!(expand("~/$HOME", Some("/h")), Some("/h//h".to_string()));
    assert_eq!(expand("$HOME/x", Some("/~")), Some("//~/x".to_string()));
}

#[test]
fn a_home_at_the_root_does_not_double_the_separator() {
    assert_eq!(expand("~/x", Some("/")), Some("/x".to_string()));
    assert_eq!(expand("$HOME/x", Some("/")), Some("/x".to_string()));
    assert_eq!(expand("~/x", Some("//")), Some("/x".to_string()));
    assert_eq!(expand("~/x", Some("/a")), Some("/a/x".to_string()));
}

#[test]
fn relative_paths_are_taken_from_the_directory_of_the_file() {
    let config = at("/etc/sali/config.yaml");
    assert_eq!(
        config.target_from(&"style.css".to_string(), None),
        Target::Beside("/etc/sali/style.css".to_string())
    );
    assert_eq!(
        config.target_from(&"themes/dark.scss".to_string(), Some("/home/u".to_string())),
        Target::Beside("/etc/sali/themes/dark.scss".to_string())
    );
    assert_eq!(
        config.target_from(&"/usr/share/x.css".to_string(), None),
        Target::Given("/usr/share/x.css".to_string())
    );
    assert_eq!(
        config.target_from(&"~/x.css".to_string(), Some("/home/u".to_string())),
        Target::Given("/home/u/x.css".to_string())
    );
}

#[test]
fn a_path_that_needs_an_unknown_home_is_taken_as_written() {
    let config = at("/etc/sali/config.yaml");
    assert_eq!(
        config.target_from(&"~/x.css".to_string(), None),
        Target::Beside("/etc/sali/~/x.css".to_string())
    );
}

#[test]
fn resolve_path_returns_absolute_paths_unchanged() {
    let config = at("/etc/sali/config.yaml");
    assert_eq!(config.resolve_path(&"/no/such/dir/x.css".to_string()), "/no/such/dir/x.css");
    assert_eq!(config.resolve_path(&"/".to_string()), "/");
}

#[test]
fn resolve_path_joins_what_the_file_system_does_not_know() {
    let config = at("/no-such-directory-for-sali/config.yaml");
    assert_eq!(
        config.resolve_path(&"style.css".to_string()),
        "/no-such-directory-for-sali/style.css"
    );
}

#[test]
fn resolve_path_makes_existing_paths_canonical() {
    let config = at("/config.yaml");
    assert_eq!(config.resolve_path(&".".to_string()), "/");
    assert_eq!(config.resolve_path(&"./.".to_string()), "/");
}

#[test]
fn expand_path_leaves_plain_paths_alone() {
    assert_eq!(Config::expand_path(&"/etc/x".to_string()), Some("/etc/x".to_string()));
    assert_eq!(Config::expand_path(&"x".to_string()), Some("x".to_string()));
}

#[test]
fn default_config_path_lies_below_the_home_directory() {
    assert_eq!(CONFIG_PATH, ".config/sali/config.yaml");
    assert_eq!(
        default_config_path_from(Some("/home/u".to_string())),
        "/home/u/.config/sali/config.yaml"
    );
    assert_eq!(default_config_path_from(Some("/".to_string())), "/.config/sali/config.yaml");
    assert_eq!(default_config_path_from(None), ".config/sali/config.yaml");
    assert!(get_default_config_path().ends_with(CONFIG_PATH));
}

#[test]
fn cli_holds_the_options() {
    let cli = Cli { config: "/etc/sali/config.yaml".to_string(), inspect: true };
    assert_eq!(cli.config, "/etc/sali/config.yaml");
    assert!(cli.inspect);
}

#[test]
fn starts_with_agrees_with_the_standard_library() {
    let cases = [
        ("", ""),
        ("abc", ""),
        ("", "a"),
        ("abc", "a"),
        ("abc", "abc"),
        ("abc", "abcd"),
        ("abc", "b"),
        ("~/x", "~"),
        ("$HOME/x", "$HOME"),
        ("$HOM", "$HOME"),
        ("äöü", "ä"),
        ("äöü", "a"),
        ("日本語", "日本"),
    ];
    for (text, prefix) in cases {
        assert_eq!(starts_with(text, prefix), text.starts_with(prefix), "{text:?} {prefix:?}");
    }
    assert!(starts_with("~/x", "~"));
    assert!(!starts_with("x~", "~"));
}

#[test]
fn replace_agrees_with_the_standard_library() {
    let cases = [
        ("", "a", "b"),
        ("abc", "b", "xx"),
        ("aaa", "aa", "b"),
        ("aaaa", "aa", "b"),
        ("abcabc", "abc", ""),
        ("abc", "abcd", "x"),
        ("abc", "", "-"),
        ("", "", "-"),
        ("~/a~b", "~", "/home/u"),
        ("$HOME/x/$HOME", "$HOME", "/h"),
        ("äöü", "ö", "oe"),
        ("日本語", "", "・"),
        ("ababab", "aba", "c"),
    ];
    for (text, from, to) in cases {
        assert_eq!(replace(text, from, to), text.replace(from, to), "{text:?} {from:?} {to:?}");
    }
    assert_eq!(replace("aaa", "aa", "b"), "ba");
    assert_eq!(replace("abc", "", "-"), "-a-b-c-");
}

#[test]
fn a_target_settles_on_the_canonical_path_of_a_relative_one() {
    let given = Target::Given("/usr/share/x.css".to_string());
    assert_eq!(given.clone().settle(None), "/usr/share/x.css");
    assert_eq!(given.settle(Some("/elsewhere".to_string())), "/usr/share/x.css");

    let beside = Target::Beside("/etc/sali/../x.css".to_string());
    assert_eq!(beside.clone().settle(None), "/etc/sali/../x.css");
    assert_eq!(beside.settle(Some("/etc/x.css".to_string())), "/etc/x.css");
}

#[test]
fn copy_strings_copies_every_item() {
    assert_eq!(copy_strings(&strings(&["a", "", "b c"])), strings(&["a", "", "b c"]));
    assert_eq!(copy_strings(&vec![]), Vec::<String>::new());
}

#[test]
fn a_path_is_relative_unless_it_starts_at_the_root() {
    let cases = [
        "", "/", "//", "/etc", "/etc/sali/config.yaml", "etc", "./x", "../x", "~", "~/x",
        "$HOME/x", "a/b", " /x", "\\x", "c:/x", "ä/x", "/ä",
    ];
    for path in cases {
        assert_eq!(is_relative(path), std::path::Path::new(path).is_relative(), "{path:?}");
    }
    assert!(is_relative("style.css"));
    assert!(is_relative(""));
    assert!(!is_relative("/usr/share/x.css"));
}

#[test]
fn a_home_written_as_the_root_only_takes_the_names_out() {
    assert_eq!(expand("~/.config/x", Some("/")), Some("/.config/x".to_string()));
    assert_eq!(expand("$HOME/a/~", Some("/")), Some("/a/".to_string()));
    assert_eq!(expand("~~", Some("/")), Some(String::new()));
}
