use sali::config::{Config, Monitor, Runner};
use sali::table::{comes_before, find, put};

fn runner(command: &str) -> Runner {
    Runner { display_name: command.to_uppercase(), run: vec![command.to_string()], env: vec![] }
}

fn names<T>(entries: &Vec<(String, T)>) -> Vec<&str> {
    entries.iter().map(|(name, _)| name.as_str()).collect()
}

#[test]
fn names_come_in_the_order_of_strings() {
    let samples = [
        "", "a", "aa", "ab", "b", "B", "sway", "sway-debug", "swaz", "Sway", "hypr", "~", "$HOME",
        "ä", "z", "äb", "日本", "日本語", "\u{7f}", "\u{80}", "\u{7ff}", "\u{800}", "\u{ffff}",
        "\u{10000}", "a\u{10000}", "a日",
    ];
    for a in samples {
        for b in samples {
            assert_eq!(comes_before(a, b), a < b, "{a:?} {b:?}");
        }
    }
    assert!(comes_before("sway", "sway-debug"));
    assert!(!comes_before("sway", "sway"));
    assert!(!comes_before("sway", "hypr"));
}

#[test]
fn put_keeps_the_names_in_order() {
    let mut table: Vec<(String, u32)> = Vec::new();
    put(&mut table, "m".to_string(), 1);
    put(&mut table, "a".to_string(), 2);
    put(&mut table, "z".to_string(), 3);
    put(&mut table, "n".to_string(), 4);
    put(&mut table, "".to_string(), 5);
    assert_eq!(names(&table), vec!["", "a", "m", "n", "z"]);
    assert_eq!(find(&table, &"n".to_string()), Some(&4));
    assert_eq!(find(&table, &"".to_string()), Some(&5));
    assert_eq!(find(&table, &"b".to_string()), None);
}

#[test]
fn put_replaces_what_stood_under_the_name() {
    let mut table: Vec<(String, u32)> = Vec::new();
    put(&mut table, "a".to_string(), 1);
    put(&mut table, "b".to_string(), 2);
    put(&mut table, "a".to_string(), 3);
    put(&mut table, "b".to_string(), 4);
    put(&mut table, "c".to_string(), 5);
    put(&mut table, "c".to_string(), 6);
    assert_eq!(
        table,
        vec![("a".to_string(), 3), ("b".to_string(), 4), ("c".to_string(), 6)]
    );
}

#[test]
fn a_table_does_not_depend_on_the_order_of_the_puts() {
    let entries = [("sway", 1u32), ("hypr", 2), ("gnome", 3), ("kde", 4)];
    let mut forward: Vec<(String, u32)> = Vec::new();
    for (name, value) in entries {
        put(&mut forward, name.to_string(), value);
    }
    let mut backward: Vec<(String, u32)> = Vec::new();
    for (name, value) in entries.iter().rev() {
        put(&mut backward, name.to_string(), *value);
    }
    assert_eq!(forward, backward);
    assert_eq!(names(&forward), vec!["gnome", "hypr", "kde", "sway"]);
}

#[test]
fn runners_and_monitors_are_configured_by_name() {
    let mut config = Config::default();
    config.add_runner("sway".to_string(), runner("sway"));
    config.add_runner("hypr".to_string(), runner("Hyprland"));
    config.add_runner("sway".to_string(), runner("sway --debug"));
    assert_eq!(names(&config.runners), vec!["hypr", "sway"]);
    assert_eq!(
        config.runner(&"sway".to_string()).map(|r| r.run.clone()),
        Some(vec!["sway --debug".to_string()])
    );
    assert_eq!(
        config.runner(&"hypr".to_string()).map(|r| r.run.clone()),
        Some(vec!["Hyprland".to_string()])
    );
    assert!(config.runner(&"gnome".to_string()).is_none());

    config.add_monitor("right".to_string(), Monitor { output: "DP-2".to_string(), background: None });
    config.add_monitor("left".to_string(), Monitor { output: "DP-1".to_string(), background: None });
    assert_eq!(names(&config.monitors), vec!["left", "right"]);
    assert_eq!(config.monitor(&"left".to_string()).map(|m| m.output.as_str()), Some("DP-1"));
    assert!(config.monitor(&"middle".to_string()).is_none());
    assert_eq!(names(&config.runners), vec!["hypr", "sway"]);
}
