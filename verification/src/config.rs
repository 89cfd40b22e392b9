//! The greeter's configuration.

use vstd::prelude::*;
use crate::components::{
    BoxComponent,
    Component,
    DateTimeComponent,
    PasswordComponent,
    RunnerComponent,
    UsernameComponent,
};
use crate::paths::{
    canonical,
    home_dir,
    join,
    parent,
    path_eq,
    path_is_relative,
    path_join,
    path_parent,
    same_path,
};
use crate::table::{deref_of, find, lookup, put, sorted};
use crate::text::{replace, replaced, starts_with, text_of};

verus! {

/// What a monitor shows behind the form.
#[derive(Clone, Debug, PartialEq, Eq)]
pub enum MonitorBackground {
    /// Rgb value of a color
    Rgb(u8, u8, u8),
    /// Path to the background image
    Image(String),
}

#[derive(Clone, Debug, PartialEq, Eq)]
pub struct Monitor {
    /// Hardware output of the monitor (e.g. DP-1)
    pub output: String,
    /// Path to the background image of the monitor
    pub background: Option<MonitorBackground>,
}

#[derive(Clone, Debug, PartialEq, Eq)]
pub struct Classes {
    /// Css classes which are applied to the background windows
    pub background: Vec<String>,
    /// Css classes which are applied to the main window holding the layout tree
    pub window: Vec<String>,
    /// Css class which is applied to the username/password fields when a login error occurs
    pub field_error: String,
    /// Css class which is applied to the username/password fields when they are empty
    pub field_empty: String,
}

impl Classes {
    /// Whether these are the classes that a configuration gets when it
    /// names none.
    pub open spec fn is_default(&self) -> bool {
        &&& self.background.deep_view() == seq!["background"@]
        &&& self.window.deep_view() == seq!["window"@]
        &&& self.field_error@ == "error"@
        &&& self.field_empty@ == "empty"@
    }
}

impl Default for Classes {
    fn default() -> (r: Self)
        ensures
            r.is_default(),
    {
        let r = Self {
            background: vec!["background".to_owned()],
            window: vec!["window".to_owned()],
            field_error: "error".to_owned(),
            field_empty: "empty".to_owned(),
        };
        assert(r.background.deep_view() =~= seq!["background"@]);
        assert(r.window.deep_view() =~= seq!["window"@]);
        r
    }
}

/// A named way to start a session once the login has succeeded.
#[derive(Clone, Debug, PartialEq, Eq)]
pub struct Runner {
    /// Name which should be displayed when the runner is selected
    pub display_name: String,
    /// Commands to run when the login succeeds
    pub run: Vec<String>,
    /// Environment variables to set when the login succeeds
    pub env: Vec<String>,
}

/// What a [`Runner`] holds, as plain text.
pub struct RunnerView {
    pub display_name: Seq<char>,
    pub run: Seq<Seq<char>>,
    pub env: Seq<Seq<char>>,
}

impl View for Runner {
    type V = RunnerView;

    open spec fn view(&self) -> RunnerView {
        RunnerView {
            display_name: self.display_name@,
            run: self.run.deep_view(),
            env: self.env.deep_view(),
        }
    }
}

/// The layout of a configuration that names none: a box with a clock, the
/// two fields and the runner selector.
pub open spec fn is_default_layout(layout: Component) -> bool {
    &&& layout matches Component::Box(b)
    &&& b.has_default_attributes()
    &&& b.children@.len() == 4
    &&& b.children@[0] matches Component::DateTime(clock)
    &&& clock.is_default()
    &&& b.children@[1] matches Component::Username(username)
    &&& username.is_default()
    &&& b.children@[2] matches Component::Password(password)
    &&& password.is_default()
    &&& b.children@[3] matches Component::Runner(runner)
    &&& runner.is_default()
}

/// Builds the layout of a configuration that names none.
pub fn default_layout() -> (layout: Component)
    ensures
        is_default_layout(layout),
{
    let frame = BoxComponent::default();
    Component::Box(
        BoxComponent {
            children: vec![
                Component::DateTime(DateTimeComponent::default()),
                Component::Username(UsernameComponent::default()),
                Component::Password(PasswordComponent::default()),
                Component::Runner(RunnerComponent::default()),
            ],
            ..frame
        },
    )
}

/// Everything the greeter is told at start. It does not change after it
/// was loaded.
#[derive(Debug)]
pub struct Config {
    /// Path of the file the configuration was read from
    pub path: String,
    /// Named configuration for each monitor, in the order of the names
    pub monitors: Vec<(String, Monitor)>,
    /// Name of the monitor which should contain the login form
    pub main_monitor: String,
    /// The default username to prefill the username field if provided
    pub username: Option<String>,
    /// All paths from where stylesheets should be loaded
    pub styles: Vec<String>,
    /// Css classes which are applied to different nodes and on specific events
    pub classes: Classes,
    /// Named runner options, in the order of the names
    pub runners: Vec<(String, Runner)>,
    /// Optional name of a runner which is preselected
    pub default_runner: Option<String>,
    /// Layout of the main monitor
    pub layout: Component,
}

/// The path of the directory that holds the file at `path`: the path's
/// parent, and the path itself where it has none.
pub open spec fn directory_of(path: Seq<char>) -> Seq<char> {
    match path_parent(path) {
        Some(parent) => parent,
        None => path,
    }
}

/// Whether a path starts with a name for the home directory.
pub open spec fn names_home(path: Seq<char>) -> bool {
    "~"@.is_prefix_of(path) || "$HOME"@.is_prefix_of(path)
}

/// What a home directory is written as inside a longer path: the root as
/// nothing, so that the separator that follows is not doubled.
pub open spec fn home_text(home: Seq<char>) -> Seq<char> {
    if path_eq(home, "/"@) {
        Seq::empty()
    } else {
        home
    }
}

/// A path with the names of the home directory written out. A path that
/// does not start with such a name is left as it is. `None` where the path
/// starts with one and the home directory is not known.
pub open spec fn expanded(path: Seq<char>, home: Option<Seq<char>>) -> Option<Seq<char>> {
    if !names_home(path) {
        Some(path)
    } else if path == "~"@ || path == "$HOME"@ {
        home
    } else {
        match home {
            Some(home) => Some(
                replaced(replaced(path, "$HOME"@, home_text(home)), "~"@, home_text(home)),
            ),
            None => None,
        }
    }
}

/// Where a path of the configuration points before the file system is asked.
#[derive(Clone, Debug, PartialEq, Eq)]
pub enum Target {
    /// An absolute path, taken as it is
    Given(String),
    /// A relative path, joined to the directory of the configuration file
    Beside(String),
}

/// A [`Target`] as plain text.
pub enum TargetView {
    Given(Seq<char>),
    Beside(Seq<char>),
}

impl View for Target {
    type V = TargetView;

    open spec fn view(&self) -> TargetView {
        match self {
            Target::Given(path) => TargetView::Given(path@),
            Target::Beside(path) => TargetView::Beside(path@),
        }
    }
}

/// Where the path `path` points for a configuration read from `config`
/// and a user whose home directory is `home`. Where the home directory is
/// needed and not known, the path is taken as written.
pub open spec fn target_of(config: Seq<char>, path: Seq<char>, home: Option<Seq<char>>) -> TargetView {
    let full = match expanded(path, home) {
        Some(full) => full,
        None => path,
    };
    if path_is_relative(full) {
        TargetView::Beside(path_join(directory_of(config), full))
    } else {
        TargetView::Given(full)
    }
}

/// The first runner, in the order held, that is shown as `display_name`.
pub open spec fn runner_shown_as(runners: Seq<(String, Runner)>, display_name: Seq<char>) -> Option<
    Runner,
>
    decreases runners.len(),
{
    if runners.len() == 0 {
        None
    } else if runners[0].1.display_name@ == display_name {
        Some(runners[0].1)
    } else {
        runner_shown_as(runners.skip(1), display_name)
    }
}

/// The path that a target stands for once the file system was asked for
/// the canonical form of a relative one: an absolute path as given, a
/// relative one in its canonical form, and as joined where there is none.
pub open spec fn settled(target: TargetView, found: Option<Seq<char>>) -> Seq<char> {
    match target {
        TargetView::Given(path) => path,
        TargetView::Beside(full) => match found {
            Some(found) => found,
            None => full,
        },
    }
}

impl Target {
    /// Picks the path that the target stands for; `found` is the canonical
    /// form of a relative target, where the file system knows one.
    pub fn settle(self, found: Option<String>) -> (path: String)
        ensures
            path@ == settled(self@, text_of(found)),
    {
        match self {
            Target::Given(path) => path,
            Target::Beside(full) => match found {
                Some(found) => found,
                None => full,
            },
        }
    }
}

/// Tells whether a path depends on the directory it is read in.
pub fn is_relative(path: &str) -> (relative: bool)
    ensures
        relative == path_is_relative(path@),
{
    proof {
        reveal_strlit("/");
        if path@.len() > 0 {
            assert(path@.subrange(0, 1)[0] == path@[0]);
            assert("/"@[0] == '/');
        }
        if path@.len() > 0 && path@[0] == '/' {
            assert(path@.subrange(0, 1) =~= "/"@);
        }
    }
    !starts_with(path, "/")
}

/// Whether a text can be what the file system gives as the canonical form
/// of a path: such a form is absolute.
pub open spec fn can_be_canonical(found: Option<Seq<char>>) -> bool {
    found matches Some(path) ==> !path_is_relative(path)
}

/// Writes out the names of the home directory at the start of `path_str`,
/// for a user whose home directory is `home`. For a home directory
/// written `/` the names are taken out and nothing is put in.
pub fn expand_path_from(path_str: &String, home: Option<String>) -> (full: Option<String>)
    ensures
        text_of(full) == expanded(path_str@, text_of(home)),
        text_of(home) == Some("/"@) && names_home(path_str@) && path_str@ != "~"@ && path_str@
            != "$HOME"@ ==> text_of(full) == Some(
            replaced(replaced(path_str@, "$HOME"@, Seq::empty()), "~"@, Seq::empty()),
        ),
{
    let path = path_str.as_str();
    if !starts_with(path, "~") && !starts_with(path, "$HOME") {
        Some(path_str.clone())
    } else if *path_str == "~".to_owned() || *path_str == "$HOME".to_owned() {
        home
    } else {
        match home {
            Some(home) => {
                if same_path(home.as_str(), "/") {
                    let without = replace(path, "$HOME", "");
                    proof {
                        reveal_strlit("");
                        assert(""@ =~= Seq::<char>::empty());
                    }
                    Some(replace(without.as_str(), "~", ""))
                } else {
                    let with = replace(path, "$HOME", home.as_str());
                    Some(replace(with.as_str(), "~", home.as_str()))
                }
            },
            None => None,
        }
    }
}

impl Config {
    /// Whether the configuration is one that a file can describe: its
    /// runners and its monitors are held as tables, in the rising order of
    /// their names, so that none has two of one name.
    pub open spec fn wf(&self) -> bool {
        &&& sorted(self.runners@)
        &&& sorted(self.monitors@)
    }

    /// Looks a runner up by the name it is configured under.
    pub fn runner(&self, name: &String) -> (found: Option<&Runner>)
        ensures
            deref_of(found) == lookup(self.runners@, name@),
    {
        find(&self.runners, name)
    }

    /// Looks a monitor up by its name.
    pub fn monitor(&self, name: &String) -> (found: Option<&Monitor>)
        ensures
            deref_of(found) == lookup(self.monitors@, name@),
    {
        find(&self.monitors, name)
    }

    /// Configures `runner` under `name`, in place of the runner that had
    /// the name before.
    pub fn add_runner(&mut self, name: String, runner: Runner)
        requires
            old(self).wf(),
        ensures
            final(self).wf(),
            lookup(final(self).runners@, name@) == Some(runner),
            forall|other: Seq<char>|
                other != name@ ==> lookup(final(self).runners@, other) == lookup(
                    old(self).runners@,
                    other,
                ),
            final(self).path == old(self).path,
            final(self).monitors == old(self).monitors,
            final(self).main_monitor == old(self).main_monitor,
            final(self).username == old(self).username,
            final(self).styles == old(self).styles,
            final(self).classes == old(self).classes,
            final(self).default_runner == old(self).default_runner,
            final(self).layout == old(self).layout,
    {
        put(&mut self.runners, name, runner);
    }

    /// Configures `monitor` under `name`, in place of the monitor that had
    /// the name before.
    pub fn add_monitor(&mut self, name: String, monitor: Monitor)
        requires
            old(self).wf(),
        ensures
            final(self).wf(),
            lookup(final(self).monitors@, name@) == Some(monitor),
            forall|other: Seq<char>|
                other != name@ ==> lookup(final(self).monitors@, other) == lookup(
                    old(self).monitors@,
                    other,
                ),
            final(self).path == old(self).path,
            final(self).runners == old(self).runners,
            final(self).main_monitor == old(self).main_monitor,
            final(self).username == old(self).username,
            final(self).styles == old(self).styles,
            final(self).classes == old(self).classes,
            final(self).default_runner == old(self).default_runner,
            final(self).layout == old(self).layout,
    {
        put(&mut self.monitors, name, monitor);
    }

    /// Looks a runner up by the name it is shown under.
    pub fn runner_by_display_name(&self, display_name: &String) -> (found: Option<&Runner>)
        ensures
            deref_of(found) == runner_shown_as(self.runners@, display_name@),
    {
        let mut i: usize = 0;
        proof {
            assert(self.runners@.skip(0) =~= self.runners@);
        }
        while i < self.runners.len()
            invariant
                i <= self.runners.len(),
                runner_shown_as(self.runners@.skip(i as int), display_name@) == runner_shown_as(
                    self.runners@,
                    display_name@,
                ),
            decreases self.runners.len() - i,
        {
            proof {
                assert(self.runners@.skip(i as int).skip(1) =~= self.runners@.skip(i + 1));
            }
            if self.runners[i].1.display_name == *display_name {
                return Some(&self.runners[i].1);
            }
            i = i + 1;
        }
        None
    }

    /// The same configuration, as read from the file at `path`.
    pub fn with_path(self, path: String) -> (r: Self)
        ensures
            r.path@ == path@,
            r.monitors == self.monitors,
            r.main_monitor == self.main_monitor,
            r.username == self.username,
            r.styles == self.styles,
            r.classes == self.classes,
            r.runners == self.runners,
            r.default_runner == self.default_runner,
            r.layout == self.layout,
            r.wf() == self.wf(),
    {
        Config { path, ..self }
    }

    /// The path of the file the configuration was read from.
    pub fn path(&self) -> (path: &String)
        ensures
            path@ == self.path@,
    {
        &self.path
    }

    /// The directory that holds the configuration file.
    pub fn directory(&self) -> (directory: String)
        ensures
            directory@ == directory_of(self.path@),
    {
        match parent(self.path.as_str()) {
            Some(parent) => parent,
            None => self.path.clone(),
        }
    }

    /// Writes out the names of the home directory at the start of
    /// `path_str`. A path that starts with none is returned as it is,
    /// whoever the user is.
    pub fn expand_path(path_str: &String) -> (full: Option<String>)
        ensures
            exists|home: Option<Seq<char>>| text_of(full) == expanded(path_str@, home),
            !names_home(path_str@) ==> text_of(full) == Some(path_str@),
    {
        expand_path_from(path_str, home_dir())
    }

    /// Where `path_str` points for a user whose home directory is `home`:
    /// relative paths are taken from the directory of the configuration
    /// file.
    pub fn target_from(&self, path_str: &String, home: Option<String>) -> (target: Target)
        ensures
            target@ == target_of(self.path@, path_str@, text_of(home)),
    {
        let full = match expand_path_from(path_str, home) {
            Some(full) => full,
            None => path_str.clone(),
        };
        if is_relative(full.as_str()) {
            let directory = self.directory();
            Target::Beside(join(directory.as_str(), full.as_str()))
        } else {
            Target::Given(full)
        }
    }

    /// Resolve relative paths to position of config file
    /// and expand `$HOME` and `~` to user home directory.
    ///
    /// A relative path is made canonical where the file system can do so.
    /// An absolute path that names no home directory is returned as it is.
    pub fn resolve_path(&self, path_str: &String) -> (resolved: String)
        ensures
            exists|home: Option<Seq<char>>, found: Option<Seq<char>>|
                can_be_canonical(found) && resolved@ == #[trigger] settled(
                    target_of(self.path@, path_str@, home),
                    found,
                ),
            !names_home(path_str@) && !path_is_relative(path_str@) ==> resolved@ == path_str@,
    {
        let home = home_dir();
        let target = self.target_from(path_str, home);
        let found = match &target {
            Target::Given(_) => None,
            Target::Beside(full) => canonical(full.as_str()),
        };
        proof {
            assert(target@ == target_of(self.path@, path_str@, text_of(home)));
            assert(can_be_canonical(text_of(found)));
        }
        target.settle(found)
    }
}

impl Default for Config {
    fn default() -> (r: Self)
        ensures
            r.path@ == Seq::<char>::empty(),
            r.monitors@.len() == 0,
            r.main_monitor@ == Seq::<char>::empty(),
            r.username is None,
            r.styles@.len() == 0,
            r.classes.is_default(),
            r.runners@.len() == 0,
            r.default_runner is None,
            is_default_layout(r.layout),
            r.wf(),
    {
        Self {
            path: String::new(),
            monitors: Vec::new(),
            main_monitor: String::new(),
            username: None,
            styles: Vec::new(),
            runners: Vec::new(),
            default_runner: None,
            classes: Classes::default(),
            layout: default_layout(),
        }
    }
}

} // verus!
