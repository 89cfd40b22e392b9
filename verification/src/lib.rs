//! Core of a graphical login greeter for a session broker.
//!
//! - [`components`]: the layout tree of the login form;
//! - [`config`]: the configuration, its runners and monitors, and the paths it names;
//! - [`resolve`]: the walk through a layout that finds the form's slots;
//! - [`form`]: what must hold before the form is shown, and what a submission does;
//! - [`login`]: the handshake with the broker, as a state machine;
//! - [`style`]: the css of backgrounds and stylesheets;
//! - [`cli`]: the options of the command line;
//! - [`table`], [`text`]: tables by name and operations on text;
//! - [`paths`]: what is taken on trust from `std::path` and `dirs`.

pub mod cli;
pub mod components;
pub mod config;
pub mod form;
pub mod login;
pub mod paths;
pub mod resolve;
pub mod style;
pub mod table;
pub mod text;
