//! Styles: the rule that puts a monitor's background behind the form, and
//! what is loaded of a stylesheet.

use vstd::prelude::*;
use crate::config::{
    can_be_canonical,
    names_home,
    settled,
    target_of,
    Config,
    Monitor,
    MonitorBackground,
};
use crate::paths::{extension, path_extension, path_is_relative};
use crate::text::{replace, replaced};

verus! {

/// The name the application is known by.
pub const APP_ID: &'static str = "ch.wysbd.sali";

/// The character of a decimal digit.
pub open spec fn digit(d: nat) -> char {
    if d == 0 {
        '0'
    } else if d == 1 {
        '1'
    } else if d == 2 {
        '2'
    } else if d == 3 {
        '3'
    } else if d == 4 {
        '4'
    } else if d == 5 {
        '5'
    } else if d == 6 {
        '6'
    } else if d == 7 {
        '7'
    } else if d == 8 {
        '8'
    } else {
        '9'
    }
}

/// A number in decimal, without leading zeros.
pub open spec fn decimal(n: nat) -> Seq<char>
    decreases n,
{
    if n < 10 {
        seq![digit(n)]
    } else {
        decimal(n / 10).push(digit(n % 10))
    }
}

/// The class of the background window of the monitor at `output`: the
/// application's name with its dots as hyphens, a hyphen and the output.
pub open spec fn class_of(output: Seq<char>) -> Seq<char> {
    replaced(APP_ID@, "."@, "-"@) + "-"@ + output
}

/// What the rule declares: a colour by its three parts, or the image at
/// `image`.
pub open spec fn content_of(background: MonitorBackground, image: Seq<char>) -> Seq<char> {
    match background {
        MonitorBackground::Rgb(r, g, b) => "background-color: rgb("@ + decimal(r as nat) + ","@
            + decimal(g as nat) + ","@ + decimal(b as nat) + ")"@,
        MonitorBackground::Image(_) => "background: url(\"file://"@ + image + "\")"@,
    }
}

/// The rule for the class `class` that declares `content` and lets the
/// background cover the window from its centre.
pub open spec fn rule_of(class: Seq<char>, content: Seq<char>) -> Seq<char> {
    "."@ + class + " { "@ + content
        + "; background-size: cover; background-position: center; }"@
}

/// The class of a background window and the rule that styles it.
#[derive(Clone, Debug, PartialEq, Eq)]
pub struct BackgroundStyle {
    pub class_name: String,
    pub css: String,
}

/// The style of the background `background` on the monitor at `output`;
/// `image` is where the image lies, if the background is one.
pub open spec fn style_of(output: Seq<char>, background: MonitorBackground, image: Seq<char>) -> (
    Seq<char>,
    Seq<char>,
) {
    (class_of(output), rule_of(class_of(output), content_of(background, image)))
}

fn digit_text(d: u8) -> (text: &'static str)
    requires
        d < 10,
    ensures
        text@ == seq![digit(d as nat)],
{
    proof {
        reveal_strlit("0");
        reveal_strlit("1");
        reveal_strlit("2");
        reveal_strlit("3");
        reveal_strlit("4");
        reveal_strlit("5");
        reveal_strlit("6");
        reveal_strlit("7");
        reveal_strlit("8");
        reveal_strlit("9");
    }
    let text = if d == 0 {
        "0"
    } else if d == 1 {
        "1"
    } else if d == 2 {
        "2"
    } else if d == 3 {
        "3"
    } else if d == 4 {
        "4"
    } else if d == 5 {
        "5"
    } else if d == 6 {
        "6"
    } else if d == 7 {
        "7"
    } else if d == 8 {
        "8"
    } else {
        "9"
    };
    assert(text@ =~= seq![digit(d as nat)]);
    text
}

/// Writes a byte in decimal.
pub fn decimal_text(n: u8) -> (text: String)
    ensures
        text@ == decimal(n as nat),
{
    let mut text = String::new();
    if n >= 100 {
        text.append(digit_text(n / 100));
    }
    if n >= 10 {
        text.append(digit_text((n / 10) % 10));
    }
    text.append(digit_text(n % 10));
    proof {
        reveal_with_fuel(decimal, 3);
        assert(text@ =~= decimal(n as nat));
    }
    text
}

/// Builds the class and the rule for the background of a monitor.
pub fn background_style(output: &str, background: &MonitorBackground, image: &str) -> (style:
    BackgroundStyle)
    ensures
        (style.class_name@, style.css@) == style_of(output@, *background, image@),
{
    let mut class_name = replace(APP_ID, ".", "-");
    class_name.append("-");
    class_name.append(output);

    let mut content = String::new();
    match background {
        MonitorBackground::Rgb(r, g, b) => {
            content.append("background-color: rgb(");
            content.append(decimal_text(*r).as_str());
            content.append(",");
            content.append(decimal_text(*g).as_str());
            content.append(",");
            content.append(decimal_text(*b).as_str());
            content.append(")");
        },
        MonitorBackground::Image(_) => {
            content.append("background: url(\"file://");
            content.append(image);
            content.append("\")");
        },
    }
    assert(content@ =~= content_of(*background, image@));

    let mut css = String::new();
    css.append(".");
    css.append(class_name.as_str());
    css.append(" { ");
    css.append(content.as_str());
    css.append("; background-size: cover; background-position: center; }");
    assert(css@ =~= rule_of(class_name@, content@));
    BackgroundStyle { class_name, css }
}

impl Config {
    /// The style of the background window of `monitor`, if the monitor has
    /// a background. The path of an image is resolved as every path of the
    /// configuration is.
    pub fn background_of(&self, monitor: &Monitor) -> (style: Option<BackgroundStyle>)
        ensures
            style is Some <==> monitor.background is Some,
            (style, monitor.background) matches (Some(found), Some(MonitorBackground::Rgb(r, g, b)))
                ==> (found.class_name@, found.css@) == style_of(
                monitor.output@,
                MonitorBackground::Rgb(r, g, b),
                Seq::empty(),
            ),
            (style, monitor.background) matches (Some(found), Some(MonitorBackground::Image(path)))
                ==> exists|home: Option<Seq<char>>, canon: Option<Seq<char>>|
                can_be_canonical(canon) && (found.class_name@, found.css@) == style_of(
                    monitor.output@,
                    MonitorBackground::Image(path),
                    #[trigger] settled(target_of(self.path@, path@, home), canon),
                ),
            (style, monitor.background) matches (Some(found), Some(MonitorBackground::Image(path)))
                ==> (!names_home(path@) && !path_is_relative(path@) ==> (
                found.class_name@,
                found.css@,
            ) == style_of(monitor.output@, MonitorBackground::Image(path), path@)),
    {
        match &monitor.background {
            Some(background) => {
                let image = match background {
                    MonitorBackground::Image(path) => self.resolve_path(path),
                    MonitorBackground::Rgb(_, _, _) => String::new(),
                };
                Some(background_style(monitor.output.as_str(), background, image.as_str()))
            },
            None => None,
        }
    }
}

/// Whether the file at `path` holds scss: whether its extension is `scss`.
pub open spec fn is_scss(path: Seq<char>) -> bool {
    path_extension(path) == Some("scss"@)
}

/// Tells whether the file at `path` holds scss.
pub fn holds_scss(path: &str) -> (scss: bool)
    ensures
        scss == is_scss(path@),
{
    match extension(path) {
        Some(extension) => extension == "scss".to_owned(),
        None => false,
    }
}

/// The css that is loaded for a stylesheet that was compiled: what the
/// compiler wrote, and nothing where it failed with `Err`, which holds
/// what it said.
pub open spec fn loaded(compiled: Result<Vec<u8>, String>) -> Seq<u8> {
    match compiled {
        Ok(bytes) => bytes@,
        Err(_) => Seq::empty(),
    }
}

/// Picks the css to load for a stylesheet that was compiled.
pub fn css_to_load(compiled: Result<Vec<u8>, String>) -> (css: Vec<u8>)
    ensures
        css@ == loaded(compiled),
{
    match compiled {
        Ok(bytes) => bytes,
        Err(_) => Vec::new(),
    }
}

} // verus!
