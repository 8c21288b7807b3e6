//! Terminal colors and the severity levels of events.
use vstd::prelude::*;
use nu_ansi_term::{Color, Style};
use crate::text::push_str;
use crate::time::decimal;

verus! {

/// A foreground color.
#[derive(Debug, Clone, Copy, PartialEq, Eq, Structural)]
pub enum Hue {
    Purple,
    Blue,
    Green,
    Red,
    Rgb(u8, u8, u8),
}

/// The ways in which this library styles text on a terminal.
#[derive(Debug, Clone, Copy, PartialEq, Eq, Structural)]
pub enum Paint {
    Dimmed,
    Bold(Hue),
}

/// The escape code that sets a foreground color.
pub open spec fn hue_code(hue: Hue) -> Seq<char> {
    match hue {
        Hue::Purple => "35"@,
        Hue::Blue => "34"@,
        Hue::Green => "32"@,
        Hue::Red => "31"@,
        Hue::Rgb(r, g, b) => "38;2;"@ + decimal(r as nat) + seq![';'] + decimal(g as nat) + seq![';']
            + decimal(b as nat),
    }
}

/// The escape sequence that starts a styled text.
pub open spec fn paint_prefix(paint: Paint) -> Seq<char> {
    match paint {
        Paint::Dimmed => seq!['\u{1b}', '[', '2', 'm'],
        Paint::Bold(hue) => seq!['\u{1b}', '[', '1', ';'] + hue_code(hue) + seq!['m'],
    }
}

/// The escape sequence that resets all styles.
pub open spec fn paint_reset() -> Seq<char> {
    seq!['\u{1b}', '[', '0', 'm']
}

/// `text` painted with `paint`: the style's escape sequence, the text, and
/// the reset.
pub open spec fn painted(paint: Paint, text: Seq<char>) -> Seq<char> {
    paint_prefix(paint) + text + paint_reset()
}

/// Relies on `nu_ansi_term::Style::paint` and the `Display` of the painted
/// string: the style's prefix (bold `1`, dimmed `2`, then the foreground
/// color code), the text, and the reset `ESC[0m`.
#[verifier::external_body]
fn paint_text(paint: Paint, text: &str) -> (r: String)
    ensures
        r@ == painted(paint, text@),
{
    let style = match paint {
        Paint::Dimmed => Style::new().dimmed(),
        Paint::Bold(Hue::Purple) => Color::Purple.bold(),
        Paint::Bold(Hue::Blue) => Color::Blue.bold(),
        Paint::Bold(Hue::Green) => Color::Green.bold(),
        Paint::Bold(Hue::Red) => Color::Red.bold(),
        Paint::Bold(Hue::Rgb(r, g, b)) => Color::Rgb(r, g, b).bold(),
    };
    style.paint(text).to_string()
}

/// `text`, painted when colors are on.
pub open spec fn styled_text(ansi: bool, paint: Paint, text: Seq<char>) -> Seq<char> {
    if ansi {
        painted(paint, text)
    } else {
        text
    }
}

/// Appends `text`, painted when colors are on.
pub fn push_styled(buf: &mut String, ansi: bool, paint: Paint, text: &str)
    ensures
        final(buf)@ == old(buf)@ + styled_text(ansi, paint, text@),
{
    if ansi {
        let s = paint_text(paint, text);
        push_str(buf, s.as_str());
    } else {
        push_str(buf, text);
    }
}

/// The severity of an event.
#[derive(Debug, Clone, Copy, PartialEq, Eq, Structural)]
pub enum Level {
    Trace,
    Debug,
    Info,
    Warn,
    Error,
}

/// The name of a level.
pub open spec fn level_name(level: Level) -> Seq<char> {
    match level {
        Level::Trace => "TRACE"@,
        Level::Debug => "DEBUG"@,
        Level::Info => "INFO"@,
        Level::Warn => "WARN"@,
        Level::Error => "ERROR"@,
    }
}

/// The colored label of a level: five columns wide, in the level's color.
pub open spec fn level_label(level: Level) -> (Paint, Seq<char>) {
    match level {
        Level::Trace => (Paint::Bold(Hue::Purple), "TRACE"@),
        Level::Debug => (Paint::Bold(Hue::Blue), "DEBUG"@),
        Level::Info => (Paint::Bold(Hue::Green), " INFO"@),
        Level::Warn => (Paint::Bold(Hue::Rgb(252, 234, 160)), " WARN"@),
        Level::Error => (Paint::Bold(Hue::Red), "ERROR"@),
    }
}

/// How a level is printed: its colored label, or its bare name without
/// colors.
pub open spec fn level_text(ansi: bool, level: Level) -> Seq<char> {
    if ansi {
        painted(level_label(level).0, level_label(level).1)
    } else {
        level_name(level)
    }
}

/// Appends the text of `level`.
pub fn push_level(buf: &mut String, ansi: bool, level: Level)
    ensures
        final(buf)@ == old(buf)@ + level_text(ansi, level),
{
    if ansi {
        let s = match level {
            Level::Trace => paint_text(Paint::Bold(Hue::Purple), "TRACE"),
            Level::Debug => paint_text(Paint::Bold(Hue::Blue), "DEBUG"),
            Level::Info => paint_text(Paint::Bold(Hue::Green), " INFO"),
            // orange
            Level::Warn => paint_text(Paint::Bold(Hue::Rgb(252, 234, 160)), " WARN"),
            Level::Error => paint_text(Paint::Bold(Hue::Red), "ERROR"),
        };
        push_str(buf, s.as_str());
    } else {
        match level {
            Level::Trace => push_str(buf, "TRACE"),
            Level::Debug => push_str(buf, "DEBUG"),
            Level::Info => push_str(buf, "INFO"),
            Level::Warn => push_str(buf, "WARN"),
            Level::Error => push_str(buf, "ERROR"),
        }
    }
}

} // verus!
