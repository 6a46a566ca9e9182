//! The text of a report: one line per event, under a banner.

use vstd::prelude::*;
use vstd::string::*;
use colored::Colorize;
use crate::event::{DiffEvent, EventView};

verus! {

/// The line that shows an event on a terminal without colours: a mark of
/// three characters, then the event's text.
pub open spec fn plain_line(event: EventView) -> Seq<char> {
    match event {
        EventView::Same(l) => "   "@ + l,
        EventView::Add(l) => " + "@ + l,
        EventView::Del(l) => " - "@ + l,
    }
}

/// The escape sequence that ends all styling.
pub open spec fn style_off() -> Seq<char> {
    "\x1B[0m"@
}

/// Whether `text` holds the sequence that ends all styling.
pub open spec fn holds_reset(text: Seq<char>) -> bool {
    exists|i: int|
        0 <= i && i + style_off().len() <= text.len() && #[trigger] text.subrange(
            i,
            i + style_off().len(),
        ) == style_off()
}

/// Whether `painted` shows `text` in the style that `on` starts: `text`
/// itself where colours are switched off, else `text` between `on` and the
/// sequence that ends all styling.
pub open spec fn painted_as(text: Seq<char>, on: Seq<char>, painted: Seq<char>) -> bool {
    painted == text || painted == on + text + style_off()
}

impl DiffEvent {
    /// The event as a line without colours.
    pub fn plain_text(&self) -> (text: String)
        ensures
            text@ == plain_line(self@),
    {
        match self {
            DiffEvent::Same(l) => "   ".to_owned().concat(l.as_str()),
            DiffEvent::Add(l) => " + ".to_owned().concat(l.as_str()),
            DiffEvent::Del(l) => " - ".to_owned().concat(l.as_str()),
        }
    }

    /// The event as a line for a terminal: an unchanged line as it is, an
    /// added line painted green and a removed one red, where the terminal
    /// takes colours. What is left open of a line that itself ends all
    /// styling is said at [`shown_as`].
    pub fn styled_text(&self) -> (text: String)
        ensures
            shown_as(self@, text@),
    {
        let plain = self.plain_text();
        match self {
            DiffEvent::Same(_) => plain,
            DiffEvent::Add(_) => paint_green(plain.as_str()),
            DiffEvent::Del(_) => paint_red(plain.as_str()),
        }
    }
}

/// The text of the banner above the first capture, without styling.
pub fn origin_banner(timestamp: &str) -> (text: String)
    ensures
        text@ == "Origin at "@ + timestamp@,
{
    "Origin at ".to_owned().concat(timestamp)
}

/// The text of the banner above a diff, without styling.
pub fn diff_banner(timestamp: &str) -> (text: String)
    ensures
        text@ == "Diff at "@ + timestamp@,
{
    "Diff at ".to_owned().concat(timestamp)
}

/// A banner as a terminal shows it: bold and underlined where the terminal
/// takes styling, else as it is. Of a banner that itself ends all styling
/// somewhere, nothing is stated.
pub fn styled_banner(banner: &str) -> (text: String)
    ensures
        !holds_reset(banner@) ==> painted_as(banner@, heading_on(), text@),
{
    paint_heading(banner)
}

/// The escape sequence that starts green text.
pub open spec fn green_on() -> Seq<char> {
    "\x1B[32m"@
}

/// The escape sequence that starts red text.
pub open spec fn red_on() -> Seq<char> {
    "\x1B[31m"@
}

/// The escape sequence that starts bold, underlined text.
pub open spec fn heading_on() -> Seq<char> {
    "\x1B[1;4m"@
}

/// Whether `text` shows `event` on a terminal: an unchanged line plainly, an
/// added line painted green and a removed one red. Of a changed line that
/// itself ends all styling somewhere, nothing is required.
pub open spec fn shown_as(event: EventView, text: Seq<char>) -> bool {
    let plain = plain_line(event);
    match event {
        EventView::Same(_) => text == plain,
        EventView::Add(_) => !holds_reset(plain) ==> painted_as(plain, green_on(), text),
        EventView::Del(_) => !holds_reset(plain) ==> painted_as(plain, red_on(), text),
    }
}

/// `Colorize::green` of the colored crate, rendered to a string by its
/// `Display`. Whether colours are on depends on the terminal and the
/// environment. Where they are off the text comes back as it is; where they
/// are on it comes back between the sequence for a green foreground and the
/// one that ends all styling. The crate rewrites a text that holds the
/// ending sequence; of such a text nothing is claimed.
#[verifier::external_body]
fn paint_green(text: &str) -> (painted: String)
    ensures
        !holds_reset(text@) ==> painted_as(text@, green_on(), painted@),
{
    text.green().to_string()
}

/// `Colorize::red` of the colored crate, rendered to a string by its
/// `Display`. As for green, with the sequence for a red foreground.
#[verifier::external_body]
fn paint_red(text: &str) -> (painted: String)
    ensures
        !holds_reset(text@) ==> painted_as(text@, red_on(), painted@),
{
    text.red().to_string()
}

/// `Colorize::bold` and then `Colorize::underline` of the colored crate,
/// rendered to a string by its `Display`. As for green, with the sequence
/// that switches on bold and underline together.
#[verifier::external_body]
fn paint_heading(text: &str) -> (painted: String)
    ensures
        !holds_reset(text@) ==> painted_as(text@, heading_on(), painted@),
{
    text.bold().underline().to_string()
}

} // verus!
