//! Errors as values: a message and a level. How an error is shown is the
//! caller's concern; this module only builds the text.

use vstd::prelude::*;
use vstd::string::StringExecFns;
use crate::error::stylize::{apply_border, frame_width, framed};
use crate::util::hyperstr::{LIGHT_RED, RED, RESET};

pub mod stylize;

verus! {

/// How grave an error is, and what it is labelled as.
#[derive(Clone, Copy, Debug, PartialEq, Eq, Structural)]
pub enum ErrorLevel {
    Config,
    Warning,
    Error,
}

/// An error: what went wrong, and how grave it is.
pub struct LightError {
    pub message: String,
    pub level: ErrorLevel,
}

/// The colour of a level's frame.
pub open spec fn level_color(level: ErrorLevel) -> Seq<char> {
    match level {
        ErrorLevel::Config => LIGHT_RED@,
        ErrorLevel::Warning => LIGHT_RED@,
        ErrorLevel::Error => RED@,
    }
}

/// The text that goes into the frame: the colour, the level's label, then the
/// message, set off from the label by the colour again or, for a warning, by
/// a reset.
pub open spec fn labelled(message: Seq<char>, level: ErrorLevel) -> Seq<char> {
    match level {
        ErrorLevel::Config => LIGHT_RED@ + "CONFIG: "@ + LIGHT_RED@ + message,
        ErrorLevel::Warning => LIGHT_RED@ + "WARNING: "@ + RESET@ + message,
        ErrorLevel::Error => RED@ + "ERROR: "@ + RED@ + message,
    }
}

impl LightError {
    /// An error with this message at this level.
    pub fn new(message: String, level: ErrorLevel) -> (e: Self)
        ensures
            e.message == message,
            e.level == level,
    {
        Self { message, level }
    }

    /// Whether showing this error ends the program: all but warnings do.
    pub fn is_fatal(&self) -> (r: bool)
        ensures
            r == !(self.level is Warning),
    {
        match self.level {
            ErrorLevel::Warning => false,
            _ => true,
        }
    }

    /// The labelled message, before it is framed.
    pub fn label(&self) -> (r: String)
        ensures
            r@ == labelled(self.message@, self.level),
    {
        let mut text = String::new();
        match self.level {
            ErrorLevel::Config => {
                text.append(LIGHT_RED);
                text.append("CONFIG: ");
                text.append(LIGHT_RED);
            },
            ErrorLevel::Warning => {
                text.append(LIGHT_RED);
                text.append("WARNING: ");
                text.append(RESET);
            },
            ErrorLevel::Error => {
                text.append(RED);
                text.append("ERROR: ");
                text.append(RED);
            },
        }
        text.append(self.message.as_str());
        assert(text@ == labelled(self.message@, self.level));
        text
    }

    /// The error as it is shown: the labelled message in a frame of the
    /// level's colour.
    pub fn render(&self) -> (r: String)
        requires
            frame_width(labelled(self.message@, self.level)) + 2 <= usize::MAX,
        ensures
            r@ == framed(labelled(self.message@, self.level), level_color(self.level)),
    {
        let text = self.label();
        match self.level {
            ErrorLevel::Error => apply_border(text.as_str(), RED),
            _ => apply_border(text.as_str(), LIGHT_RED),
        }
    }
}

} // verus!
