//! What the collector is run with, and what it falls back to.

use vstd::prelude::*;
use crate::decimal::{decimal_i64, parse_i64, trimmed};

verus! {

/// Where the collector listens unless told otherwise.
pub const DEFAULT_LISTEN: &'static str = "0.0.0.0:9093";

/// The sampling tool that is run unless another path is given.
pub const DEFAULT_SAMPLER: &'static str = "iotop";

/// The flags that the sampling tool is run with: batch mode, processes
/// only, kilobytes, accumulated output off, no headers.
pub const SAMPLER_FLAGS: &'static str = "-bokqqq";

/// Seconds of history kept unless told otherwise.
pub const DEFAULT_WINDOW: i64 = 900;

/// The collector's settings.
#[derive(Debug, Clone, PartialEq, Eq)]
pub struct Settings {
    /// Address and port to listen on.
    pub listen: String,
    /// Path of the sampling tool.
    pub sampler: String,
    /// Length of the retention window, in seconds.
    pub window: i64,
}

/// Why the given options make no settings.
#[derive(Clone, Copy, Debug, PartialEq, Eq, Structural)]
pub enum SettingsError {
    /// The window is not a whole number of seconds.
    Window,
}

/// The text of an option, or the default where it was not given.
pub open spec fn text_or(option: Option<String>, fallback: Seq<char>) -> Seq<char> {
    match option {
        Some(text) => text@,
        None => fallback,
    }
}

/// The window that an option asks for: the default where none was given,
/// else the number that the text writes, white space around it aside.
pub open spec fn window_of(option: Option<String>) -> Option<i64> {
    match option {
        Some(text) => decimal_i64(trimmed(text@)),
        None => Some(DEFAULT_WINDOW),
    }
}

/// Settles the options: what was not given takes its default, and the
/// window is read as a number of seconds.
pub fn resolve(listen: Option<String>, sampler: Option<String>, window: Option<String>) -> (settled:
    Result<Settings, SettingsError>)
    ensures
        match settled {
            Ok(settings) => {
                &&& settings.listen@ == text_or(listen, DEFAULT_LISTEN@)
                &&& settings.sampler@ == text_or(sampler, DEFAULT_SAMPLER@)
                &&& window_of(window) == Some(settings.window)
            },
            Err(error) => error == SettingsError::Window && window_of(window) is None,
        },
{
    let seconds = match &window {
        Some(text) => match parse_i64(text.as_str()) {
            Some(number) => number,
            None => { return Err(SettingsError::Window); },
        },
        None => DEFAULT_WINDOW,
    };
    let listen = match listen {
        Some(text) => text,
        None => DEFAULT_LISTEN.to_owned(),
    };
    let sampler = match sampler {
        Some(text) => text,
        None => DEFAULT_SAMPLER.to_owned(),
    };
    Ok(Settings { listen, sampler, window: seconds })
}

} // verus!
