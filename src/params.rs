//! Decisions on the executable's parameters: color and verbosity.

use vstd::prelude::*;

verus! {

/// Whether or not to output in color
#[derive(Clone, Copy, Debug, PartialEq, Eq, Structural)]
pub enum ColorChoice {
    /// Output in color when running in a terminal that supports it
    Auto,
    /// Always output in color
    Always,
    /// Never output in color
    Never,
}

impl Default for ColorChoice {
    fn default() -> (r: Self)
        ensures
            r == ColorChoice::Auto,
    {
        ColorChoice::Auto
    }
}

impl ColorChoice {
    /// The choice to use on a stream: `Auto` becomes `Never` on a stream
    /// that is not a terminal.
    pub fn for_stream(self, is_terminal: bool) -> (r: ColorChoice)
        ensures
            r == (if self == ColorChoice::Auto && !is_terminal { ColorChoice::Never } else { self }),
    {
        if self == ColorChoice::Auto && !is_terminal {
            ColorChoice::Never
        } else {
            self
        }
    }
}

/// How much the executable logs.
#[derive(Clone, Copy, Debug, PartialEq, Eq, Structural)]
pub enum LogLevel {
    Warn,
    Info,
    Debug,
    Trace,
}

/// The verbosity was asked for more than three times.
#[derive(Clone, Copy, Debug, PartialEq, Eq, Structural)]
pub struct TooVerbose {
    pub verbose: u8,
}

impl TooVerbose {
    /// The message for this error.
    pub fn message(&self) -> (r: String)
        ensures
            r@ == "-v is only allowed up to 3 times."@,
    {
        String::from_str("-v is only allowed up to 3 times.")
    }
}

/// The log level for a count of `-v` flags: warnings alone by default, and
/// one level more for each flag, up to three.
pub fn log_level(verbose: u8) -> (r: Result<LogLevel, TooVerbose>)
    ensures
        verbose == 0 ==> r == Ok::<LogLevel, TooVerbose>(LogLevel::Warn),
        verbose == 1 ==> r == Ok::<LogLevel, TooVerbose>(LogLevel::Info),
        verbose == 2 ==> r == Ok::<LogLevel, TooVerbose>(LogLevel::Debug),
        verbose == 3 ==> r == Ok::<LogLevel, TooVerbose>(LogLevel::Trace),
        verbose >= 4 ==> r == Err::<LogLevel, TooVerbose>(TooVerbose { verbose }),
{
    match verbose {
        0 => Ok(LogLevel::Warn),
        1 => Ok(LogLevel::Info),
        2 => Ok(LogLevel::Debug),
        3 => Ok(LogLevel::Trace),
        _ => Err(TooVerbose { verbose }),
    }
}

} // verus!
