use vstd::prelude::*;

verus! {

/// How much the daemon logs.
#[derive(Clone, Copy, Debug, PartialEq, Eq, Structural)]
pub enum Verbosity {
    Off,
    Error,
    Warn,
    Info,
    Debug,
    Trace,
}

/// When log output is colored.
#[derive(Clone, Copy, Debug, PartialEq, Eq, Structural)]
pub enum Color {
    /// Only when standard error is a terminal.
    Auto,
    Always,
    Never,
}

/// The logging options of the command line.
#[derive(Clone, Copy, Debug, PartialEq, Eq, Structural)]
pub struct Logging {
    pub verbosity: Verbosity,
    pub color: Color,
}

pub open spec fn spec_use_color(color: Color, stderr_is_terminal: bool) -> bool {
    match color {
        Color::Auto => stderr_is_terminal,
        Color::Always => true,
        Color::Never => false,
    }
}

impl Logging {
    /// Logging at `Info`, colored on a terminal.
    pub fn new() -> (r: Logging)
        ensures
            r.verbosity == Verbosity::Info,
            r.color == Color::Auto,
    {
        Logging { verbosity: Verbosity::Info, color: Color::Auto }
    }

    /// Whether log output is colored, given whether standard error is a
    /// terminal.
    pub fn use_color(&self, stderr_is_terminal: bool) -> (r: bool)
        ensures
            r == spec_use_color(self.color, stderr_is_terminal),
    {
        match self.color {
            Color::Auto => stderr_is_terminal,
            Color::Always => true,
            Color::Never => false,
        }
    }
}

} // verus!
