use vstd::prelude::*;

verus! {

/// How much a logger reports, from least to most.
#[derive(Debug, Clone, Copy, PartialEq, Eq, Structural)]
pub enum LogLevel {
    Error,
    Warning,
    Info,
    Debug,
}

/// The rank of a level: a message is shown when its rank is at most the
/// logger's.
pub open spec fn rank(level: LogLevel) -> int {
    match level {
        LogLevel::Error => 0,
        LogLevel::Warning => 1,
        LogLevel::Info => 2,
        LogLevel::Debug => 3,
    }
}

/// The level that a logger is configured with.
#[derive(Debug, Clone, Copy)]
pub struct Logger {
    pub level: LogLevel,
}

impl Logger {
    pub fn new(level: LogLevel) -> (r: Logger)
        ensures
            r.level == level,
    {
        Logger { level }
    }

    /// Whether a message of `level` is shown.
    pub fn should_log(&self, level: LogLevel) -> (r: bool)
        ensures
            r == (rank(level) <= rank(self.level)),
    {
        match self.level {
            LogLevel::Debug => true,
            LogLevel::Info => match level {
                LogLevel::Debug => false,
                _ => true,
            },
            LogLevel::Warning => match level {
                LogLevel::Warning | LogLevel::Error => true,
                _ => false,
            },
            LogLevel::Error => match level {
                LogLevel::Error => true,
                _ => false,
            },
        }
    }

    /// The label that a message of `level` carries.
    pub fn label(level: LogLevel) -> (r: &'static str)
        ensures
            r@ == (match level {
                LogLevel::Debug => "DEBUG"@,
                LogLevel::Info => "INFO"@,
                LogLevel::Warning => "WARNING"@,
                LogLevel::Error => "ERROR"@,
            }),
    {
        match level {
            LogLevel::Debug => "DEBUG",
            LogLevel::Info => "INFO",
            LogLevel::Warning => "WARNING",
            LogLevel::Error => "ERROR",
        }
    }
}

} // verus!
