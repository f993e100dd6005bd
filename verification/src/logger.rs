//! Log levels, the filter on them, and the text of a log line.
//!
//! The logger writes nothing itself. It decides whether a message is let
//! through and renders the line; the caller, who knows the time and the
//! thread, hands those in and sends the line where the record says.

use crate::text::{decimal, decimal_string};
use vstd::prelude::*;
use vstd::string::*;

verus! {

/// The kinds of message, most urgent first.
#[derive(Debug, Clone, Copy, PartialEq, Eq, PartialOrd, Ord, Structural)]
pub enum LogLevel {
    Error,
    Warning,
    Info,
    Success,
    Scan,
    Hook,
    Bypass,
}

/// The colours a line can be shown in.
#[derive(Debug, Clone, Copy, PartialEq, Eq, Structural)]
pub enum LogColor {
    Red,
    Yellow,
    Cyan,
    Green,
    Magenta,
}

/// The two streams a line can go to.
#[derive(Debug, Clone, Copy, PartialEq, Eq, Structural)]
pub enum LogStream {
    Stdout,
    Stderr,
}

impl LogLevel {
    /// The place of the level in the order of urgency, from 0 for errors.
    pub open spec fn severity(self) -> nat {
        match self {
            LogLevel::Error => 0,
            LogLevel::Warning => 1,
            LogLevel::Info => 2,
            LogLevel::Success => 3,
            LogLevel::Scan => 4,
            LogLevel::Hook => 5,
            LogLevel::Bypass => 6,
        }
    }

    /// The word that a line of this level is tagged with.
    pub open spec fn label(self) -> Seq<char> {
        match self {
            LogLevel::Error => "ERROR"@,
            LogLevel::Warning => "WARNING"@,
            LogLevel::Info => "INFO"@,
            LogLevel::Success => "SUCCESS"@,
            LogLevel::Scan => "SCAN"@,
            LogLevel::Hook => "HOOK"@,
            LogLevel::Bypass => "BYPASS"@,
        }
    }

    /// The colour that a line of this level is shown in.
    pub open spec fn color(self) -> LogColor {
        match self {
            LogLevel::Error => LogColor::Red,
            LogLevel::Warning => LogColor::Yellow,
            LogLevel::Info => LogColor::Cyan,
            LogLevel::Success => LogColor::Green,
            LogLevel::Scan => LogColor::Yellow,
            LogLevel::Hook => LogColor::Magenta,
            LogLevel::Bypass => LogColor::Green,
        }
    }

    /// The stream that a line of this level goes to: errors to the error
    /// stream, everything else to the output stream.
    pub open spec fn stream(self) -> LogStream {
        if self == LogLevel::Error {
            LogStream::Stderr
        } else {
            LogStream::Stdout
        }
    }

    /// The place of the level in the order of urgency.
    pub fn rank(&self) -> (r: u8)
        ensures
            r == self.severity(),
    {
        match self {
            LogLevel::Error => 0,
            LogLevel::Warning => 1,
            LogLevel::Info => 2,
            LogLevel::Success => 3,
            LogLevel::Scan => 4,
            LogLevel::Hook => 5,
            LogLevel::Bypass => 6,
        }
    }

    /// The word that a line of this level is tagged with.
    pub fn as_str(&self) -> (r: &'static str)
        ensures
            r@ == self.label(),
    {
        match self {
            LogLevel::Error => "ERROR",
            LogLevel::Warning => "WARNING",
            LogLevel::Info => "INFO",
            LogLevel::Success => "SUCCESS",
            LogLevel::Scan => "SCAN",
            LogLevel::Hook => "HOOK",
            LogLevel::Bypass => "BYPASS",
        }
    }
}

/// What a logger lets through and how it dresses a line.
#[derive(Debug, Clone, Copy)]
pub struct LoggerConfig {
    /// The least urgent level that is still let through.
    pub min_level: LogLevel,
    /// Whether a line starts with the time.
    pub show_timestamps: bool,
    /// Whether a line names the thread.
    pub show_thread_ids: bool,
    /// Whether a line is shown in the colour of its level.
    pub colored_output: bool,
}

impl Default for LoggerConfig {
    /// Lets through everything down to `Info`, with the time, without the
    /// thread, in colour.
    fn default() -> (r: Self)
        ensures
            r.min_level == LogLevel::Info,
            r.show_timestamps,
            !r.show_thread_ids,
            r.colored_output,
    {
        LoggerConfig {
            min_level: LogLevel::Info,
            show_timestamps: true,
            show_thread_ids: false,
            colored_output: true,
        }
    }
}

/// What only the caller knows of the moment a message is logged.
#[derive(Debug)]
pub struct LogStamp {
    /// Seconds since the Unix epoch, if the clock could be read.
    pub unix_seconds: Option<u64>,
    /// The name of the logging thread.
    pub thread: String,
}

/// A line that was let through: its text and how to show it.
#[derive(Debug)]
pub struct LogRecord {
    pub level: LogLevel,
    pub text: String,
    pub stream: LogStream,
    pub color: Option<LogColor>,
}

/// Whether a logger with this configuration lets the level through.
pub open spec fn lets_through(config: LoggerConfig, level: LogLevel) -> bool {
    level.severity() <= config.min_level.severity()
}

/// The time in front of a line, if the configuration asks for it and the
/// clock could be read.
pub open spec fn time_prefix(config: LoggerConfig, stamp: LogStamp) -> Seq<char> {
    if config.show_timestamps && stamp.unix_seconds is Some {
        "["@ + decimal(stamp.unix_seconds->0 as nat) + "] "@
    } else {
        Seq::empty()
    }
}

/// The thread in front of a line, if the configuration asks for it.
pub open spec fn thread_prefix(config: LoggerConfig, stamp: LogStamp) -> Seq<char> {
    if config.show_thread_ids {
        "[T"@ + stamp.thread@ + "] "@
    } else {
        Seq::empty()
    }
}

/// The text of a line: time, thread, the level's label in brackets, and
/// the message.
pub open spec fn formatted(
    config: LoggerConfig,
    level: LogLevel,
    msg: Seq<char>,
    stamp: LogStamp,
) -> Seq<char> {
    time_prefix(config, stamp) + thread_prefix(config, stamp) + "["@ + level.label() + "] "@ + msg
}

/// The colour of a line, if the configuration asks for colour.
pub open spec fn shown_color(config: LoggerConfig, level: LogLevel) -> Option<LogColor> {
    if config.colored_output {
        Some(level.color())
    } else {
        None
    }
}

/// Filters messages by level and renders those that pass.
pub struct Logger {
    config: LoggerConfig,
}

impl View for Logger {
    type V = LoggerConfig;

    closed spec fn view(&self) -> LoggerConfig {
        self.config
    }
}

impl Logger {
    /// A logger with the default configuration.
    pub fn new() -> (r: Self)
        ensures
            r@.min_level == LogLevel::Info,
            r@.show_timestamps,
            !r@.show_thread_ids,
            r@.colored_output,
    {
        Logger { config: LoggerConfig::default() }
    }

    /// A logger with the given configuration.
    pub fn with_config(config: LoggerConfig) -> (r: Self)
        ensures
            r@ == config,
    {
        Logger { config }
    }

    /// Replaces the configuration.
    pub fn set_config(&mut self, config: LoggerConfig)
        ensures
            final(self)@ == config,
    {
        self.config = config;
    }

    /// The configuration in use.
    pub fn config(&self) -> (r: LoggerConfig)
        ensures
            r == self@,
    {
        self.config
    }

    /// The line for a message of the given level, if the level is let
    /// through.
    pub fn log(&self, level: LogLevel, msg: &str, stamp: &LogStamp) -> (r: Option<LogRecord>)
        ensures
            r is Some <==> lets_through(self@, level),
            r matches Some(record) ==> {
                &&& record.level == level
                &&& record.text@ == formatted(self@, level, msg@, *stamp)
                &&& record.stream == level.stream()
                &&& record.color == shown_color(self@, level)
            },
    {
        if level.rank() > self.config.min_level.rank() {
            return None;
        }
        let text = self.format_message(level, msg, &self.config, stamp);
        let stream = match level {
            LogLevel::Error => LogStream::Stderr,
            _ => LogStream::Stdout,
        };
        let color = if self.config.colored_output {
            Some(self.get_color_for_level(level))
        } else {
            None
        };
        Some(LogRecord { level, text, stream, color })
    }

    /// The text of a line.
    pub fn format_message(
        &self,
        level: LogLevel,
        msg: &str,
        config: &LoggerConfig,
        stamp: &LogStamp,
    ) -> (r: String)
        ensures
            r@ == formatted(*config, level, msg@, *stamp),
    {
        let mut out = String::new();
        if config.show_timestamps {
            if let Some(seconds) = stamp.unix_seconds {
                out.append("[");
                let digits = decimal_string(seconds);
                out.append(digits.as_str());
                out.append("] ");
            }
        }
        assert(out@ =~= time_prefix(*config, *stamp));
        if config.show_thread_ids {
            out.append("[T");
            out.append(stamp.thread.as_str());
            out.append("] ");
        }
        assert(out@ =~= time_prefix(*config, *stamp) + thread_prefix(*config, *stamp));
        out.append("[");
        out.append(level.as_str());
        out.append("] ");
        out.append(msg);
        assert(out@ =~= formatted(*config, level, msg@, *stamp));
        out
    }

    /// The colour of a level.
    pub fn get_color_for_level(&self, level: LogLevel) -> (r: LogColor)
        ensures
            r == level.color(),
    {
        match level {
            LogLevel::Error => LogColor::Red,
            LogLevel::Warning => LogColor::Yellow,
            LogLevel::Info => LogColor::Cyan,
            LogLevel::Success => LogColor::Green,
            LogLevel::Scan => LogColor::Yellow,
            LogLevel::Hook => LogColor::Magenta,
            LogLevel::Bypass => LogColor::Green,
        }
    }

    /// The line for an `Info` message, if that level is let through.
    pub fn info_instance(&self, msg: &str, stamp: &LogStamp) -> (r: Option<LogRecord>)
        ensures
            r is Some <==> lets_through(self@, LogLevel::Info),
            r matches Some(record) ==> record.level == LogLevel::Info && record.text@
                == formatted(self@, LogLevel::Info, msg@, *stamp) && record.stream
                == LogStream::Stdout && record.color == shown_color(self@, LogLevel::Info),
    {
        self.log(LogLevel::Info, msg, stamp)
    }

    /// The line for a `Success` message, if that level is let through.
    pub fn success_instance(&self, msg: &str, stamp: &LogStamp) -> (r: Option<LogRecord>)
        ensures
            r is Some <==> lets_through(self@, LogLevel::Success),
            r matches Some(record) ==> record.level == LogLevel::Success && record.text@
                == formatted(self@, LogLevel::Success, msg@, *stamp) && record.stream
                == LogStream::Stdout && record.color == shown_color(self@, LogLevel::Success),
    {
        self.log(LogLevel::Success, msg, stamp)
    }

    /// The line for a `Warning` message, if that level is let through.
    pub fn warning_instance(&self, msg: &str, stamp: &LogStamp) -> (r: Option<LogRecord>)
        ensures
            r is Some <==> lets_through(self@, LogLevel::Warning),
            r matches Some(record) ==> record.level == LogLevel::Warning && record.text@
                == formatted(self@, LogLevel::Warning, msg@, *stamp) && record.stream
                == LogStream::Stdout && record.color == shown_color(self@, LogLevel::Warning),
    {
        self.log(LogLevel::Warning, msg, stamp)
    }

    /// The line for an `Error` message, which every configuration lets
    /// through.
    pub fn error_instance(&self, msg: &str, stamp: &LogStamp) -> (r: Option<LogRecord>)
        ensures
            r matches Some(record) && record.level == LogLevel::Error && record.text@
                == formatted(self@, LogLevel::Error, msg@, *stamp) && record.stream
                == LogStream::Stderr && record.color == shown_color(self@, LogLevel::Error),
    {
        self.log(LogLevel::Error, msg, stamp)
    }

    /// The line for a `Scan` message, if that level is let through.
    pub fn scan_instance(&self, msg: &str, stamp: &LogStamp) -> (r: Option<LogRecord>)
        ensures
            r is Some <==> lets_through(self@, LogLevel::Scan),
            r matches Some(record) ==> record.level == LogLevel::Scan && record.text@
                == formatted(self@, LogLevel::Scan, msg@, *stamp) && record.stream
                == LogStream::Stdout && record.color == shown_color(self@, LogLevel::Scan),
    {
        self.log(LogLevel::Scan, msg, stamp)
    }

    /// The line for a `Hook` message, if that level is let through.
    pub fn hook_instance(&self, msg: &str, stamp: &LogStamp) -> (r: Option<LogRecord>)
        ensures
            r is Some <==> lets_through(self@, LogLevel::Hook),
            r matches Some(record) ==> record.level == LogLevel::Hook && record.text@
                == formatted(self@, LogLevel::Hook, msg@, *stamp) && record.stream
                == LogStream::Stdout && record.color == shown_color(self@, LogLevel::Hook),
    {
        self.log(LogLevel::Hook, msg, stamp)
    }

    /// The line for a `Bypass` message, if that level is let through.
    pub fn bypass_instance(&self, msg: &str, stamp: &LogStamp) -> (r: Option<LogRecord>)
        ensures
            r is Some <==> lets_through(self@, LogLevel::Bypass),
            r matches Some(record) ==> record.level == LogLevel::Bypass && record.text@
                == formatted(self@, LogLevel::Bypass, msg@, *stamp) && record.stream
                == LogStream::Stdout && record.color == shown_color(self@, LogLevel::Bypass),
    {
        self.log(LogLevel::Bypass, msg, stamp)
    }
}

} // verus!
