//! The logger: the level filter, the log line and the write path together.
//!
//! A logger holds its configuration and the account of its active file. It
//! does not touch the file itself. Every log call returns a `LogAction` that
//! tells the caller what to do with the file: nothing, append a line, or
//! close the file, create the next one and write the line there. A caller
//! who carries out each action keeps the file on disk in step with the
//! account.
//!
//! A logger that is started now, and a message that is logged now, need a
//! reading of the clock. Where the clock gives none, no logger is started
//! and no message is logged, and the caller is told so.

use vstd::prelude::*;
use vstd::string::StringExecFns;
use vstd::utf8::encode_utf8;
use crate::caller::CallerId;
use crate::calendar::{instant_before, lemma_stamps_in_order, stamp_text, valid_instant};
use crate::clock::Timestamp;
use crate::config::{LogConfig, LogConfigView};
use crate::level::{should_emit, LogLevel};
use crate::naming::{file_name, lemma_names_sort_as_instants, sorts_before};
use crate::text::byte_len;
use crate::writer::{ActiveFile, ActiveFileView};

verus! {

/// The line that is written for a message: the level, a colon, the caller,
/// a space, the message and a line feed.
pub open spec fn line_text(level: LogLevel, caller: Seq<char>, message: Seq<char>) -> Seq<char> {
    level.label() + ":"@ + caller + " "@ + message + "\n"@
}

/// The number of bytes that a line takes in the file.
pub open spec fn line_bytes(line: Seq<char>) -> nat {
    encode_utf8(line).len()
}

/// Builds the line that is written for a message.
pub fn format_line(level: LogLevel, caller: &CallerId, message: &str) -> (line: String)
    ensures
        line@ == line_text(level, caller@, message@),
{
    let mut line = String::from_str(level.as_str());
    line.append(":");
    line.append(caller.as_str());
    line.append(" ");
    line.append(message);
    line.append("\n");
    line
}

/// What the caller of a log call has to do with the log file.
#[derive(Debug, Clone, PartialEq, Eq)]
pub enum LogAction {
    /// Nothing: the message is below the configured level.
    Suppressed,
    /// Append the line to the active file.
    Append { line: String },
    /// Close the active file, create the file with the given name in its
    /// place, and write the line to it.
    Rotate { file_name: String, line: String },
}

/// What a `LogAction` stands for.
pub enum LogActionView {
    Suppressed,
    Append { line: Seq<char> },
    Rotate { file_name: Seq<char>, line: Seq<char> },
}

impl View for LogAction {
    type V = LogActionView;

    open spec fn view(&self) -> LogActionView {
        match self {
            LogAction::Suppressed => LogActionView::Suppressed,
            LogAction::Append { line } => LogActionView::Append { line: line@ },
            LogAction::Rotate { file_name, line } => LogActionView::Rotate {
                file_name: file_name@,
                line: line@,
            },
        }
    }
}

/// A logger: its configuration and the account of its active file.
#[derive(Debug)]
pub struct Logger {
    config: LogConfig,
    active: ActiveFile,
}

/// What a `Logger` stands for.
pub struct LoggerView {
    pub config: LogConfigView,
    pub active: ActiveFileView,
}

impl View for Logger {
    type V = LoggerView;

    closed spec fn view(&self) -> LoggerView {
        LoggerView { config: self.config@, active: self.active@ }
    }
}

impl LoggerView {
    /// The logger that is started with `config` at the given instant: its
    /// first file is empty and named by that instant.
    pub open spec fn started(config: LogConfigView, seconds: int, nanos: int) -> LoggerView {
        LoggerView {
            config: config,
            active: ActiveFileView::opened(config.file_prefix, seconds, nanos),
        }
    }

    /// Whether a message of the given level is written.
    pub open spec fn emits(self, level: LogLevel) -> bool {
        level.severity() >= self.config.level.severity()
    }

    /// The logger after a message was logged at the given instant. A message
    /// below the configured level leaves it as it is.
    pub open spec fn after_log(
        self,
        level: LogLevel,
        caller: Seq<char>,
        message: Seq<char>,
        seconds: int,
        nanos: int,
    ) -> LoggerView {
        if self.emits(level) {
            LoggerView {
                active: self.active.after_write(
                    self.config.file_prefix,
                    line_bytes(line_text(level, caller, message)),
                    seconds,
                    nanos,
                    self.config.rolling_config,
                ),
                ..self
            }
        } else {
            self
        }
    }

    /// What the caller has to do with the file when a message is logged at
    /// the given instant.
    pub open spec fn action_of_log(
        self,
        level: LogLevel,
        caller: Seq<char>,
        message: Seq<char>,
        seconds: int,
        nanos: int,
    ) -> LogActionView {
        let line = line_text(level, caller, message);
        if !self.emits(level) {
            LogActionView::Suppressed
        } else if self.active.rotation_due(line_bytes(line), seconds, self.config.rolling_config) {
            LogActionView::Rotate {
                file_name: file_name(self.config.file_prefix, stamp_text(seconds, nanos)),
                line: line,
            }
        } else {
            LogActionView::Append { line: line }
        }
    }

    /// Whether logging a message at the given instant takes this logger to
    /// `after` and asks the caller for `action`.
    pub open spec fn logs(
        self,
        after: LoggerView,
        action: LogActionView,
        level: LogLevel,
        caller: Seq<char>,
        message: Seq<char>,
        seconds: int,
        nanos: int,
    ) -> bool {
        &&& after == self.after_log(level, caller, message, seconds, nanos)
        &&& action == self.action_of_log(level, caller, message, seconds, nanos)
    }

    /// Whether logging a message now has the given outcome: with a reading
    /// of the clock, the logger and the action are those of logging at some
    /// instant; without one, which can only happen to a message that would
    /// be written, the logger is as it was.
    pub open spec fn logs_now(
        self,
        after: LoggerView,
        action: Option<LogActionView>,
        level: LogLevel,
        caller: Seq<char>,
        message: Seq<char>,
    ) -> bool {
        match action {
            Some(action) => exists|seconds: int, nanos: int|
                valid_instant(seconds, nanos) && #[trigger] self.logs(
                    after,
                    action,
                    level,
                    caller,
                    message,
                    seconds,
                    nanos,
                ),
            None => self.emits(level) && after == self,
        }
    }
}

/// The view of what a log call returns where it may have no reading of the
/// clock.
pub open spec fn action_view(action: Option<LogAction>) -> Option<LogActionView> {
    match action {
        Some(action) => Some(action@),
        None => None,
    }
}

impl Logger {
    /// Starts a logger now, with the given configuration or, where none is
    /// given, with the default one. The caller has to create the file that
    /// `file_name` returns. Where the clock gives no reading, no logger is
    /// started.
    pub fn new(config: Option<LogConfig>) -> (started: Option<Logger>)
        ensures
            started matches Some(logger) ==> exists|seconds: int, nanos: int|
                valid_instant(seconds, nanos) && logger@ == #[trigger] LoggerView::started(
                    LogConfigView::given_or_initial(config),
                    seconds,
                    nanos,
                ),
    {
        let config = match config {
            Some(given) => given,
            None => LogConfig::new(),
        };
        match Timestamp::now() {
            Some(reading) => {
                Some(Logger::new_at(config, &reading))
            },
            None => None,
        }
    }

    /// Starts a logger with the given configuration at the instant `now`.
    pub fn new_at(config: LogConfig, now: &Timestamp) -> (logger: Logger)
        ensures
            logger@ == LoggerView::started(config@, now@.seconds, now@.nanos),
    {
        let active = ActiveFile::open(config.file_prefix(), now);
        Logger { config, active }
    }

    /// The configuration of the logger.
    pub fn config(&self) -> (config: &LogConfig)
        ensures
            config@ == self@.config,
    {
        &self.config
    }

    /// The account of the active file.
    pub fn active_file(&self) -> (file: &ActiveFile)
        ensures
            file@ == self@.active,
    {
        &self.active
    }

    /// The name of the active file.
    pub fn file_name(&self) -> (name: &str)
        ensures
            name@ == self@.active.name,
    {
        self.active.name()
    }

    /// Logs a message at the instant `now`. A message below the configured
    /// level is dropped. Any other is made into a line, the active file is
    /// replaced if that is due, and the line is added to the account of the
    /// file that is then active.
    pub fn log_at(
        &mut self,
        message: &str,
        log_level: LogLevel,
        caller: &CallerId,
        now: &Timestamp,
    ) -> (action: LogAction)
        ensures
            old(self)@.logs(
                final(self)@,
                action@,
                log_level,
                caller@,
                message@,
                now@.seconds,
                now@.nanos,
            ),
    {
        if !should_emit(log_level, self.config.level()) {
            return LogAction::Suppressed;
        }
        let line = format_line(log_level, caller, message);
        let policy = self.config.rolling_config();
        let rotated = self.active.write(
            self.config.file_prefix(),
            byte_len(line.as_str()),
            now,
            &policy,
        );
        if rotated {
            LogAction::Rotate { file_name: String::from_str(self.active.name()), line }
        } else {
            LogAction::Append { line }
        }
    }

    /// Logs a message now. It does what `log_at` does at the instant that
    /// the clock shows. The clock is read only for a message that is
    /// written; where it gives no reading, nothing is logged and nothing is
    /// returned.
    pub fn log(&mut self, message: &str, log_level: LogLevel, caller: &CallerId) -> (action: Option<
        LogAction,
    >)
        ensures
            old(self)@.logs_now(final(self)@, action_view(action), log_level, caller@, message@),
    {
        if !should_emit(log_level, self.config.level()) {
            let action = LogAction::Suppressed;
            assert(valid_instant(0, 0) && old(self)@.logs(
                self@,
                action@,
                log_level,
                caller@,
                message@,
                0,
                0,
            ));
            return Some(action);
        }
        match Timestamp::now() {
            Some(reading) => {
                Some(self.log_at(message, log_level, caller, &reading))
            },
            None => None,
        }
    }

    /// Logs a message of level `Debug`.
    pub fn debug(&mut self, message: &str, caller: &CallerId) -> (action: Option<LogAction>)
        ensures
            old(self)@.logs_now(
                final(self)@,
                action_view(action),
                LogLevel::Debug,
                caller@,
                message@,
            ),
    {
        self.log(message, LogLevel::Debug, caller)
    }

    /// Logs a message of level `Info`.
    pub fn info(&mut self, message: &str, caller: &CallerId) -> (action: Option<LogAction>)
        ensures
            old(self)@.logs_now(
                final(self)@,
                action_view(action),
                LogLevel::Info,
                caller@,
                message@,
            ),
    {
        self.log(message, LogLevel::Info, caller)
    }

    /// Logs a message of level `Warn`.
    pub fn warn(&mut self, message: &str, caller: &CallerId) -> (action: Option<LogAction>)
        ensures
            old(self)@.logs_now(
                final(self)@,
                action_view(action),
                LogLevel::Warn,
                caller@,
                message@,
            ),
    {
        self.log(message, LogLevel::Warn, caller)
    }

    /// Logs a message of level `Error`.
    pub fn error(&mut self, message: &str, caller: &CallerId) -> (action: Option<LogAction>)
        ensures
            old(self)@.logs_now(
                final(self)@,
                action_view(action),
                LogLevel::Error,
                caller@,
                message@,
            ),
    {
        self.log(message, LogLevel::Error, caller)
    }

    /// Logs a message of level `Critical`.
    pub fn critical(&mut self, message: &str, caller: &CallerId) -> (action: Option<LogAction>)
        ensures
            old(self)@.logs_now(
                final(self)@,
                action_view(action),
                LogLevel::Critical,
                caller@,
                message@,
            ),
    {
        self.log(message, LogLevel::Critical, caller)
    }
}

/// Two loggers that are started with the same prefix, one after the other,
/// name their first files in that order: the names are different, and the
/// name of the earlier logger's file sorts first.
pub proof fn lemma_starts_in_order(
    config: LogConfigView,
    later_config: LogConfigView,
    seconds: int,
    nanos: int,
    later_seconds: int,
    later_nanos: int,
)
    requires
        config.file_prefix == later_config.file_prefix,
        valid_instant(seconds, nanos),
        valid_instant(later_seconds, later_nanos),
        instant_before(seconds, nanos, later_seconds, later_nanos),
    ensures
        ({
            let first = LoggerView::started(config, seconds, nanos).active.name;
            let second = LoggerView::started(later_config, later_seconds, later_nanos).active.name;
            first != second && sorts_before(first, second)
        }),
{
    lemma_names_sort_as_instants(config.file_prefix, seconds, nanos, later_seconds, later_nanos);
}

/// Two rotations in a row name their files in the order of their instants.
/// Where a log call replaces the file, and the next log call, at a later
/// instant, replaces it again, both new files are named by the prefix of
/// the configuration and the instant of their call, the two names are
/// different, and the first sorts before the second.
pub proof fn lemma_rotations_in_a_row(
    logger: LoggerView,
    first_level: LogLevel,
    first_caller: Seq<char>,
    first_message: Seq<char>,
    first_seconds: int,
    first_nanos: int,
    second_level: LogLevel,
    second_caller: Seq<char>,
    second_message: Seq<char>,
    second_seconds: int,
    second_nanos: int,
)
    requires
        valid_instant(first_seconds, first_nanos),
        valid_instant(second_seconds, second_nanos),
        instant_before(first_seconds, first_nanos, second_seconds, second_nanos),
        logger.action_of_log(
            first_level,
            first_caller,
            first_message,
            first_seconds,
            first_nanos,
        ) is Rotate,
        logger.after_log(
            first_level,
            first_caller,
            first_message,
            first_seconds,
            first_nanos,
        ).action_of_log(
            second_level,
            second_caller,
            second_message,
            second_seconds,
            second_nanos,
        ) is Rotate,
    ensures
        ({
            let first = logger.action_of_log(
                first_level,
                first_caller,
                first_message,
                first_seconds,
                first_nanos,
            );
            let second = logger.after_log(
                first_level,
                first_caller,
                first_message,
                first_seconds,
                first_nanos,
            ).action_of_log(
                second_level,
                second_caller,
                second_message,
                second_seconds,
                second_nanos,
            );
            let prefix = logger.config.file_prefix;
            &&& first->Rotate_file_name == file_name(prefix, stamp_text(first_seconds, first_nanos))
            &&& second->Rotate_file_name == file_name(
                prefix,
                stamp_text(second_seconds, second_nanos),
            )
            &&& first->Rotate_file_name != second->Rotate_file_name
            &&& sorts_before(first->Rotate_file_name, second->Rotate_file_name)
        }),
{
    lemma_names_sort_as_instants(
        logger.config.file_prefix,
        first_seconds,
        first_nanos,
        second_seconds,
        second_nanos,
    );
}

} // verus!
