//! The configuration of a logger, built step by step or read from a
//! document.
//!
//! A document is read entry by entry, in the order of the entries. The keys
//! `level`, `file_prefix` and `rolling_config` set the respective part of the
//! configuration, a later entry replacing what an earlier one set; inside
//! `rolling_config` the keys `size_threshold` and `time_threshold` do the
//! same. Every other key is passed over. The first entry that cannot be
//! accepted ends the reading with its error.

use vstd::prelude::*;
use vstd::string::StringExecFns;
use crate::document::{entries_view, json_text_content, lemma_document_view, Node, NodeView};
use crate::error::ConfigError;
use crate::level::LogLevel;
use crate::text::same_text;
use crate::threshold::{RollingSizeOptions, RollingTimeOptions};

verus! {

/// When the active log file is replaced by a new one: at a size and at an
/// age.
#[derive(Debug, Clone, Copy, PartialEq, Eq)]
pub struct RollingConfig {
    time_threshold: RollingTimeOptions,
    size_threshold: RollingSizeOptions,
}

/// What a `RollingConfig` stands for.
pub struct RollingConfigView {
    pub time_threshold: RollingTimeOptions,
    pub size_threshold: RollingSizeOptions,
}

impl RollingConfigView {
    /// The policy of a logger that was given none: five megabytes, one hour.
    pub open spec fn initial() -> RollingConfigView {
        RollingConfigView {
            time_threshold: RollingTimeOptions::Hourly,
            size_threshold: RollingSizeOptions::FiveMB,
        }
    }
}

impl View for RollingConfig {
    type V = RollingConfigView;

    closed spec fn view(&self) -> RollingConfigView {
        RollingConfigView {
            time_threshold: self.time_threshold,
            size_threshold: self.size_threshold,
        }
    }
}

/// The size threshold that a value of a document names.
pub open spec fn size_from_node(node: NodeView) -> Result<RollingSizeOptions, ConfigError> {
    match node {
        NodeView::Number(Some(n)) => match RollingSizeOptions::of_bytes(n) {
            Some(size) => Ok(size),
            None => Err(ConfigError::InvalidThreshold),
        },
        _ => Err(ConfigError::InvalidThreshold),
    }
}

/// The time threshold that a value of a document names.
pub open spec fn time_from_node(node: NodeView) -> Result<RollingTimeOptions, ConfigError> {
    match node {
        NodeView::Number(Some(n)) => match RollingTimeOptions::of_seconds(n) {
            Some(time) => Ok(time),
            None => Err(ConfigError::InvalidThreshold),
        },
        _ => Err(ConfigError::InvalidThreshold),
    }
}

/// What one entry of a `rolling_config` document makes of a policy.
pub open spec fn rolling_entry(config: RollingConfigView, key: Seq<char>, node: NodeView) -> Result<
    RollingConfigView,
    ConfigError,
> {
    if key == "size_threshold"@ {
        match size_from_node(node) {
            Ok(size) => Ok(RollingConfigView { size_threshold: size, ..config }),
            Err(e) => Err(e),
        }
    } else if key == "time_threshold"@ {
        match time_from_node(node) {
            Ok(time) => Ok(RollingConfigView { time_threshold: time, ..config }),
            Err(e) => Err(e),
        }
    } else {
        Ok(config)
    }
}

/// What the entries of a `rolling_config` document, taken in order, make of
/// a policy.
pub open spec fn rolling_entries(
    config: RollingConfigView,
    entries: Seq<(Seq<char>, NodeView)>,
) -> Result<RollingConfigView, ConfigError>
    decreases entries.len(),
{
    if entries.len() == 0 {
        Ok(config)
    } else {
        match rolling_entry(config, entries[0].0, entries[0].1) {
            Ok(next) => rolling_entries(next, entries.drop_first()),
            Err(e) => Err(e),
        }
    }
}

/// The policy that a value of a document describes. The value has to be a
/// nested document.
pub open spec fn rolling_from_node(node: NodeView) -> Result<RollingConfigView, ConfigError> {
    match node {
        NodeView::Document(entries) => rolling_entries(RollingConfigView::initial(), entries),
        _ => Err(ConfigError::LoadFailed),
    }
}

fn size_from(node: &Node) -> (r: Result<RollingSizeOptions, ConfigError>)
    ensures
        r == size_from_node(node@),
{
    match node {
        Node::Number(Some(n)) => RollingSizeOptions::from_u64(*n),
        _ => Err(ConfigError::InvalidThreshold),
    }
}

fn time_from(node: &Node) -> (r: Result<RollingTimeOptions, ConfigError>)
    ensures
        r == time_from_node(node@),
{
    match node {
        Node::Number(Some(n)) => RollingTimeOptions::from_u64(*n),
        _ => Err(ConfigError::InvalidThreshold),
    }
}

impl RollingConfig {
    /// The policy of a logger that was given none: five megabytes, one hour.
    pub fn new() -> (config: RollingConfig)
        ensures
            config@ == RollingConfigView::initial(),
    {
        RollingConfig {
            time_threshold: RollingTimeOptions::Hourly,
            size_threshold: RollingSizeOptions::FiveMB,
        }
    }

    /// The same policy with another age.
    pub fn with_time_threshold(self, time: RollingTimeOptions) -> (config: RollingConfig)
        ensures
            config@ == (RollingConfigView { time_threshold: time, ..self@ }),
    {
        RollingConfig { time_threshold: time, size_threshold: self.size_threshold }
    }

    /// The same policy with another size.
    pub fn with_size_threshold(self, size: RollingSizeOptions) -> (config: RollingConfig)
        ensures
            config@ == (RollingConfigView { size_threshold: size, ..self@ }),
    {
        RollingConfig { time_threshold: self.time_threshold, size_threshold: size }
    }

    /// The age at which the file is replaced.
    pub fn time_threshold(&self) -> (time: RollingTimeOptions)
        ensures
            time == self@.time_threshold,
    {
        self.time_threshold
    }

    /// The size at which the file is replaced.
    pub fn size_threshold(&self) -> (size: RollingSizeOptions)
        ensures
            size == self@.size_threshold,
    {
        self.size_threshold
    }

    /// Reads a policy from the value of a `rolling_config` entry. The value
    /// has to be a nested document, and each threshold in it a member of its
    /// catalog; what the document leaves out keeps its default.
    pub fn from_json(json_value: &Node) -> (r: Result<RollingConfig, ConfigError>)
        ensures
            match r {
                Ok(config) => rolling_from_node(json_value@) == Ok::<_, ConfigError>(config@),
                Err(e) => rolling_from_node(json_value@) == Err::<RollingConfigView, _>(e),
            },
    {
        match json_value {
            Node::Document(entries) => {
                proof {
                    lemma_document_view(*entries);
                }
                let ghost views = entries_view(entries@);
                let mut config = RollingConfig::new();
                let mut i: usize = 0;
                assert(views.skip(0) =~= views);
                while i < entries.len()
                    invariant
                        i <= entries.len(),
                        views == entries_view(entries@),
                        json_value@ == NodeView::Document(views),
                        rolling_entries(RollingConfigView::initial(), views) == rolling_entries(
                            config@,
                            views.skip(i as int),
                        ),
                    decreases entries.len() - i,
                {
                    let entry = &entries[i];
                    proof {
                        assert(views.skip(i as int)[0] == (entry.0@, entry.1@));
                        assert(views.skip(i as int).drop_first() =~= views.skip(i + 1));
                    }
                    if same_text(entry.0.as_str(), "size_threshold") {
                        match size_from(&entry.1) {
                            Ok(size) => {
                                config = config.with_size_threshold(size);
                            },
                            Err(e) => {
                                return Err(e);
                            },
                        }
                    } else if same_text(entry.0.as_str(), "time_threshold") {
                        match time_from(&entry.1) {
                            Ok(time) => {
                                config = config.with_time_threshold(time);
                            },
                            Err(e) => {
                                return Err(e);
                            },
                        }
                    }
                    i += 1;
                }
                Ok(config)
            },
            _ => Err(ConfigError::LoadFailed),
        }
    }
}

/// What a logger is told: the least severity that is written, when the
/// file is replaced, and how the names of its files begin.
#[derive(Debug, Clone, PartialEq, Eq)]
pub struct LogConfig {
    level: LogLevel,
    rolling_config: RollingConfig,
    file_prefix: String,
}

/// What a `LogConfig` stands for.
pub struct LogConfigView {
    pub level: LogLevel,
    pub rolling_config: RollingConfigView,
    pub file_prefix: Seq<char>,
}

impl LogConfigView {
    /// The configuration of a logger that was given none: messages from
    /// `Info` upwards, the default policy, and names that begin with
    /// `Logtar_`.
    pub open spec fn initial() -> LogConfigView {
        LogConfigView {
            level: LogLevel::Info,
            rolling_config: RollingConfigView::initial(),
            file_prefix: "Logtar_"@,
        }
    }

    /// What the given configuration stands for, or, where none is given,
    /// the configuration of a logger that was given none.
    pub open spec fn given_or_initial(config: Option<LogConfig>) -> LogConfigView {
        match config {
            Some(given) => given@,
            None => LogConfigView::initial(),
        }
    }
}

impl View for LogConfig {
    type V = LogConfigView;

    closed spec fn view(&self) -> LogConfigView {
        LogConfigView {
            level: self.level,
            rolling_config: self.rolling_config@,
            file_prefix: self.file_prefix@,
        }
    }
}

/// The level that a value of a document names: an integer from 0 to 4.
pub open spec fn level_from_node(node: NodeView) -> Result<LogLevel, ConfigError> {
    match node {
        NodeView::Number(Some(n)) => match LogLevel::of_severity(n) {
            Some(level) => Ok(level),
            None => Err(ConfigError::InvalidLevel),
        },
        _ => Err(ConfigError::InvalidLevel),
    }
}

/// The file prefix that a value of a document names: a string, taken as it
/// is.
pub open spec fn prefix_from_node(node: NodeView) -> Result<Seq<char>, ConfigError> {
    match node {
        NodeView::Text(prefix) => Ok(prefix),
        _ => Err(ConfigError::LoadFailed),
    }
}

/// What one entry of a document makes of a configuration.
pub open spec fn config_entry(config: LogConfigView, key: Seq<char>, node: NodeView) -> Result<
    LogConfigView,
    ConfigError,
> {
    if key == "level"@ {
        match level_from_node(node) {
            Ok(level) => Ok(LogConfigView { level: level, ..config }),
            Err(e) => Err(e),
        }
    } else if key == "rolling_config"@ {
        match rolling_from_node(node) {
            Ok(rolling) => Ok(LogConfigView { rolling_config: rolling, ..config }),
            Err(e) => Err(e),
        }
    } else if key == "file_prefix"@ {
        match prefix_from_node(node) {
            Ok(prefix) => Ok(LogConfigView { file_prefix: prefix, ..config }),
            Err(e) => Err(e),
        }
    } else {
        Ok(config)
    }
}

/// What the entries of a document, taken in order, make of a configuration.
pub open spec fn config_entries(
    config: LogConfigView,
    entries: Seq<(Seq<char>, NodeView)>,
) -> Result<LogConfigView, ConfigError>
    decreases entries.len(),
{
    if entries.len() == 0 {
        Ok(config)
    } else {
        match config_entry(config, entries[0].0, entries[0].1) {
            Ok(next) => config_entries(next, entries.drop_first()),
            Err(e) => Err(e),
        }
    }
}

/// The configuration that a document describes. The value has to be a
/// key/value document; what it leaves out keeps its default.
pub open spec fn config_from_node(node: NodeView) -> Result<LogConfigView, ConfigError> {
    match node {
        NodeView::Document(entries) => config_entries(LogConfigView::initial(), entries),
        _ => Err(ConfigError::LoadFailed),
    }
}

/// The configuration that a JSON text describes.
pub open spec fn config_from_text(text: Seq<char>) -> Result<LogConfigView, ConfigError> {
    match json_text_content(text) {
        Some(node) => config_from_node(node),
        None => Err(ConfigError::LoadFailed),
    }
}

fn level_from(node: &Node) -> (r: Result<LogLevel, ConfigError>)
    ensures
        r == level_from_node(node@),
{
    match node {
        Node::Number(Some(n)) => LogLevel::from_u64(*n),
        _ => Err(ConfigError::InvalidLevel),
    }
}

fn prefix_from(node: &Node) -> (r: Result<String, ConfigError>)
    ensures
        match r {
            Ok(prefix) => prefix_from_node(node@) == Ok::<_, ConfigError>(prefix@),
            Err(e) => prefix_from_node(node@) == Err::<Seq<char>, _>(e),
        },
{
    match node {
        Node::Text(prefix) => Ok(prefix.clone()),
        _ => Err(ConfigError::LoadFailed),
    }
}

impl LogConfig {
    /// The configuration of a logger that was given none.
    pub fn new() -> (config: LogConfig)
        ensures
            config@ == LogConfigView::initial(),
    {
        LogConfig {
            level: LogLevel::Info,
            rolling_config: RollingConfig::new(),
            file_prefix: String::from_str("Logtar_"),
        }
    }

    /// The same configuration with another level.
    pub fn with_level(self, level: LogLevel) -> (config: LogConfig)
        ensures
            config@ == (LogConfigView { level: level, ..self@ }),
    {
        LogConfig {
            level: level,
            rolling_config: self.rolling_config,
            file_prefix: self.file_prefix,
        }
    }

    /// The same configuration with another rotation policy.
    pub fn with_rolling_config(self, config: RollingConfig) -> (changed: LogConfig)
        ensures
            changed@ == (LogConfigView { rolling_config: config@, ..self@ }),
    {
        LogConfig { level: self.level, rolling_config: config, file_prefix: self.file_prefix }
    }

    /// The same configuration with another file prefix.
    pub fn with_file_prefix(self, prefix: String) -> (config: LogConfig)
        ensures
            config@ == (LogConfigView { file_prefix: prefix@, ..self@ }),
    {
        LogConfig { level: self.level, rolling_config: self.rolling_config, file_prefix: prefix }
    }

    /// The least severity that is written.
    pub fn level(&self) -> (level: LogLevel)
        ensures
            level == self@.level,
    {
        self.level
    }

    /// When the file is replaced.
    pub fn rolling_config(&self) -> (config: RollingConfig)
        ensures
            config@ == self@.rolling_config,
    {
        self.rolling_config
    }

    /// How the names of the log files begin.
    pub fn file_prefix(&self) -> (prefix: &str)
        ensures
            prefix@ == self@.file_prefix,
    {
        self.file_prefix.as_str()
    }

    /// Reads a configuration from a document. The document has to be a
    /// key/value document; an entry that cannot be accepted is reported with
    /// the error of its kind, the first such entry deciding.
    pub fn from_document(document: &Node) -> (r: Result<LogConfig, ConfigError>)
        ensures
            match r {
                Ok(config) => config_from_node(document@) == Ok::<_, ConfigError>(config@),
                Err(e) => config_from_node(document@) == Err::<LogConfigView, _>(e),
            },
    {
        match document {
            Node::Document(entries) => {
                proof {
                    lemma_document_view(*entries);
                }
                let ghost views = entries_view(entries@);
                let mut config = LogConfig::new();
                let mut i: usize = 0;
                assert(views.skip(0) =~= views);
                while i < entries.len()
                    invariant
                        i <= entries.len(),
                        views == entries_view(entries@),
                        document@ == NodeView::Document(views),
                        config_entries(LogConfigView::initial(), views) == config_entries(
                            config@,
                            views.skip(i as int),
                        ),
                    decreases entries.len() - i,
                {
                    let entry = &entries[i];
                    proof {
                        assert(views.skip(i as int)[0] == (entry.0@, entry.1@));
                        assert(views.skip(i as int).drop_first() =~= views.skip(i + 1));
                    }
                    if same_text(entry.0.as_str(), "level") {
                        match level_from(&entry.1) {
                            Ok(level) => {
                                config = config.with_level(level);
                            },
                            Err(e) => {
                                return Err(e);
                            },
                        }
                    } else if same_text(entry.0.as_str(), "rolling_config") {
                        match RollingConfig::from_json(&entry.1) {
                            Ok(rolling) => {
                                config = config.with_rolling_config(rolling);
                            },
                            Err(e) => {
                                return Err(e);
                            },
                        }
                    } else if same_text(entry.0.as_str(), "file_prefix") {
                        match prefix_from(&entry.1) {
                            Ok(prefix) => {
                                config = config.with_file_prefix(prefix);
                            },
                            Err(e) => {
                                return Err(e);
                            },
                        }
                    }
                    i += 1;
                }
                Ok(config)
            },
            _ => Err(ConfigError::LoadFailed),
        }
    }

    /// Reads a configuration from the text of a JSON document. Text that is
    /// not JSON is reported as `LoadFailed`; the rest is as in
    /// `from_document`.
    pub fn from_json_text(text: &str) -> (r: Result<LogConfig, ConfigError>)
        ensures
            match r {
                Ok(config) => config_from_text(text@) == Ok::<_, ConfigError>(config@),
                Err(e) => config_from_text(text@) == Err::<LogConfigView, _>(e),
            },
    {
        match Node::from_json_text(text) {
            Ok(document) => LogConfig::from_document(&document),
            Err(e) => Err(e),
        }
    }
}

/// Whether a key is one that a `rolling_config` document is read for.
pub open spec fn is_rolling_key(key: Seq<char>) -> bool {
    key == "size_threshold"@ || key == "time_threshold"@
}

/// Whether a key is one that a configuration document is read for.
pub open spec fn is_config_key(key: Seq<char>) -> bool {
    key == "level"@ || key == "rolling_config"@ || key == "file_prefix"@
}

/// An entry of a `rolling_config` document under any other key than the two
/// thresholds is passed over: with or without it the document gives the
/// same policy, or the same error.
pub proof fn lemma_other_rolling_keys_passed_over(
    config: RollingConfigView,
    entries: Seq<(Seq<char>, NodeView)>,
    i: int,
)
    requires
        0 <= i < entries.len(),
        !is_rolling_key(entries[i].0),
    ensures
        rolling_entries(config, entries.remove(i)) == rolling_entries(config, entries),
    decreases i,
{
    if i == 0 {
        assert(entries.remove(0) =~= entries.drop_first());
    } else {
        assert(entries.remove(i)[0] == entries[0]);
        assert(entries.remove(i).drop_first() =~= entries.drop_first().remove(i - 1));
        match rolling_entry(config, entries[0].0, entries[0].1) {
            Ok(next) => {
                lemma_other_rolling_keys_passed_over(next, entries.drop_first(), i - 1);
            },
            Err(_) => {},
        }
    }
}

/// An entry of a configuration document under any other key than `level`,
/// `rolling_config` and `file_prefix` is passed over: with or without it the
/// document gives the same configuration, or the same error.
pub proof fn lemma_other_config_keys_passed_over(
    config: LogConfigView,
    entries: Seq<(Seq<char>, NodeView)>,
    i: int,
)
    requires
        0 <= i < entries.len(),
        !is_config_key(entries[i].0),
    ensures
        config_entries(config, entries.remove(i)) == config_entries(config, entries),
    decreases i,
{
    if i == 0 {
        assert(entries.remove(0) =~= entries.drop_first());
    } else {
        assert(entries.remove(i)[0] == entries[0]);
        assert(entries.remove(i).drop_first() =~= entries.drop_first().remove(i - 1));
        match config_entry(config, entries[0].0, entries[0].1) {
            Ok(next) => {
                lemma_other_config_keys_passed_over(next, entries.drop_first(), i - 1);
            },
            Err(_) => {},
        }
    }
}

/// A document is accepted exactly when each of its entries is accepted by
/// itself: what the entries before it have set plays no part.
pub proof fn lemma_config_entries_accepted(
    config: LogConfigView,
    entries: Seq<(Seq<char>, NodeView)>,
)
    ensures
        config_entries(config, entries).is_ok() <==> forall|i: int|
            0 <= i < entries.len() ==> (#[trigger] config_entry(
                config,
                entries[i].0,
                entries[i].1,
            )).is_ok(),
    decreases entries.len(),
{
    if entries.len() > 0 {
        let rest = entries.drop_first();
        match config_entry(config, entries[0].0, entries[0].1) {
            Ok(next) => {
                lemma_config_entries_accepted(next, rest);
                assert forall|i: int| 0 <= i < rest.len() implies (config_entry(
                    next,
                    rest[i].0,
                    rest[i].1,
                ).is_ok() <==> config_entry(
                    config,
                    entries[i + 1].0,
                    entries[i + 1].1,
                ).is_ok()) by {
                    assert(rest[i] == entries[i + 1]);
                }
                if config_entries(config, entries).is_ok() {
                    assert forall|i: int| 0 <= i < entries.len() implies (#[trigger] config_entry(
                        config,
                        entries[i].0,
                        entries[i].1,
                    )).is_ok() by {
                        if i > 0 {
                            assert(rest[i - 1] == entries[i]);
                            assert(config_entry(next, rest[i - 1].0, rest[i - 1].1).is_ok());
                        }
                    }
                } else {
                    let j = choose|j: int|
                        0 <= j < rest.len() && !(#[trigger] config_entry(
                            next,
                            rest[j].0,
                            rest[j].1,
                        )).is_ok();
                    assert(rest[j] == entries[j + 1]);
                    assert(!config_entry(config, entries[j + 1].0, entries[j + 1].1).is_ok());
                }
            },
            Err(_) => {},
        }
    }
}

} // verus!
