//! The active log file and its rotation.
//!
//! Before a line is written the file is tested: if the line would take it
//! past the size threshold, or if it has reached the age threshold, it is
//! replaced by a new, empty file, named by the instant of the write. The
//! line then goes to the file that is active after the test, whole. So a
//! line is never split between two files, and a file holds more than the
//! size threshold only if it holds a single line that is itself longer.
//!
//! The test, the replacement and the account of the line are one step of
//! `ActiveFile::write`, which has the file to itself while it runs: nobody
//! sees a file that is replaced but not yet written to.

use vstd::prelude::*;
use crate::clock::Timestamp;
use crate::config::{RollingConfig, RollingConfigView};
use crate::calendar::stamp_text;
use crate::naming::{file_name, log_file_name};

verus! {

/// The file that currently takes the log lines: its name, the bytes written
/// to it so far, and the second of its creation.
#[derive(Debug, Clone, PartialEq, Eq)]
pub struct ActiveFile {
    name: String,
    size_written_bytes: u64,
    created_at: i64,
}

/// What an `ActiveFile` stands for.
pub struct ActiveFileView {
    pub name: Seq<char>,
    pub size_written_bytes: nat,
    pub created_at: int,
}

impl View for ActiveFile {
    type V = ActiveFileView;

    closed spec fn view(&self) -> ActiveFileView {
        ActiveFileView {
            name: self.name@,
            size_written_bytes: self.size_written_bytes as nat,
            created_at: self.created_at as int,
        }
    }
}

impl ActiveFileView {
    /// The empty file that is created under `prefix` at the given instant.
    pub open spec fn opened(prefix: Seq<char>, seconds: int, nanos: int) -> ActiveFileView {
        ActiveFileView {
            name: file_name(prefix, stamp_text(seconds, nanos)),
            size_written_bytes: 0,
            created_at: seconds,
        }
    }

    /// Whether the file has to be replaced before a line of `line_bytes`
    /// bytes is written to it at the second `seconds`.
    pub open spec fn rotation_due(
        self,
        line_bytes: nat,
        seconds: int,
        policy: RollingConfigView,
    ) -> bool {
        ||| self.size_written_bytes + line_bytes > policy.size_threshold.bytes()
        ||| seconds - self.created_at >= policy.time_threshold.seconds()
    }

    /// The active file after a line of `line_bytes` bytes was written at the
    /// given instant.
    pub open spec fn after_write(
        self,
        prefix: Seq<char>,
        line_bytes: nat,
        seconds: int,
        nanos: int,
        policy: RollingConfigView,
    ) -> ActiveFileView {
        let target = if self.rotation_due(line_bytes, seconds, policy) {
            ActiveFileView::opened(prefix, seconds, nanos)
        } else {
            self
        };
        ActiveFileView { size_written_bytes: target.size_written_bytes + line_bytes, ..target }
    }
}

/// One write: the bytes of the line, and the instant at which it is written.
pub struct WriteView {
    pub line_bytes: nat,
    pub seconds: int,
    pub nanos: int,
}

impl ActiveFileView {
    /// The active file after the given writes, one after the other.
    pub open spec fn after_writes(
        self,
        prefix: Seq<char>,
        writes: Seq<WriteView>,
        policy: RollingConfigView,
    ) -> ActiveFileView
        decreases writes.len(),
    {
        if writes.len() == 0 {
            self
        } else {
            self.after_writes(prefix, writes.drop_last(), policy).after_write(
                prefix,
                writes.last().line_bytes,
                writes.last().seconds,
                writes.last().nanos,
                policy,
            )
        }
    }
}

impl ActiveFile {
    /// The empty file that is created under `prefix` at the instant `now`.
    pub fn open(prefix: &str, now: &Timestamp) -> (file: ActiveFile)
        ensures
            file@ == ActiveFileView::opened(prefix@, now@.seconds, now@.nanos),
    {
        let stamp = now.text();
        ActiveFile {
            name: log_file_name(prefix, stamp.as_str()),
            size_written_bytes: 0,
            created_at: now.seconds(),
        }
    }

    /// The name of the file.
    pub fn name(&self) -> (name: &str)
        ensures
            name@ == self@.name,
    {
        self.name.as_str()
    }

    /// The bytes written to the file so far.
    pub fn size_written_bytes(&self) -> (size: u64)
        ensures
            size == self@.size_written_bytes,
    {
        self.size_written_bytes
    }

    /// The second at which the file was created.
    pub fn created_at(&self) -> (seconds: i64)
        ensures
            seconds == self@.created_at,
    {
        self.created_at
    }

    /// Tells whether the file has to be replaced before a line of
    /// `line_bytes` bytes is written to it at the instant `now`.
    pub fn needs_rotation(
        &self,
        line_bytes: usize,
        now: &Timestamp,
        policy: &RollingConfig,
    ) -> (due: bool)
        ensures
            due == self@.rotation_due(line_bytes as nat, now@.seconds, policy@),
    {
        let limit = policy.size_threshold().bytes();
        let period = policy.time_threshold().seconds();
        let line = line_bytes as u64;
        let too_large = line > limit || self.size_written_bytes > limit - line;
        let age = now.seconds() as i128 - self.created_at as i128;
        too_large || age >= period as i128
    }

    /// Accounts for a line of `line_bytes` bytes that is written at the
    /// instant `now`: replaces the file first if that is due, and adds the
    /// line to the file that is then active. Returns whether the file was
    /// replaced.
    pub fn write(
        &mut self,
        prefix: &str,
        line_bytes: usize,
        now: &Timestamp,
        policy: &RollingConfig,
    ) -> (rotated: bool)
        ensures
            rotated == old(self)@.rotation_due(line_bytes as nat, now@.seconds, policy@),
            final(self)@ == old(self)@.after_write(
                prefix@,
                line_bytes as nat,
                now@.seconds,
                now@.nanos,
                policy@,
            ),
    {
        let rotated = self.needs_rotation(line_bytes, now, policy);
        if rotated {
            *self = ActiveFile::open(prefix, now);
        }
        self.size_written_bytes = self.size_written_bytes + line_bytes as u64;
        rotated
    }
}

/// After a write the active file holds the line that was written. It holds
/// no more than the size threshold, unless it holds that line alone; so it
/// stays within the threshold whenever the line does. And it is younger than
/// the time threshold at the instant of the write.
pub proof fn lemma_write_bounds(
    file: ActiveFileView,
    prefix: Seq<char>,
    line_bytes: nat,
    seconds: int,
    nanos: int,
    policy: RollingConfigView,
)
    ensures
        ({
            let after = file.after_write(prefix, line_bytes, seconds, nanos, policy);
            let limit = policy.size_threshold.bytes();
            &&& after.size_written_bytes >= line_bytes
            &&& after.size_written_bytes <= limit || after.size_written_bytes == line_bytes
            &&& line_bytes <= limit ==> after.size_written_bytes <= limit
            &&& seconds - after.created_at < policy.time_threshold.seconds()
        }),
{
}

/// However the active file starts out, and whenever the writes come: if
/// every line is within the size threshold, then after each of the writes
/// the active file is within it too.
pub proof fn lemma_writes_stay_within_threshold(
    file: ActiveFileView,
    prefix: Seq<char>,
    writes: Seq<WriteView>,
    policy: RollingConfigView,
)
    requires
        forall|i: int|
            0 <= i < writes.len() ==> (#[trigger] writes[i]).line_bytes
                <= policy.size_threshold.bytes(),
    ensures
        forall|k: int|
            1 <= k <= writes.len() ==> (#[trigger] file.after_writes(
                prefix,
                writes.take(k),
                policy,
            )).size_written_bytes <= policy.size_threshold.bytes(),
{
    assert forall|k: int| 1 <= k <= writes.len() implies (#[trigger] file.after_writes(
        prefix,
        writes.take(k),
        policy,
    )).size_written_bytes <= policy.size_threshold.bytes() by {
        let done = writes.take(k);
        assert(done.last() == writes[k - 1]);
        lemma_write_bounds(
            file.after_writes(prefix, done.drop_last(), policy),
            prefix,
            done.last().line_bytes,
            done.last().seconds,
            done.last().nanos,
            policy,
        );
    }
}

} // verus!
