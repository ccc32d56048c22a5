//! The record of what the engines read and wrote.
//!
//! The driver uses it to find out when to rerun the TeX engine, which files to
//! write to disk, and what a Makefile rule for the session has to name.
use crate::digest::{digest_of_nothing, DigestData};
use crate::text::{bytes_equal, copy_bytes};
use vstd::prelude::*;

verus! {

/// Different patterns with which files may have been accessed by the
/// underlying engines. Once a file is marked as `ReadThenWritten` or
/// `WrittenThenRead`, its pattern does not evolve further.
#[derive(Clone, Copy, Debug, PartialEq, Eq, Structural)]
pub enum AccessPattern {
    /// This file is only ever read.
    Read,
    /// This file is only ever written. This suggests that it is a final output
    /// of the processing session.
    Written,
    /// This file is read, then written. We call this a "circular" access
    /// pattern. Multiple passes of an engine will result in outputs that change
    /// if this file's contents change, or if the file did not exist at the time
    /// of the first pass.
    ReadThenWritten,
    /// This file is written, then read. We call this a "temporary" access
    /// pattern. This file is likely a temporary buffer that is not of interest
    /// to the user.
    WrittenThenRead,
}

/// Where an input file ultimately came from.
#[derive(Clone, Copy, Debug, PartialEq, Eq, Structural)]
pub enum InputOrigin {
    /// The file lives on the filesystem and might change under us.
    Filesystem,
    /// The file was never used as an input.
    NotInput,
    /// The file is none of the above.
    Other,
}

/// A summary of the I/O that happened on a file: its access pattern; where it
/// came from, if it was used as an input; the digest of the file when it was
/// first read; and the digest of the file as it was last written.
#[derive(Clone, Copy, Debug, PartialEq, Eq)]
pub struct FileSummary {
    pub access_pattern: AccessPattern,
    pub input_origin: InputOrigin,
    pub read_digest: Option<DigestData>,
    pub write_digest: Option<DigestData>,
    pub got_written_to_disk: bool,
}

/// What is recorded of one file: its name as the engines know it, and the
/// summary of its accesses.
pub ghost struct LogEntry {
    pub name: Seq<u8>,
    pub summary: FileSummary,
}

/// The record of all files, in the order in which they were first seen.
pub type Log = Seq<LogEntry>;

/// The name under which the standard output of the engines is recorded.
pub open spec fn stdout_name() -> Seq<u8> {
    Seq::empty()
}

/// No name is recorded twice.
pub open spec fn distinct_names(log: Log) -> bool {
    forall|i: int, j: int|
        0 <= i < log.len() && 0 <= j < log.len() && #[trigger] log[i].name
            == #[trigger] log[j].name ==> i == j
}

/// The entry at `at` is the one for `name`.
pub open spec fn names_at(log: Log, name: Seq<u8>, at: int) -> bool {
    0 <= at < log.len() && log[at].name == name
}

/// There is an entry for `name`.
pub open spec fn is_recorded(log: Log, name: Seq<u8>) -> bool {
    exists|at: int| names_at(log, name, at)
}

/// Where the entry for `name` stands.
pub open spec fn place_of(log: Log, name: Seq<u8>) -> int {
    choose|at: int| names_at(log, name, at)
}

/// What is recorded of `name`.
pub open spec fn recorded(log: Log, name: Seq<u8>) -> FileSummary {
    log[place_of(log, name)].summary
}

/// A file that was just seen for the first time.
pub open spec fn fresh_summary(pattern: AccessPattern, origin: InputOrigin) -> FileSummary {
    FileSummary {
        access_pattern: pattern,
        input_origin: origin,
        read_digest: None,
        write_digest: None,
        got_written_to_disk: false,
    }
}

/// The access pattern of a file that is now opened for output.
pub open spec fn pattern_after_output(pattern: AccessPattern) -> AccessPattern {
    if pattern == AccessPattern::Read {
        AccessPattern::ReadThenWritten
    } else {
        pattern
    }
}

/// The access pattern of a file that is now opened for input.
pub open spec fn pattern_after_input(pattern: AccessPattern) -> AccessPattern {
    if pattern == AccessPattern::Written {
        AccessPattern::WrittenThenRead
    } else {
        pattern
    }
}

/// The log with another summary for `name`, which is recorded.
pub open spec fn with_summary(log: Log, name: Seq<u8>, summary: FileSummary) -> Log {
    log.update(place_of(log, name), LogEntry { name, summary })
}

/// The log with a further entry.
pub open spec fn with_entry(log: Log, name: Seq<u8>, summary: FileSummary) -> Log {
    log.push(LogEntry { name, summary })
}

/// The log once `name` was opened for output.
pub open spec fn after_output_opened(log: Log, name: Seq<u8>) -> Log {
    if is_recorded(log, name) {
        with_summary(
            log,
            name,
            FileSummary {
                access_pattern: pattern_after_output(recorded(log, name).access_pattern),
                ..recorded(log, name)
            },
        )
    } else {
        with_entry(log, name, fresh_summary(AccessPattern::Written, InputOrigin::NotInput))
    }
}

/// The log once `name` was closed after output of data with a digest.
pub open spec fn after_output_closed(log: Log, name: Seq<u8>, digest: DigestData) -> Log {
    with_summary(
        log,
        name,
        FileSummary { write_digest: Some(digest), ..recorded(log, name) },
    )
}

/// The log once `name` was opened for input; `unread` is the summary for a file
/// that nothing was recorded of yet.
pub open spec fn after_input(log: Log, name: Seq<u8>, unread: FileSummary) -> Log {
    if is_recorded(log, name) {
        with_summary(
            log,
            name,
            FileSummary {
                access_pattern: pattern_after_input(recorded(log, name).access_pattern),
                ..recorded(log, name)
            },
        )
    } else {
        with_entry(log, name, unread)
    }
}

/// The log once an input was opened that came from `origin`.
pub open spec fn after_input_opened(log: Log, name: Seq<u8>, origin: InputOrigin) -> Log {
    after_input(log, name, fresh_summary(AccessPattern::Read, origin))
}

/// The summary of a file that was to be read but does not exist: it counts as
/// read, with nothing in it.
pub open spec fn missing_summary() -> FileSummary {
    FileSummary {
        read_digest: Some(digest_of_nothing()),
        ..fresh_summary(AccessPattern::Read, InputOrigin::NotInput)
    }
}

/// The log once an input turned out not to exist.
pub open spec fn after_input_not_available(log: Log, name: Seq<u8>) -> Log {
    after_input(log, name, missing_summary())
}

/// The log once an input was closed. What was in the file the first time that
/// it was read is what matters, so a digest that is there already stays.
pub open spec fn after_input_closed(log: Log, name: Seq<u8>, digest: Option<DigestData>) -> Log {
    let summary = recorded(log, name);
    with_summary(
        log,
        name,
        FileSummary {
            read_digest: if summary.read_digest is None {
                digest
            } else {
                summary.read_digest
            },
            ..summary
        },
    )
}

/// The log without what was read, as it stands when the engine is restarted.
/// All else stays: that BibTeX wrote a file, for instance, is still known.
pub open spec fn after_reads_cleared(log: Log) -> Log {
    log.map_values(
        |entry: LogEntry|
            LogEntry { summary: FileSummary { read_digest: None, ..entry.summary }, ..entry },
    )
}

/// The log once the file was saved.
pub open spec fn after_written_to_disk(log: Log, name: Seq<u8>) -> Log {
    with_summary(
        log,
        name,
        FileSummary { got_written_to_disk: true, ..recorded(log, name) },
    )
}

/// An access of an engine to a file, as a mathematical value.
pub ghost enum IoEventView {
    OutputOpened(Seq<u8>),
    StdoutOpened,
    OutputClosed(Seq<u8>, DigestData),
    InputNotAvailable(Seq<u8>),
    InputOpened(Seq<u8>, InputOrigin),
    InputClosed(Seq<u8>, Option<DigestData>),
}

/// Only a file that was opened is closed.
pub open spec fn can_happen(log: Log, event: IoEventView) -> bool {
    match event {
        IoEventView::OutputClosed(name, _) => is_recorded(log, name),
        IoEventView::InputClosed(name, _) => is_recorded(log, name),
        _ => true,
    }
}

/// The name of the file that an access is about.
pub open spec fn accessed_name(event: IoEventView) -> Seq<u8> {
    match event {
        IoEventView::OutputOpened(name) => name,
        IoEventView::StdoutOpened => stdout_name(),
        IoEventView::OutputClosed(name, _) => name,
        IoEventView::InputNotAvailable(name) => name,
        IoEventView::InputOpened(name, _) => name,
        IoEventView::InputClosed(name, _) => name,
    }
}

/// The log once an access happened.
pub open spec fn after_event(log: Log, event: IoEventView) -> Log {
    match event {
        IoEventView::OutputOpened(name) => after_output_opened(log, name),
        IoEventView::StdoutOpened => after_output_opened(log, stdout_name()),
        IoEventView::OutputClosed(name, digest) => after_output_closed(log, name, digest),
        IoEventView::InputNotAvailable(name) => after_input_not_available(log, name),
        IoEventView::InputOpened(name, origin) => after_input_opened(log, name, origin),
        IoEventView::InputClosed(name, digest) => after_input_closed(log, name, digest),
    }
}

/// The file was read and then rewritten, and what was written is not known to
/// be what was read.
pub open spec fn changed(summary: FileSummary) -> bool {
    &&& summary.access_pattern == AccessPattern::ReadThenWritten
    &&& !(summary.read_digest is Some && summary.read_digest == summary.write_digest)
}

/// The entry at `at` is the first one of a changed file.
pub open spec fn is_first_changed(log: Log, at: int) -> bool {
    &&& 0 <= at < log.len()
    &&& changed(log[at].summary)
    &&& forall|i: int| 0 <= i < at ==> !changed(#[trigger] log[i].summary)
}

/// Some file changed under the engine.
pub open spec fn any_changed(log: Log) -> bool {
    exists|at: int| 0 <= at < log.len() && changed(#[trigger] log[at].summary)
}

/// Where the first changed file stands.
pub open spec fn first_changed(log: Log) -> int {
    choose|at: int| is_first_changed(log, at)
}

/// An access of an engine to a file.
#[derive(Debug)]
pub enum IoEvent {
    /// A file was opened for output.
    OutputOpened(Vec<u8>),
    /// The standard output was opened.
    StdoutOpened,
    /// An output file was closed; the digest is that of the written data.
    OutputClosed(Vec<u8>, DigestData),
    /// A file was to be opened for input, but there is none of that name.
    InputNotAvailable(Vec<u8>),
    /// A file was opened for input.
    InputOpened(Vec<u8>, InputOrigin),
    /// An input file was closed; the digest is that of the data that were read,
    /// if it is known.
    InputClosed(Vec<u8>, Option<DigestData>),
}

impl View for IoEvent {
    type V = IoEventView;

    open spec fn view(&self) -> IoEventView {
        match self {
            IoEvent::OutputOpened(name) => IoEventView::OutputOpened(name@),
            IoEvent::StdoutOpened => IoEventView::StdoutOpened,
            IoEvent::OutputClosed(name, digest) => IoEventView::OutputClosed(name@, *digest),
            IoEvent::InputNotAvailable(name) => IoEventView::InputNotAvailable(name@),
            IoEvent::InputOpened(name, origin) => IoEventView::InputOpened(name@, *origin),
            IoEvent::InputClosed(name, digest) => IoEventView::InputClosed(name@, *digest),
        }
    }
}

/// One recorded file.
#[derive(Debug)]
pub struct FileEntry {
    pub name: Vec<u8>,
    pub summary: FileSummary,
}

impl View for FileEntry {
    type V = LogEntry;

    open spec fn view(&self) -> LogEntry {
        LogEntry { name: self.name@, summary: self.summary }
    }
}

/// What the engines read and wrote, file by file.
#[derive(Debug)]
pub struct CliIoEvents {
    entries: Vec<FileEntry>,
}

impl View for CliIoEvents {
    type V = Log;

    closed spec fn view(&self) -> Log {
        self.entries@.map_values(|entry: FileEntry| entry@)
    }
}

impl FileSummary {
    /// The summary of a file that was just seen for the first time.
    pub fn new(access_pattern: AccessPattern, input_origin: InputOrigin) -> (summary: FileSummary)
        ensures
            summary == fresh_summary(access_pattern, input_origin),
            summary.access_pattern == access_pattern,
            summary.input_origin == input_origin,
            summary.read_digest is None,
            summary.write_digest is None,
            !summary.got_written_to_disk,
    {
        FileSummary {
            access_pattern,
            input_origin,
            read_digest: None,
            write_digest: None,
            got_written_to_disk: false,
        }
    }

    /// Tells whether the file was read and then rewritten with other contents.
    pub fn has_changed(&self) -> (result: bool)
        ensures
            result == changed(*self),
            result <==> self.access_pattern == AccessPattern::ReadThenWritten && !(
            self.read_digest is Some && self.write_digest is Some && self.read_digest->0@
                == self.write_digest->0@),
    {
        if self.access_pattern != AccessPattern::ReadThenWritten {
            return false;
        }
        match (&self.read_digest, &self.write_digest) {
            (Some(read), Some(written)) => !read.same_as(written),
            _ => true,
        }
    }
}

impl CliIoEvents {
    /// The well-formed states: no file is recorded twice.
    pub open spec fn wf(&self) -> bool {
        distinct_names(self@)
    }

    /// A record of nothing.
    pub fn new() -> (events: CliIoEvents)
        ensures
            events.wf(),
            events@ == Seq::<LogEntry>::empty(),
    {
        let events = CliIoEvents { entries: Vec::new() };
        assert(events@ =~= Seq::<LogEntry>::empty());
        events
    }

    /// How many files are recorded.
    pub fn len(&self) -> (count: usize)
        ensures
            count == self@.len(),
    {
        self.entries.len()
    }

    /// The file that is recorded at a place.
    pub fn entry(&self, at: usize) -> (entry: &FileEntry)
        requires
            at < self@.len(),
        ensures
            entry@ == self@[at as int],
    {
        &self.entries[at]
    }

    /// Finds the entry of a file.
    pub fn find(&self, name: &[u8]) -> (place: Option<usize>)
        requires
            self.wf(),
        ensures
            place is Some <==> is_recorded(self@, name@),
            place matches Some(at) ==> names_at(self@, name@, at as int) && at == place_of(
                self@,
                name@,
            ),
    {
        let mut at: usize = 0;
        while at < self.entries.len()
            invariant
                self.wf(),
                at <= self.entries@.len(),
                forall|i: int| 0 <= i < at ==> #[trigger] self@[i].name != name@,
            decreases self.entries@.len() - at,
        {
            assert(self@[at as int] == self.entries@[at as int]@);
            if bytes_equal(&self.entries[at].name, name) {
                assert(names_at(self@, name@, at as int));
                return Some(at);
            }
            at = at + 1;
        }
        None
    }

    /// What is recorded of a file.
    pub fn get(&self, name: &[u8]) -> (summary: Option<FileSummary>)
        requires
            self.wf(),
        ensures
            summary == if is_recorded(self@, name@) {
                Some(recorded(self@, name@))
            } else {
                None
            },
    {
        match self.find(name) {
            Some(at) => {
                assert(self@[at as int] == self.entries@[at as int]@);
                Some(self.entries[at].summary)
            },
            None => None,
        }
    }

    /// Replaces the summary of one entry.
    fn put(&mut self, at: usize, summary: FileSummary)
        requires
            old(self).wf(),
            at < old(self)@.len(),
        ensures
            final(self).wf(),
            final(self)@ == old(self)@.update(
                at as int,
                LogEntry { name: old(self)@[at as int].name, summary },
            ),
    {
        let ghost before = self@;
        self.entries[at].summary = summary;
        assert(self@ =~= before.update(
            at as int,
            LogEntry { name: before[at as int].name, summary },
        ));
    }

    /// Adds the entry of a file that was not seen before.
    fn add_entry(&mut self, name: &[u8], summary: FileSummary)
        requires
            old(self).wf(),
            !is_recorded(old(self)@, name@),
        ensures
            final(self).wf(),
            final(self)@ == with_entry(old(self)@, name@, summary),
    {
        let ghost before = self@;
        self.entries.push(FileEntry { name: copy_bytes(name), summary });
        assert(self@ =~= with_entry(before, name@, summary));
        assert forall|k: int| 0 <= k < before.len() implies #[trigger] before[k].name != name@ by {
            assert(!names_at(before, name@, k));
        }
        assert forall|i: int, j: int|
            0 <= i < self@.len() && 0 <= j < self@.len() && #[trigger] self@[i].name
                == #[trigger] self@[j].name implies i == j by {
            assert(i < before.len() ==> self@[i] == before[i]);
            assert(j < before.len() ==> self@[j] == before[j]);
        }
    }

    /// Records that a file was opened for output.
    pub fn output_opened(&mut self, name: &[u8])
        requires
            old(self).wf(),
        ensures
            final(self).wf(),
            final(self)@ == after_output_opened(old(self)@, name@),
    {
        match self.find(name) {
            Some(at) => {
                let mut summary = self.entries[at].summary;
                assert(self@[at as int] == self.entries@[at as int]@);
                if summary.access_pattern == AccessPattern::Read {
                    summary.access_pattern = AccessPattern::ReadThenWritten;
                }
                self.put(at, summary);
            },
            None => {
                self.add_entry(
                    name,
                    FileSummary::new(AccessPattern::Written, InputOrigin::NotInput),
                );
            },
        }
    }

    /// Records that the standard output was opened. Life is easier if it is
    /// tracked in the same way as other output files.
    pub fn stdout_opened(&mut self)
        requires
            old(self).wf(),
        ensures
            final(self).wf(),
            final(self)@ == after_output_opened(old(self)@, stdout_name()),
    {
        let name: Vec<u8> = Vec::new();
        assert(name@ =~= stdout_name());
        self.output_opened(&name);
    }

    /// Records that an output file was closed, and the digest of what was
    /// written to it.
    pub fn output_closed(&mut self, name: &[u8], digest: DigestData)
        requires
            old(self).wf(),
            is_recorded(old(self)@, name@),
        ensures
            final(self).wf(),
            final(self)@ == after_output_closed(old(self)@, name@, digest),
    {
        if let Some(at) = self.find(name) {
            let mut summary = self.entries[at].summary;
            assert(self@[at as int] == self.entries@[at as int]@);
            summary.write_digest = Some(digest);
            self.put(at, summary);
        }
    }

    /// Records an open of a file for input; `unread` describes it if nothing was
    /// recorded of it yet.
    fn note_input(&mut self, name: &[u8], unread: FileSummary)
        requires
            old(self).wf(),
        ensures
            final(self).wf(),
            final(self)@ == after_input(old(self)@, name@, unread),
    {
        match self.find(name) {
            Some(at) => {
                let mut summary = self.entries[at].summary;
                assert(self@[at as int] == self.entries@[at as int]@);
                if summary.access_pattern == AccessPattern::Written {
                    summary.access_pattern = AccessPattern::WrittenThenRead;
                }
                self.put(at, summary);
            },
            None => {
                self.add_entry(name, unread);
            },
        }
    }

    /// Records that an input was to be opened but does not exist. For the
    /// tracking of access patterns that counts as a read of an empty file.
    pub fn input_not_available(&mut self, name: &[u8])
        requires
            old(self).wf(),
        ensures
            final(self).wf(),
            final(self)@ == after_input_not_available(old(self)@, name@),
    {
        let mut unread = FileSummary::new(AccessPattern::Read, InputOrigin::NotInput);
        unread.read_digest = Some(DigestData::of_nothing());
        self.note_input(name, unread);
    }

    /// Records that a file was opened for input.
    pub fn input_opened(&mut self, name: &[u8], origin: InputOrigin)
        requires
            old(self).wf(),
        ensures
            final(self).wf(),
            final(self)@ == after_input_opened(old(self)@, name@, origin),
    {
        self.note_input(name, FileSummary::new(AccessPattern::Read, origin));
    }

    /// Records that an input file was closed, and the digest of what was read
    /// from it, if there is one.
    pub fn input_closed(&mut self, name: &[u8], digest: Option<DigestData>)
        requires
            old(self).wf(),
            is_recorded(old(self)@, name@),
        ensures
            final(self).wf(),
            final(self)@ == after_input_closed(old(self)@, name@, digest),
    {
        if let Some(at) = self.find(name) {
            let mut summary = self.entries[at].summary;
            assert(self@[at as int] == self.entries@[at as int]@);
            if summary.read_digest.is_none() {
                summary.read_digest = digest;
            }
            self.put(at, summary);
        }
    }

    /// Records an access.
    pub fn record(&mut self, event: &IoEvent)
        requires
            old(self).wf(),
            can_happen(old(self)@, event@),
        ensures
            final(self).wf(),
            final(self)@ == after_event(old(self)@, event@),
    {
        match event {
            IoEvent::OutputOpened(name) => self.output_opened(name),
            IoEvent::StdoutOpened => self.stdout_opened(),
            IoEvent::OutputClosed(name, digest) => self.output_closed(name, *digest),
            IoEvent::InputNotAvailable(name) => self.input_not_available(name),
            IoEvent::InputOpened(name, origin) => self.input_opened(name, *origin),
            IoEvent::InputClosed(name, digest) => self.input_closed(name, *digest),
        }
    }

    /// Forgets what was read.
    pub fn clear_reads(&mut self)
        requires
            old(self).wf(),
        ensures
            final(self).wf(),
            final(self)@ == after_reads_cleared(old(self)@),
    {
        let ghost before = self@;
        let mut at: usize = 0;
        while at < self.entries.len()
            invariant
                self.wf(),
                at <= self@.len(),
                self@.len() == self.entries@.len(),
                self@.len() == before.len(),
                forall|i: int| 0 <= i < at ==> #[trigger] self@[i] == after_reads_cleared(before)[i],
                forall|i: int| at <= i < before.len() ==> #[trigger] self@[i] == before[i],
            decreases self.entries@.len() - at,
        {
            let mut summary = self.entries[at].summary;
            assert(self@[at as int] == self.entries@[at as int]@);
            summary.read_digest = None;
            self.put(at, summary);
            at = at + 1;
        }
        assert(self@ =~= after_reads_cleared(before));
    }

    /// Records that a file was saved to disk.
    pub fn mark_written(&mut self, name: &[u8])
        requires
            old(self).wf(),
            is_recorded(old(self)@, name@),
        ensures
            final(self).wf(),
            final(self)@ == after_written_to_disk(old(self)@, name@),
    {
        if let Some(at) = self.find(name) {
            let mut summary = self.entries[at].summary;
            assert(self@[at as int] == self.entries@[at as int]@);
            summary.got_written_to_disk = true;
            self.put(at, summary);
        }
    }

    /// Finds the first file that was read and then rewritten with other
    /// contents.
    pub fn find_changed(&self) -> (place: Option<usize>)
        ensures
            place is Some <==> any_changed(self@),
            place is Some <==> exists|i: int|
                0 <= i < self@.len() && (#[trigger] self@[i]).summary.access_pattern
                    == AccessPattern::ReadThenWritten && !(self@[i].summary.read_digest is Some
                    && self@[i].summary.write_digest is Some && self@[i].summary.read_digest->0@
                    == self@[i].summary.write_digest->0@),
            place matches Some(at) ==> is_first_changed(self@, at as int) && at == first_changed(
                self@,
            ),
    {
        let mut at: usize = 0;
        while at < self.entries.len()
            invariant
                at <= self.entries@.len(),
                forall|i: int| 0 <= i < at ==> !changed(#[trigger] self@[i].summary),
                forall|i: int|
                    0 <= i < at ==> (#[trigger] self@[i]).summary.access_pattern
                        != AccessPattern::ReadThenWritten || (self@[i].summary.read_digest is Some
                        && self@[i].summary.write_digest is Some && self@[i].summary.read_digest->0@
                        == self@[i].summary.write_digest->0@),
            decreases self.entries@.len() - at,
        {
            assert(self@[at as int] == self.entries@[at as int]@);
            if self.entries[at].summary.has_changed() {
                assert(is_first_changed(self@, at as int));
                return Some(at);
            }
            at = at + 1;
        }
        None
    }
}

/// What is recorded of a name stays recorded when a summary is replaced.
pub proof fn lemma_stays_recorded_with_summary(
    log: Log,
    replaced: Seq<u8>,
    summary: FileSummary,
    name: Seq<u8>,
)
    requires
        is_recorded(log, replaced),
        is_recorded(log, name),
    ensures
        is_recorded(with_summary(log, replaced, summary), name),
{
    assert(names_at(log, replaced, place_of(log, replaced)));
    assert(names_at(with_summary(log, replaced, summary), name, place_of(log, name)));
}

/// A name that is recorded stays recorded, whatever the engines do.
pub proof fn lemma_stays_recorded(log: Log, event: IoEventView, name: Seq<u8>)
    requires
        is_recorded(log, name),
        can_happen(log, event),
    ensures
        is_recorded(after_event(log, event), name),
{
    let after = after_event(log, event);
    let accessed = accessed_name(event);
    if is_recorded(log, accessed) {
        assert(names_at(log, accessed, place_of(log, accessed)));
        assert(names_at(after, name, place_of(log, name)));
    } else {
        assert(names_at(after, name, place_of(log, name)));
    }
}

/// No name gets recorded twice, whatever the engines do.
pub proof fn lemma_names_stay_distinct(log: Log, event: IoEventView)
    requires
        distinct_names(log),
        can_happen(log, event),
    ensures
        distinct_names(after_event(log, event)),
{
    let after = after_event(log, event);
    let accessed = accessed_name(event);
    if is_recorded(log, accessed) {
        assert(names_at(log, accessed, place_of(log, accessed)));
        assert(forall|i: int| 0 <= i < log.len() ==> #[trigger] after[i].name == log[i].name);
    } else {
        assert forall|i: int| 0 <= i < log.len() implies #[trigger] log[i].name != accessed by {
            assert(!names_at(log, accessed, i));
        }
        assert(forall|i: int| 0 <= i < log.len() ==> #[trigger] after[i] == log[i]);
    }
}

} // verus!
