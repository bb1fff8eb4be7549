//! The decisions of a scan that do not depend on how files are found or read:
//! which directory entries are read, when the reader stops taking paths, and
//! how the outcome of one file enters the totals and the store.

use crate::feature::{FeatureDecorator, FeatureView};
use crate::store::{add_records, AggregationStore};
use crate::text::same_text;
use crate::version::Version;
use vstd::prelude::*;

verus! {

/// The extension of a path, as far as it can be read.
#[derive(Clone, Debug, PartialEq, Eq)]
pub enum Extension {
    /// The path has no extension.
    Absent,
    /// The extension is not valid UTF-8.
    NotUtf8,
    /// The extension, without its dot.
    Text(String),
}

/// The mathematical content of an [`Extension`].
pub ghost enum ExtensionView {
    Absent,
    NotUtf8,
    Text(Seq<char>),
}

impl DeepView for Extension {
    type V = ExtensionView;

    open spec fn deep_view(&self) -> ExtensionView {
        match self {
            Extension::Absent => ExtensionView::Absent,
            Extension::NotUtf8 => ExtensionView::NotUtf8,
            Extension::Text(text) => ExtensionView::Text(text@),
        }
    }
}

/// The kinds of entry that a directory walk meets.
#[derive(Clone, Copy, Debug, PartialEq, Eq, Hash, Structural)]
pub enum EntryKind {
    /// A regular file.
    File,
    /// A directory.
    Directory,
    /// Anything else: a symbolic link, a device, a socket.
    Other,
}

/// What the walker does with a directory entry.
#[derive(Clone, Copy, Debug, PartialEq, Eq, Hash, Structural)]
pub enum WalkStep {
    /// The file is handed to the reader.
    Read,
    /// The entry is passed over in silence.
    Skip,
    /// The entry is passed over with a warning about its extension.
    WarnExtension,
}

/// The step for an entry of the given kind with the given extension: only
/// regular files with the extension `py` are read, and an extension that
/// cannot be decoded is reported.
pub open spec fn walk_step_of(kind: EntryKind, extension: ExtensionView) -> WalkStep {
    match extension {
        ExtensionView::Absent => WalkStep::Skip,
        ExtensionView::NotUtf8 => WalkStep::WarnExtension,
        ExtensionView::Text(text) => if kind == EntryKind::File && text == "py"@ {
            WalkStep::Read
        } else {
            WalkStep::Skip
        },
    }
}

/// Decides what the walker does with an entry, by its kind and its
/// extension.
pub fn walk_step(kind: EntryKind, extension: &Extension) -> (step: WalkStep)
    ensures
        step == walk_step_of(kind, extension.deep_view()),
{
    match extension {
        Extension::Absent => WalkStep::Skip,
        Extension::NotUtf8 => WalkStep::WarnExtension,
        Extension::Text(text) => match kind {
            EntryKind::File => if same_text(text.as_str(), "py") {
                WalkStep::Read
            } else {
                WalkStep::Skip
            },
            _ => WalkStep::Skip,
        },
    }
}

/// An entry is read exactly when it is a regular file whose extension is
/// `py`.
pub proof fn lemma_only_source_files_are_read(kind: EntryKind, extension: ExtensionView)
    ensures
        walk_step_of(kind, extension) == WalkStep::Read <==> kind == EntryKind::File && extension
            == ExtensionView::Text("py"@),
{
}

/// What the reader does after it has waited for a message. `P` is the type
/// of a path.
#[derive(Clone, Debug, PartialEq, Eq)]
pub enum ReaderStep<P> {
    /// Start reading the file at this path, and wait for the next message.
    Read(P),
    /// Take no more paths: wait for the reads in flight, then stop.
    Drain,
}

/// Decides what the reader does with a message from its queue. `None` is a
/// closed queue, `Some(None)` the sentinel that ends the input; both end the
/// taking of paths. A path is read.
pub fn reader_step<P>(message: Option<Option<P>>) -> (step: ReaderStep<P>)
    ensures
        match message {
            Some(Some(path)) => step == ReaderStep::Read(path),
            _ => step == ReaderStep::<P>::Drain,
        },
{
    match message {
        Some(Some(path)) => ReaderStep::Read(path),
        _ => ReaderStep::Drain,
    }
}

/// The running totals of a scan.
#[derive(Clone, Copy, Debug, PartialEq, Eq, Hash, Structural)]
pub struct RunCounters {
    /// The number of files read.
    pub files: usize,
    /// The number of bytes read.
    pub bytes: usize,
}

/// `total + more`, held at the largest value where the sum does not fit.
pub open spec fn capped_sum(total: usize, more: usize) -> usize {
    if total + more > usize::MAX {
        usize::MAX
    } else {
        (total + more) as usize
    }
}

impl RunCounters {
    /// The totals after one more file of `bytes` bytes.
    pub open spec fn after_file(self, bytes: usize) -> RunCounters {
        RunCounters { files: capped_sum(self.files, 1), bytes: capped_sum(self.bytes, bytes) }
    }

    /// Creates totals of zero.
    pub fn new() -> (counters: RunCounters)
        ensures
            counters == (RunCounters { files: 0, bytes: 0 }),
    {
        RunCounters { files: 0, bytes: 0 }
    }

    /// Counts one more file of `bytes` bytes. A total never decreases: it
    /// stays at the largest value once it has reached it.
    pub fn add_file(&mut self, bytes: usize)
        ensures
            *final(self) == old(self).after_file(bytes),
            final(self).files >= old(self).files,
            final(self).bytes >= old(self).bytes,
    {
        self.files = self.files.saturating_add(1);
        self.bytes = self.bytes.saturating_add(bytes);
    }
}

/// The state of a scan: the records found so far and the running totals.
pub struct Scan {
    pub store: AggregationStore,
    pub counters: RunCounters,
}

impl Scan {
    /// Creates the state of a scan that has read nothing yet.
    pub fn new() -> (scan: Scan)
        ensures
            scan.store@ == Map::<Version, Seq<FeatureView>>::empty(),
            scan.counters == (RunCounters { files: 0, bytes: 0 }),
    {
        Scan { store: AggregationStore::new(), counters: RunCounters::new() }
    }

    /// Takes in the outcome of one file that was read: `bytes` is the length
    /// of its text, `features` the records extracted from it, or `None` where
    /// the text did not parse. The file is counted either way; the records
    /// enter the store in order.
    pub fn absorb(&mut self, bytes: usize, features: Option<Vec<FeatureDecorator>>)
        ensures
            final(self).counters == old(self).counters.after_file(bytes),
            final(self).store@ == match features {
                Some(records) => add_records(old(self).store@, records.deep_view()),
                None => old(self).store@,
            },
    {
        match features {
            Some(records) => {
                self.store.insert_all(records);
            },
            None => {},
        }
        self.counters.add_file(bytes);
    }
}

} // verus!
