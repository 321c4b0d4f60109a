//! Reading a directory in growing batches.
//!
//! While a directory is read, what has been read so far is reported each
//! time the number of entries reaches a threshold, and the threshold
//! doubles after each report. At the end everything is reported once more,
//! followed by the notice that the directory has been read. A huge directory
//! thus causes few reports, and every directory causes a complete one.
use vstd::prelude::*;
use crate::message::{clone_entries, ContentKind, Message, MessageView};

verus! {

/// The number of entries after which a directory is reported for the first time.
pub const BATCH_SIZE: usize = 100;

/// The entry for what was found in a directory: whether it is a directory
/// itself, and its name, which is empty if it has none that is text.
pub open spec fn entry_of(is_directory: bool, name: Option<Seq<char>>) -> (ContentKind, Seq<char>) {
    (
        if is_directory {
            ContentKind::Directory
        } else {
            ContentKind::File
        },
        match name {
            Some(name) => name,
            None => Seq::empty(),
        },
    )
}

/// A directory that is being read, over plain values.
pub struct EnumerationState {
    pub path: Seq<char>,
    /// The entries read so far.
    pub entries: Seq<(ContentKind, Seq<char>)>,
    /// The number of entries at which the next report is due, if that
    /// number can still be reached.
    pub threshold: Option<usize>,
}

/// Twice the threshold, if that can still be reached.
pub open spec fn doubled(threshold: usize) -> Option<usize> {
    if threshold * 2 <= usize::MAX {
        Some((threshold * 2) as usize)
    } else {
        None
    }
}

/// The state before anything is read.
pub open spec fn start(path: Seq<char>, batch: usize) -> EnumerationState {
    EnumerationState { path, entries: Seq::empty(), threshold: Some(batch) }
}

/// Whether a report is due once `count` entries are read.
pub open spec fn report_due(threshold: Option<usize>, count: nat) -> bool {
    match threshold {
        Some(t) => count >= t,
        None => false,
    }
}

/// One more entry: the state afterwards, and the report if one is due.
pub open spec fn push_step(state: EnumerationState, entry: (ContentKind, Seq<char>)) -> (
    EnumerationState,
    Option<MessageView>,
) {
    let entries = state.entries.push(entry);
    if report_due(state.threshold, entries.len()) {
        (
            EnumerationState {
                path: state.path,
                entries,
                threshold: doubled(state.threshold.unwrap()),
            },
            Some(MessageView::PathEnumerationContentChanged(state.path, entries)),
        )
    } else {
        (EnumerationState { entries, ..state }, None)
    }
}

/// The end of the directory: everything read, then the notice that it is read.
pub open spec fn finish_step(state: EnumerationState) -> Seq<MessageView> {
    seq![
        MessageView::PathEnumerationContentChanged(state.path, state.entries),
        MessageView::PathEnumerationFinished(state.path),
    ]
}

/// The state after `entries` are read one by one, and the reports on the way.
pub open spec fn feed(state: EnumerationState, entries: Seq<(ContentKind, Seq<char>)>) -> (
    EnumerationState,
    Seq<MessageView>,
)
    decreases entries.len(),
{
    if entries.len() == 0 {
        (state, Seq::empty())
    } else {
        let (before, reports) = feed(state, entries.drop_last());
        match push_step(before, entries.last()) {
            (after, Some(report)) => (after, reports.push(report)),
            (after, None) => (after, reports),
        }
    }
}

/// How far `threshold` is from passing `count`.
pub open spec fn remaining(threshold: nat, count: nat) -> nat {
    if threshold <= count {
        (count + 1 - threshold) as nat
    } else {
        0
    }
}

/// The sizes `threshold`, `2 * threshold`, `4 * threshold`, and so on, up to `count`.
pub open spec fn report_sizes(threshold: nat, count: nat) -> Seq<nat>
    decreases remaining(threshold, count),
{
    if threshold == 0 || threshold > count {
        Seq::empty()
    } else {
        seq![threshold] + report_sizes(2 * threshold, count)
    }
}

/// The first of the sizes `threshold`, `2 * threshold`, `4 * threshold`, and
/// so on, that is larger than `count`.
pub open spec fn next_size(threshold: nat, count: nat) -> nat
    decreases remaining(threshold, count),
{
    if threshold == 0 || threshold > count {
        threshold
    } else {
        next_size(2 * threshold, count)
    }
}

/// The reports of the first `sizes[i]` of `entries` each.
pub open spec fn reports_at(
    path: Seq<char>,
    entries: Seq<(ContentKind, Seq<char>)>,
    sizes: Seq<nat>,
) -> Seq<MessageView> {
    Seq::new(
        sizes.len(),
        |i: int| MessageView::PathEnumerationContentChanged(path, entries.take(sizes[i] as int)),
    )
}

/// Going from `count` to `count + 1` entries adds the size `count + 1` to
/// the report sizes exactly if it is the next size, which then doubles.
proof fn lemma_one_more(threshold: nat, count: nat)
    requires
        threshold >= 1,
    ensures
        next_size(threshold, count) > count,
        next_size(threshold, count) == count + 1 ==> report_sizes(threshold, count + 1)
            == report_sizes(threshold, count).push(count + 1) && next_size(threshold, count + 1)
            == 2 * (count + 1),
        next_size(threshold, count) != count + 1 ==> report_sizes(threshold, count + 1)
            == report_sizes(threshold, count) && next_size(threshold, count + 1) == next_size(
            threshold,
            count,
        ),
        forall|i: int|
            0 <= i < report_sizes(threshold, count).len() ==> 1 <= #[trigger] report_sizes(
                threshold,
                count,
            )[i] <= count,
    decreases remaining(threshold, count),
{
    if threshold > count + 1 {
    } else if threshold == count + 1 {
        assert(report_sizes(2 * threshold, count + 1) =~= Seq::empty());
        assert(next_size(2 * threshold, count + 1) == 2 * threshold);
        assert(report_sizes(threshold, count) =~= Seq::empty());
        assert(seq![threshold] + Seq::<nat>::empty() =~= Seq::<nat>::empty().push(count + 1));
    } else {
        lemma_one_more(2 * threshold, count);
        let rest = report_sizes(2 * threshold, count);
        if next_size(threshold, count) == count + 1 {
            assert(seq![threshold] + rest.push(count + 1) =~= (seq![threshold] + rest).push(
                count + 1,
            ));
        }
        assert forall|i: int| 0 <= i < report_sizes(threshold, count).len() implies 1
            <= #[trigger] report_sizes(threshold, count)[i] <= count by {
            if i > 0 {
                assert(report_sizes(threshold, count)[i] == rest[i - 1]);
            }
        }
    }
}

/// What holds after `entries` are read from the start with a first
/// threshold of `batch`.
proof fn lemma_feed(path: Seq<char>, batch: usize, entries: Seq<(ContentKind, Seq<char>)>)
    requires
        batch >= 1,
        entries.len() <= usize::MAX,
    ensures
        ({
            let (state, reports) = feed(start(path, batch), entries);
            let next = next_size(batch as nat, entries.len());
            &&& state.path == path
            &&& state.entries == entries
            &&& state.threshold == if next <= usize::MAX {
                Some(next as usize)
            } else {
                None
            }
            &&& reports == reports_at(path, entries, report_sizes(batch as nat, entries.len()))
        }),
    decreases entries.len(),
{
    let sizes = report_sizes(batch as nat, entries.len());
    if entries.len() == 0 {
        assert(reports_at(path, entries, sizes) =~= Seq::empty());
    } else {
        let earlier = entries.drop_last();
        let count = earlier.len();
        lemma_feed(path, batch, earlier);
        lemma_one_more(batch as nat, count);
        let (before, reports) = feed(start(path, batch), earlier);
        assert(earlier.push(entries.last()) =~= entries);
        let earlier_sizes = report_sizes(batch as nat, count);
        assert forall|i: int| 0 <= i < earlier_sizes.len() implies entries.take(
            earlier_sizes[i] as int,
        ) == earlier.take(earlier_sizes[i] as int) by {
            assert(entries.take(earlier_sizes[i] as int) =~= earlier.take(earlier_sizes[i] as int));
        }
        assert(entries.take(entries.len() as int) =~= entries);
        if next_size(batch as nat, count) == count + 1 {
            assert(reports_at(path, entries, sizes) =~= reports_at(
                path,
                earlier,
                earlier_sizes,
            ).push(MessageView::PathEnumerationContentChanged(path, entries)));
        } else {
            assert(reports_at(path, entries, sizes) =~= reports_at(path, earlier, earlier_sizes));
        }
    }
}

/// Reading a directory with a first threshold of `batch` reports what has
/// been read at `batch`, `2 * batch`, `4 * batch` entries and so on, each
/// time everything read so far; the end reports every entry once, in the
/// order read, and then that the directory is read.
pub proof fn lemma_reports_double(
    path: Seq<char>,
    batch: usize,
    entries: Seq<(ContentKind, Seq<char>)>,
)
    requires
        batch >= 1,
        entries.len() <= usize::MAX,
    ensures
        feed(start(path, batch), entries).1 == reports_at(
            path,
            entries,
            report_sizes(batch as nat, entries.len()),
        ),
        finish_step(feed(start(path, batch), entries).0) == seq![
            MessageView::PathEnumerationContentChanged(path, entries),
            MessageView::PathEnumerationFinished(path),
        ],
{
    lemma_feed(path, batch, entries);
}

/// A directory that is being read.
#[derive(Debug)]
pub struct Enumeration {
    path: String,
    entries: Vec<(ContentKind, String)>,
    threshold: Option<usize>,
}

impl View for Enumeration {
    type V = EnumerationState;

    closed spec fn view(&self) -> EnumerationState {
        EnumerationState {
            path: self.path@,
            entries: self.entries.deep_view(),
            threshold: self.threshold,
        }
    }
}

impl Enumeration {
    /// Begins to read the directory at `path`, with the first report due
    /// after `batch` entries.
    pub fn new(path: String, batch: usize) -> (enumeration: Enumeration)
        ensures
            enumeration@ == start(path@, batch),
    {
        let enumeration = Enumeration { path, entries: Vec::new(), threshold: Some(batch) };
        proof {
            assert(enumeration@.entries =~= Seq::empty());
        }
        enumeration
    }

    /// Takes the next entry of the directory: whether it is a directory
    /// itself, and its name if it has one that is text. Returns the report,
    /// if one is due.
    pub fn push(&mut self, is_directory: bool, name: Option<String>) -> (report: Option<Message>)
        ensures
            (final(self)@, report.deep_view()) == push_step(
                old(self)@,
                entry_of(is_directory, name.deep_view()),
            ),
    {
        let kind = if is_directory {
            ContentKind::Directory
        } else {
            ContentKind::File
        };
        let content = match name {
            Some(name) => name,
            None => String::new(),
        };
        self.entries.push((kind, content));
        proof {
            assert(self.entries.deep_view() =~= old(self).entries.deep_view().push(
                entry_of(is_directory, name.deep_view()),
            ));
        }
        match self.threshold {
            Some(threshold) => {
                if self.entries.len() >= threshold {
                    self.threshold = threshold.checked_mul(2);
                    Some(
                        Message::PathEnumerationContentChanged(
                            self.path.clone(),
                            clone_entries(&self.entries),
                        ),
                    )
                } else {
                    None
                }
            },
            None => None,
        }
    }

    /// Ends the reading: everything read, then the notice that the
    /// directory is read.
    pub fn finish(self) -> (messages: Vec<Message>)
        ensures
            messages.deep_view() == finish_step(self@),
    {
        let mut messages: Vec<Message> = Vec::new();
        let path = self.path.clone();
        messages.push(Message::PathEnumerationContentChanged(self.path, self.entries));
        messages.push(Message::PathEnumerationFinished(path));
        proof {
            assert(messages.deep_view() =~= finish_step(self@));
        }
        messages
    }
}

} // verus!
