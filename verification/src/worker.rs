//! The directory worker: from what was read of one directory to the events
//! that it reports.

use vstd::prelude::*;
use crate::objects::{build_dir_chan, build_file_chan, events_of, ChanResponse, Event};

verus! {

/// The type of a directory entry, as the active way of reading metadata
/// reported it.
#[derive(Clone, Copy, Debug, PartialEq, Eq, Structural)]
pub enum EntryKind {
    Directory,
    RegularFile,
    /// A symbolic link or a special file.
    Other,
}

/// The type and the length in bytes of an entry.
#[derive(Clone, Copy, Debug, PartialEq, Eq, Structural)]
pub struct EntryStat {
    pub kind: EntryKind,
    pub len: u64,
}

/// One entry of a listed directory. `stat` is `None` where the entry could
/// not be read, classified or sized.
#[derive(Clone, Debug, PartialEq, Eq)]
pub struct Entry {
    pub path: String,
    pub stat: Option<EntryStat>,
}

/// The event that one entry gives rise to: a subdirectory is announced, a
/// regular file is reported with its length, anything else is passed over.
pub open spec fn entry_event(e: Entry) -> Option<Event> {
    match e.stat {
        Some(st) => match st.kind {
            EntryKind::Directory => Some(Event::NewDirectory(e.path@)),
            EntryKind::RegularFile => Some(Event::FileObserved(st.len)),
            EntryKind::Other => None,
        },
        None => None,
    }
}

/// The events of a sequence of entries, in the order of the entries.
pub open spec fn entries_events(entries: Seq<Entry>) -> Seq<Event>
    decreases entries.len(),
{
    if entries.len() == 0 {
        Seq::empty()
    } else {
        let before = entries_events(entries.drop_last());
        match entry_event(entries.last()) {
            Some(ev) => before.push(ev),
            None => before,
        }
    }
}

/// Everything a worker reports for one directory: the events of its entries
/// where the directory could be listed, nothing where it could not, and in
/// both cases one closing `DirectoryDone`.
pub open spec fn worker_events(listing: Option<Seq<Entry>>) -> Seq<Event> {
    match listing {
        Some(entries) => entries_events(entries).push(Event::DirectoryDone),
        None => seq![Event::DirectoryDone],
    }
}

/// How many of the events announce the end of a worker.
pub open spec fn count_done(evs: Seq<Event>) -> nat
    decreases evs.len(),
{
    if evs.len() == 0 {
        0
    } else {
        count_done(evs.drop_last()) + if evs.last() is DirectoryDone {
            1nat
        } else {
            0nat
        }
    }
}

/// How many of the events announce a subdirectory.
pub open spec fn count_new_directories(evs: Seq<Event>) -> nat
    decreases evs.len(),
{
    if evs.len() == 0 {
        0
    } else {
        count_new_directories(evs.drop_last()) + if evs.last() is NewDirectory {
            1nat
        } else {
            0nat
        }
    }
}

/// How many of the events report a regular file.
pub open spec fn count_files(evs: Seq<Event>) -> nat
    decreases evs.len(),
{
    if evs.len() == 0 {
        0
    } else {
        count_files(evs.drop_last()) + if evs.last() is FileObserved {
            1nat
        } else {
            0nat
        }
    }
}

/// The entries of a directory never announce the end of the worker, and give
/// at most one event each.
pub proof fn lemma_entries_events(entries: Seq<Entry>)
    ensures
        count_done(entries_events(entries)) == 0,
        entries_events(entries).len() <= entries.len(),
        count_new_directories(entries_events(entries)) + count_files(entries_events(entries))
            == entries_events(entries).len(),
    decreases entries.len(),
{
    if entries.len() > 0 {
        lemma_entries_events(entries.drop_last());
        let before = entries_events(entries.drop_last());
        match entry_event(entries.last()) {
            Some(ev) => {
                assert(before.push(ev).drop_last() =~= before);
            },
            None => {},
        }
    }
}

/// A worker reports the end of its directory exactly once, as its last
/// event, whether the directory could be listed or not; a directory that
/// could not be listed contributes no file and no subdirectory.
pub proof fn law_worker_reports_done_once(listing: Option<Seq<Entry>>)
    ensures
        count_done(worker_events(listing)) == 1,
        worker_events(listing).len() >= 1,
        worker_events(listing).last() == Event::DirectoryDone,
        listing is None ==> count_files(worker_events(listing)) == 0 && count_new_directories(
            worker_events(listing),
        ) == 0,
{
    match listing {
        Some(entries) => {
            lemma_entries_events(entries);
            assert(worker_events(listing).drop_last() =~= entries_events(entries));
        },
        None => {
            assert(worker_events(listing).drop_last() =~= Seq::<Event>::empty());
            assert(count_done(Seq::<Event>::empty()) == 0);
            assert(count_files(Seq::<Event>::empty()) == 0);
            assert(count_new_directories(Seq::<Event>::empty()) == 0);
        },
    }
}

/// The message for one entry, if it gives rise to one.
pub fn classify_entry(e: &Entry) -> (r: Option<ChanResponse>)
    ensures
        match r {
            Some(msg) => entry_event(*e) == Some(msg@),
            None => entry_event(*e).is_none(),
        },
{
    match e.stat {
        Some(st) => match st.kind {
            EntryKind::Directory => Some(build_dir_chan(e.path.clone())),
            EntryKind::RegularFile => Some(build_file_chan(st.len)),
            EntryKind::Other => None,
        },
        None => None,
    }
}

/// The messages for the entries of a listed directory, in their order,
/// without the closing one.
pub fn scan_entries(entries: &Vec<Entry>) -> (msgs: Vec<ChanResponse>)
    ensures
        events_of(msgs@) == entries_events(entries@),
{
    let mut msgs: Vec<ChanResponse> = Vec::new();
    let mut i: usize = 0;
    assert(entries@.take(0) =~= Seq::<Entry>::empty());
    assert(events_of(msgs@) =~= Seq::<Event>::empty());
    while i < entries.len()
        invariant
            i <= entries.len(),
            events_of(msgs@) == entries_events(entries@.take(i as int)),
        decreases entries.len() - i,
    {
        let ghost before = msgs@;
        assert(entries@.take(i + 1).drop_last() =~= entries@.take(i as int));
        assert(entries@.take(i + 1).last() == entries@[i as int]);
        match classify_entry(&entries[i]) {
            Some(msg) => {
                msgs.push(msg);
                assert(events_of(msgs@) =~= events_of(before).push(msg@));
            },
            None => {},
        }
        i += 1;
    }
    assert(entries@.take(i as int) =~= entries@);
    msgs
}

/// The view of what was read of a directory: its entries, or `None` where
/// the directory could not be listed.
pub open spec fn listing_view(listing: Option<Vec<Entry>>) -> Option<Seq<Entry>> {
    match listing {
        Some(entries) => Some(entries@),
        None => None,
    }
}

} // verus!
