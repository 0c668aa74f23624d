//! The records that travel through a scan: the running result, the events
//! that directory workers send, and the configuration.

use vstd::prelude::*;
use vstd::string::*;
use crate::histogram::Bucket;
use crate::text::{decimal, push_decimal};
use crate::worker::{listing_view, scan_entries, worker_events, Entry};

verus! {

/// A span of time as whole seconds and the nanoseconds of the started second.
#[derive(Clone, Copy, Debug, PartialEq, Eq, Structural)]
pub struct Elapsed {
    pub secs: u64,
    pub nanos: u32,
}

impl Elapsed {
    /// The nanoseconds stay below one second.
    pub open spec fn wf(self) -> bool {
        self.nanos < 1_000_000_000
    }

    /// The span in whole milliseconds, rounded down.
    pub open spec fn millis(self) -> nat {
        (self.secs * 1_000 + self.nanos / 1_000_000) as nat
    }

    /// No time at all.
    pub fn zero() -> (e: Elapsed)
        ensures
            e == (Elapsed { secs: 0, nanos: 0 }),
            e.wf(),
            e.millis() == 0,
    {
        Elapsed { secs: 0, nanos: 0 }
    }

    /// The span in whole milliseconds, rounded down.
    pub fn as_millis(&self) -> (ms: u128)
        ensures
            ms == self.millis(),
    {
        (self.secs as u128) * 1_000 + (self.nanos as u128) / 1_000_000
    }
}

/// What a scan has counted, as mathematics sees it.
pub struct ResultView {
    pub path: Seq<char>,
    pub duration: Elapsed,
    pub files: nat,
    pub directories: nat,
    pub histogram: Map<Bucket, nat>,
}

impl ResultView {
    /// The number of files over all buckets.
    pub open spec fn total(self) -> nat {
        self.histogram[Bucket::Empty] + self.histogram[Bucket::LessThan4K]
            + self.histogram[Bucket::Between4K8K] + self.histogram[Bucket::Between8K16K]
            + self.histogram[Bucket::Between16K32K] + self.histogram[Bucket::Between32K64K]
            + self.histogram[Bucket::Between64K128K] + self.histogram[Bucket::Between128K256K]
            + self.histogram[Bucket::Between256K512K] + self.histogram[Bucket::Between512K1M]
            + self.histogram[Bucket::Between1M10M] + self.histogram[Bucket::Between10M100M]
            + self.histogram[Bucket::Between100M1G] + self.histogram[Bucket::MoreThan1G]
    }

    /// Every file is counted in exactly one bucket.
    pub open spec fn consistent(self) -> bool {
        &&& self.histogram.dom() == Set::<Bucket>::full()
        &&& self.files == self.total()
    }

    /// The counts of a scan of `path` that has seen nothing yet.
    pub open spec fn fresh(path: Seq<char>) -> ResultView {
        ResultView {
            path,
            duration: Elapsed { secs: 0, nanos: 0 },
            files: 0,
            directories: 0,
            histogram: Map::total(|b: Bucket| 0nat),
        }
    }

    /// The counts after one more file of `len` bytes.
    pub open spec fn record_file(self, len: nat) -> ResultView {
        let b = crate::histogram::bucket_of(len);
        ResultView {
            files: self.files + 1,
            histogram: self.histogram.insert(b, self.histogram[b] + 1),
            ..self
        }
    }

    /// The counts after one more directory.
    pub open spec fn record_directory(self) -> ResultView {
        ResultView { directories: self.directories + 1, ..self }
    }
}

/// The running and final result of a scan.
#[derive(Clone, Debug, PartialEq, Eq)]
pub struct Result {
    pub path: String,
    pub duration: Elapsed,
    pub files: usize,
    pub directories: usize,
    pub empty_file: usize,
    pub less_than_4_k: usize,
    pub between_4_k_8_k: usize,
    pub between_8_k_16_k: usize,
    pub between_16_k_32_k: usize,
    pub between_32_k_64_k: usize,
    pub between_64_k_128_k: usize,
    pub between_128_k_256_k: usize,
    pub between_256_k_512_k: usize,
    pub between_512_k_1_m: usize,
    pub between_1_m_10_m: usize,
    pub between_10_m_100_m: usize,
    pub between_100_m_1_g: usize,
    pub more_than_1_g: usize,
}

impl View for Result {
    type V = ResultView;

    open spec fn view(&self) -> ResultView {
        ResultView {
            path: self.path@,
            duration: self.duration,
            files: self.files as nat,
            directories: self.directories as nat,
            histogram: Map::total(|b: Bucket| self.count(b)),
        }
    }
}

/// A fresh result for a scan of `path`: no time spent, nothing counted.
pub fn build_result(path: &str) -> (res: Result)
    ensures
        res@ == ResultView::fresh(path@),
        res@.consistent(),
{
    let res = Result {
        path: String::from_str(path),
        duration: Elapsed::zero(),
        files: 0,
        directories: 0,
        empty_file: 0,
        less_than_4_k: 0,
        between_4_k_8_k: 0,
        between_8_k_16_k: 0,
        between_16_k_32_k: 0,
        between_32_k_64_k: 0,
        between_64_k_128_k: 0,
        between_128_k_256_k: 0,
        between_256_k_512_k: 0,
        between_512_k_1_m: 0,
        between_1_m_10_m: 0,
        between_10_m_100_m: 0,
        between_100_m_1_g: 0,
        more_than_1_g: 0,
    };
    assert(res@.histogram =~= Map::total(|b: Bucket| 0nat));
    res
}

impl Result {
    /// The number of files counted in bucket `b`.
    pub open spec fn count(&self, b: Bucket) -> nat {
        match b {
            Bucket::Empty => self.empty_file as nat,
            Bucket::LessThan4K => self.less_than_4_k as nat,
            Bucket::Between4K8K => self.between_4_k_8_k as nat,
            Bucket::Between8K16K => self.between_8_k_16_k as nat,
            Bucket::Between16K32K => self.between_16_k_32_k as nat,
            Bucket::Between32K64K => self.between_32_k_64_k as nat,
            Bucket::Between64K128K => self.between_64_k_128_k as nat,
            Bucket::Between128K256K => self.between_128_k_256_k as nat,
            Bucket::Between256K512K => self.between_256_k_512_k as nat,
            Bucket::Between512K1M => self.between_512_k_1_m as nat,
            Bucket::Between1M10M => self.between_1_m_10_m as nat,
            Bucket::Between10M100M => self.between_10_m_100_m as nat,
            Bucket::Between100M1G => self.between_100_m_1_g as nat,
            Bucket::MoreThan1G => self.more_than_1_g as nat,
        }
    }

    /// The number of files counted in bucket `b`.
    pub fn bucket_count(&self, b: Bucket) -> (n: usize)
        ensures
            n == self@.histogram[b],
    {
        match b {
            Bucket::Empty => self.empty_file,
            Bucket::LessThan4K => self.less_than_4_k,
            Bucket::Between4K8K => self.between_4_k_8_k,
            Bucket::Between8K16K => self.between_8_k_16_k,
            Bucket::Between16K32K => self.between_16_k_32_k,
            Bucket::Between32K64K => self.between_32_k_64_k,
            Bucket::Between64K128K => self.between_64_k_128_k,
            Bucket::Between128K256K => self.between_128_k_256_k,
            Bucket::Between256K512K => self.between_256_k_512_k,
            Bucket::Between512K1M => self.between_512_k_1_m,
            Bucket::Between1M10M => self.between_1_m_10_m,
            Bucket::Between10M100M => self.between_10_m_100_m,
            Bucket::Between100M1G => self.between_100_m_1_g,
            Bucket::MoreThan1G => self.more_than_1_g,
        }
    }

    /// Whether the files counter equals the sum of the buckets.
    pub fn is_consistent(&self) -> (ok: bool)
        ensures
            ok == self@.consistent(),
    {
        let sum: u128 = self.empty_file as u128 + self.less_than_4_k as u128
            + self.between_4_k_8_k as u128 + self.between_8_k_16_k as u128
            + self.between_16_k_32_k as u128 + self.between_32_k_64_k as u128
            + self.between_64_k_128_k as u128 + self.between_128_k_256_k as u128
            + self.between_256_k_512_k as u128 + self.between_512_k_1_m as u128
            + self.between_1_m_10_m as u128 + self.between_10_m_100_m as u128
            + self.between_100_m_1_g as u128 + self.more_than_1_g as u128;
        assert(self@.histogram.dom() =~= Set::<Bucket>::full());
        self.files as u128 == sum
    }

    /// The row of the report for this result: the path, the duration in
    /// milliseconds, the files, the directories and the fourteen buckets from
    /// the empty files upwards, joined by commas.
    pub open spec fn csv_text(&self) -> Seq<char> {
        self.path@ + seq![','] + decimal(self.duration.millis()) + seq![','] + decimal(
            self.files as nat,
        ) + seq![','] + decimal(self.directories as nat) + seq![','] + decimal(
            self.empty_file as nat,
        ) + seq![','] + decimal(self.less_than_4_k as nat) + seq![','] + decimal(
            self.between_4_k_8_k as nat,
        ) + seq![','] + decimal(self.between_8_k_16_k as nat) + seq![','] + decimal(
            self.between_16_k_32_k as nat,
        ) + seq![','] + decimal(self.between_32_k_64_k as nat) + seq![','] + decimal(
            self.between_64_k_128_k as nat,
        ) + seq![','] + decimal(self.between_128_k_256_k as nat) + seq![','] + decimal(
            self.between_256_k_512_k as nat,
        ) + seq![','] + decimal(self.between_512_k_1_m as nat) + seq![','] + decimal(
            self.between_1_m_10_m as nat,
        ) + seq![','] + decimal(self.between_10_m_100_m as nat) + seq![','] + decimal(
            self.between_100_m_1_g as nat,
        ) + seq![','] + decimal(self.more_than_1_g as nat)
    }

    /// Renders the row of the report for this result.
    pub fn csv_line(&self) -> (line: String)
        ensures
            line@ == self.csv_text(),
    {
        let mut line = String::from_str(self.path.as_str());
        push_field(&mut line, self.duration.as_millis());
        push_field(&mut line, self.files as u128);
        push_field(&mut line, self.directories as u128);
        push_field(&mut line, self.empty_file as u128);
        push_field(&mut line, self.less_than_4_k as u128);
        push_field(&mut line, self.between_4_k_8_k as u128);
        push_field(&mut line, self.between_8_k_16_k as u128);
        push_field(&mut line, self.between_16_k_32_k as u128);
        push_field(&mut line, self.between_32_k_64_k as u128);
        push_field(&mut line, self.between_64_k_128_k as u128);
        push_field(&mut line, self.between_128_k_256_k as u128);
        push_field(&mut line, self.between_256_k_512_k as u128);
        push_field(&mut line, self.between_512_k_1_m as u128);
        push_field(&mut line, self.between_1_m_10_m as u128);
        push_field(&mut line, self.between_10_m_100_m as u128);
        push_field(&mut line, self.between_100_m_1_g as u128);
        push_field(&mut line, self.more_than_1_g as u128);
        line
    }
}

/// Appends a comma and the decimal text of `n` to `out`.
fn push_field(out: &mut String, n: u128)
    ensures
        final(out)@ == old(out)@ + seq![','] + decimal(n as nat),
{
    proof {
        reveal_strlit(",");
    }
    out.append(",");
    assert(","@ =~= seq![',']);
    push_decimal(out, n);
}

/// The kind of a message from a directory worker.
#[derive(Clone, Copy, Debug, PartialEq, Eq, Structural)]
pub enum ResponseType {
    /// A regular file was seen.
    File,
    /// A subdirectory was discovered.
    Dir,
    /// The worker has finished its directory.
    DoneDir,
}

/// What a message from a directory worker says.
pub enum Event {
    /// A subdirectory was discovered at this path.
    NewDirectory(Seq<char>),
    /// The worker has finished its directory, readable or not.
    DirectoryDone,
    /// A regular file of this many bytes was seen.
    FileObserved(u64),
}

/// A message from a directory worker to the scheduler. `path` counts only
/// for `Dir` and `len` only for `File`.
#[derive(Clone, Debug, PartialEq, Eq)]
pub struct ChanResponse {
    pub t: ResponseType,
    pub path: String,
    pub len: u64,
}

impl View for ChanResponse {
    type V = Event;

    open spec fn view(&self) -> Event {
        match self.t {
            ResponseType::File => Event::FileObserved(self.len),
            ResponseType::Dir => Event::NewDirectory(self.path@),
            ResponseType::DoneDir => Event::DirectoryDone,
        }
    }
}

/// The events that a sequence of messages carries, in order.
pub open spec fn events_of(msgs: Seq<ChanResponse>) -> Seq<Event> {
    msgs.map_values(|m: ChanResponse| m@)
}

/// The message for a discovered subdirectory.
pub fn build_dir_chan(path: String) -> (r: ChanResponse)
    ensures
        r.t == ResponseType::Dir,
        r.path == path,
        r.len == 0,
        r@ == Event::NewDirectory(path@),
{
    ChanResponse { t: ResponseType::Dir, path, len: 0 }
}

/// The message that ends a worker's report.
pub fn build_dir_chan_done() -> (r: ChanResponse)
    ensures
        r.t == ResponseType::DoneDir,
        r.path@ == Seq::<char>::empty(),
        r.len == 0,
        r@ == Event::DirectoryDone,
{
    ChanResponse { t: ResponseType::DoneDir, path: String::new(), len: 0 }
}

/// The message for a regular file of `size` bytes.
pub fn build_file_chan(size: u64) -> (r: ChanResponse)
    ensures
        r.t == ResponseType::File,
        r.path@ == Seq::<char>::empty(),
        r.len == size,
        r@ == Event::FileObserved(size),
{
    ChanResponse { t: ResponseType::File, path: String::new(), len: size }
}

/// The configuration of a scan.
#[derive(Clone, Debug, PartialEq, Eq)]
pub struct Config {
    /// The root directory of the scan.
    pub path: String,
    /// The largest number of directory workers at once; 0 leaves the choice
    /// to the number of logical CPUs.
    pub max_threads: usize,
    /// Whether the result is added to the report file.
    pub save_csv: bool,
    /// Whether additional information is shown.
    pub verbose: bool,
    /// Whether the fast way of reading metadata is switched off.
    pub prevent_statx: bool,
    /// Whether sizes are asked of the external helper.
    pub external_shortcut: bool,
}

/// `num_cpus::get`: the number of logical CPUs that this process may use,
/// which its documentation promises to be at least 1. The number depends on
/// the machine, so nothing more is claimed of it.
#[verifier::external_body]
fn available_cpus() -> (n: usize)
    ensures
        n >= 1,
{
    num_cpus::get()
}

impl Config {
    /// The budget of workers on a machine with `cpus` logical CPUs: the
    /// configured number, or, where that is 0, four workers for each CPU, as
    /// far as the machine's integers reach.
    pub open spec fn budget_for(&self, cpus: nat) -> nat {
        if self.max_threads > 0 {
            self.max_threads as nat
        } else if cpus * 4 <= usize::MAX {
            cpus * 4
        } else {
            usize::MAX as nat
        }
    }

    /// The budget of workers on a machine with `cpus` logical CPUs.
    pub fn budget_with(&self, cpus: usize) -> (budget: usize)
        ensures
            budget == self.budget_for(cpus as nat),
            cpus >= 1 ==> budget >= 1,
    {
        if self.max_threads > 0 {
            self.max_threads
        } else {
            match cpus.checked_mul(4) {
                Some(n) => n,
                None => usize::MAX,
            }
        }
    }

    /// The budget of workers on this machine: the configured number where
    /// there is one, else what the number of logical CPUs gives. It is never 0.
    pub fn resolve_budget(&self) -> (budget: usize)
        ensures
            budget >= 1,
            self.max_threads > 0 ==> budget == self.max_threads,
            exists|cpus: nat| cpus >= 1 && budget == #[trigger] self.budget_for(cpus),
    {
        let cpus = available_cpus();
        self.budget_with(cpus)
    }

    /// Everything the worker of one directory sends, from what was read of
    /// the directory: a message for each subdirectory and each regular file,
    /// in the order of the entries, and one closing message; the closing
    /// message alone where the directory could not be listed.
    pub fn handle_dir(&self, listing: &Option<Vec<Entry>>) -> (msgs: Vec<ChanResponse>)
        ensures
            events_of(msgs@) == worker_events(listing_view(*listing)),
    {
        let mut msgs = match listing {
            Some(entries) => scan_entries(entries),
            None => Vec::new(),
        };
        let ghost before = msgs@;
        let done = build_dir_chan_done();
        msgs.push(done);
        assert(events_of(msgs@) =~= events_of(before).push(Event::DirectoryDone));
        proof {
            if listing is None {
                assert(events_of(before) =~= Seq::<Event>::empty());
                assert(events_of(msgs@) =~= seq![Event::DirectoryDone]);
            }
        }
        msgs
    }
}

} // verus!
