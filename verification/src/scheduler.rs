//! The scheduler: the single consumer of the workers' events. It owns the
//! result, keeps the number of running workers within the budget, and holds
//! back the directories that have to wait.

use vstd::prelude::*;
use crate::histogram::handle_file;
use crate::objects::{
    build_result, events_of, ChanResponse, Config, Elapsed, Event, ResponseType, Result, ResultView,
};
use crate::worker::{count_done, count_new_directories, listing_view, worker_events, Entry};

verus! {

/// The state of a scan as mathematics sees it.
pub struct ScanModel {
    /// The largest number of workers that may run at once.
    pub budget: nat,
    /// The number of workers that run now.
    pub running: nat,
    /// The directories that wait for a worker, the latest last.
    pub pending: Seq<Seq<char>>,
    /// What has been counted so far.
    pub res: ResultView,
}

/// What the caller has to do after an event was consumed.
pub enum Directive {
    /// Start a worker on the directory at this path.
    Dispatch(Seq<char>),
    /// Nothing: wait for the next event.
    Wait,
    /// The scan is complete.
    Finished,
}

impl ScanModel {
    /// The state at the start of a scan: the worker of the root directory
    /// runs, nothing waits and nothing is counted.
    pub open spec fn start(path: Seq<char>, budget: nat) -> ScanModel {
        ScanModel { budget, running: 1, pending: Seq::empty(), res: ResultView::fresh(path) }
    }

    /// The invariant of every scan: the running workers stay within the
    /// budget, directories wait only while the budget is used up, and every
    /// counted file is in exactly one bucket.
    pub open spec fn wf(self) -> bool {
        &&& 1 <= self.budget
        &&& self.running <= self.budget
        &&& (self.pending.len() > 0 ==> self.running == self.budget)
        &&& self.res.consistent()
    }

    /// The scan is still going on: at least one worker runs.
    pub open spec fn active(self) -> bool {
        self.running > 0
    }

    /// The state after an event. A completed scan takes no more events.
    pub open spec fn step(self, ev: Event) -> ScanModel {
        if !self.active() {
            self
        } else {
            match ev {
                Event::NewDirectory(path) => {
                    if self.running < self.budget {
                        ScanModel {
                            running: self.running + 1,
                            res: self.res.record_directory(),
                            ..self
                        }
                    } else {
                        ScanModel {
                            pending: self.pending.push(path),
                            res: self.res.record_directory(),
                            ..self
                        }
                    }
                },
                Event::DirectoryDone => {
                    if self.pending.len() > 0 {
                        ScanModel { pending: self.pending.drop_last(), ..self }
                    } else {
                        ScanModel { running: (self.running - 1) as nat, ..self }
                    }
                },
                Event::FileObserved(len) => ScanModel {
                    res: self.res.record_file(len as nat),
                    ..self
                },
            }
        }
    }

    /// What the caller has to do after an event: a new directory gets a
    /// worker at once while the budget allows; the end of a worker hands its
    /// place to the directory that has waited the shortest, or ends the scan
    /// where it was the last worker.
    pub open spec fn directive(self, ev: Event) -> Directive {
        if !self.active() {
            Directive::Finished
        } else {
            match ev {
                Event::NewDirectory(path) => {
                    if self.running < self.budget {
                        Directive::Dispatch(path)
                    } else {
                        Directive::Wait
                    }
                },
                Event::DirectoryDone => {
                    if self.pending.len() > 0 {
                        Directive::Dispatch(self.pending.last())
                    } else if self.running == 1 {
                        Directive::Finished
                    } else {
                        Directive::Wait
                    }
                },
                Event::FileObserved(_) => Directive::Wait,
            }
        }
    }

    /// The state after a sequence of events, consumed in order.
    pub open spec fn run(self, evs: Seq<Event>) -> ScanModel
        decreases evs.len(),
    {
        if evs.len() == 0 {
            self
        } else {
            self.run(evs.drop_last()).step(evs.last())
        }
    }

    /// The scan is still going on before each of the events: none of them
    /// arrives after the scan was complete.
    pub open spec fn alive_through(self, evs: Seq<Event>) -> bool {
        forall|k: int| 0 <= k < evs.len() ==> (#[trigger] self.run(evs.take(k))).active()
    }
}

/// The histogram after one more file is again consistent.
pub proof fn lemma_record_file_consistent(r: ResultView, len: nat)
    requires
        r.consistent(),
    ensures
        r.record_file(len).consistent(),
{
    let after = r.record_file(len);
    assert(after.histogram.dom() =~= Set::<crate::histogram::Bucket>::full());
}

/// One event keeps the invariant of the scan, and never changes the budget.
pub proof fn lemma_step_keeps_invariant(s: ScanModel, ev: Event)
    requires
        s.wf(),
    ensures
        s.step(ev).wf(),
        s.step(ev).budget == s.budget,
        s.step(ev).res.path == s.res.path,
{
    match ev {
        Event::FileObserved(len) => {
            lemma_record_file_consistent(s.res, len as nat);
        },
        _ => {},
    }
}

/// Whatever events arrive in whatever order, the number of running workers
/// never exceeds the budget, waiting directories exist only while the budget
/// is used up, and the files counter equals the sum of the buckets.
pub proof fn law_invariant_holds_throughout(path: Seq<char>, budget: nat, evs: Seq<Event>)
    requires
        budget >= 1,
    ensures
        ScanModel::start(path, budget).run(evs).wf(),
        ScanModel::start(path, budget).run(evs).running <= budget,
        ScanModel::start(path, budget).run(evs).budget == budget,
        ScanModel::start(path, budget).run(evs).res.files == ScanModel::start(path, budget).run(
            evs,
        ).res.total(),
    decreases evs.len(),
{
    let s = ScanModel::start(path, budget);
    if evs.len() == 0 {
        assert(s.res.histogram.dom() =~= Set::<crate::histogram::Bucket>::full());
    } else {
        law_invariant_holds_throughout(path, budget, evs.drop_last());
        lemma_step_keeps_invariant(s.run(evs.drop_last()), evs.last());
    }
}

/// Once complete, a scan stays as it is.
pub proof fn law_complete_is_final(s: ScanModel, evs: Seq<Event>)
    requires
        !s.active(),
    ensures
        s.run(evs) == s,
    decreases evs.len(),
{
    if evs.len() > 0 {
        law_complete_is_final(s, evs.drop_last());
    }
}

/// While a scan goes on, the directories counter is the number of
/// directories announced, one for each whether it can be listed or not; the
/// files counter is the number of files reported; and the running and the
/// waiting directories are those announced, and the root, that have not
/// reported their end.
pub proof fn law_counters_follow_events(path: Seq<char>, budget: nat, evs: Seq<Event>)
    requires
        budget >= 1,
        ScanModel::start(path, budget).alive_through(evs),
    ensures
        ScanModel::start(path, budget).run(evs).res.directories == count_new_directories(evs),
        ScanModel::start(path, budget).run(evs).res.files == crate::worker::count_files(evs),
        ScanModel::start(path, budget).run(evs).running + ScanModel::start(path, budget).run(
            evs,
        ).pending.len() + count_done(evs) == 1 + count_new_directories(evs),
    decreases evs.len(),
{
    let s = ScanModel::start(path, budget);
    if evs.len() > 0 {
        let before = evs.drop_last();
        assert forall|k: int| 0 <= k < before.len() implies (#[trigger] s.run(
            before.take(k),
        )).active() by {
            assert(before.take(k) =~= evs.take(k));
        }
        law_counters_follow_events(path, budget, before);
        law_invariant_holds_throughout(path, budget, before);
        assert(evs.take(evs.len() - 1) =~= before);
        assert(s.run(before).active());
    }
}

/// A scan is complete exactly when the root and every announced directory
/// have reported their end.
pub proof fn law_complete_when_all_done(path: Seq<char>, budget: nat, evs: Seq<Event>)
    requires
        budget >= 1,
        ScanModel::start(path, budget).alive_through(evs),
    ensures
        !ScanModel::start(path, budget).run(evs).active() <==> count_done(evs) == 1
            + count_new_directories(evs),
{
    law_counters_follow_events(path, budget, evs);
    law_invariant_holds_throughout(path, budget, evs);
}

/// With a budget of one, only the root's worker is started at once: every
/// announced directory waits, and each end of a worker starts the directory
/// announced last among those that wait.
pub proof fn law_budget_one_is_depth_first(s: ScanModel, ev: Event)
    requires
        s.wf(),
        s.active(),
        s.budget == 1,
    ensures
        ev matches Event::NewDirectory(path) ==> s.directive(ev) == Directive::Wait && s.step(
            ev,
        ).pending == s.pending.push(path),
        ev is DirectoryDone && s.pending.len() > 0 ==> s.directive(ev) == Directive::Dispatch(
            s.pending.last(),
        ) && s.step(ev).pending == s.pending.drop_last() && s.step(ev).running == 1,
        ev is DirectoryDone && s.pending.len() == 0 ==> s.directive(ev) == Directive::Finished,
{
}

/// What the caller has to do after an event was consumed.
#[derive(Clone, Debug, PartialEq, Eq)]
pub enum Action {
    /// Start a worker on the directory at this path.
    Dispatch(String),
    /// Nothing: wait for the next event.
    Wait,
    /// The scan is complete: stop consuming.
    Finished,
}

impl View for Action {
    type V = Directive;

    open spec fn view(&self) -> Directive {
        match self {
            Action::Dispatch(path) => Directive::Dispatch(path@),
            Action::Wait => Directive::Wait,
            Action::Finished => Directive::Finished,
        }
    }
}

/// Why a scan cannot start.
#[derive(Clone, Copy, Debug, PartialEq, Eq, Structural)]
pub enum ScanError {
    /// The root directory cannot be listed.
    RootUnreadable,
}

/// The paths of a queue of directories.
pub open spec fn paths_of(queue: Seq<String>) -> Seq<Seq<char>> {
    queue.map_values(|p: String| p@)
}

/// The state of a scan: the budget, the running workers, the directories
/// that wait, and the result so far.
#[derive(Clone, Debug, PartialEq, Eq)]
pub struct Scheduler {
    pub max_threads: usize,
    pub running: usize,
    pub queue: Vec<String>,
    pub res: Result,
}

impl View for Scheduler {
    type V = ScanModel;

    open spec fn view(&self) -> ScanModel {
        ScanModel {
            budget: self.max_threads as nat,
            running: self.running as nat,
            pending: paths_of(self.queue@),
            res: self.res@,
        }
    }
}

impl Scheduler {
    /// The invariant of the scan holds of this state.
    pub open spec fn wf(&self) -> bool {
        self@.wf()
    }

    /// The scheduler at the start of a scan of `path` with at most
    /// `max_threads` workers at once. The caller starts the worker of the
    /// root directory, which counts as running.
    pub fn new(path: &str, max_threads: usize) -> (s: Scheduler)
        requires
            max_threads >= 1,
        ensures
            s@ == ScanModel::start(path@, max_threads as nat),
            s.wf(),
    {
        let s = Scheduler { max_threads, running: 1, queue: Vec::new(), res: build_result(path) };
        assert(s@.pending =~= Seq::<Seq<char>>::empty());
        s
    }

    /// Starts a scan from what was read of its root directory. A root that
    /// cannot be listed is fatal: no scan starts. Otherwise the scheduler
    /// comes with the messages of the root's worker, which counts as running.
    pub fn begin(conf: &Config, root: &Option<Vec<Entry>>) -> (r: core::result::Result<
        (Scheduler, Vec<ChanResponse>),
        ScanError,
    >)
        ensures
            match r {
                Ok((s, msgs)) => {
                    &&& root is Some
                    &&& s.wf()
                    &&& s@ == ScanModel::start(conf.path@, s.max_threads as nat)
                    &&& (conf.max_threads > 0 ==> s.max_threads == conf.max_threads)
                    &&& exists|cpus: nat|
                        cpus >= 1 && s.max_threads == #[trigger] conf.budget_for(cpus)
                    &&& events_of(msgs@) == worker_events(listing_view(*root))
                },
                Err(e) => root is None && e == ScanError::RootUnreadable,
            },
    {
        match root {
            Some(_) => {
                let budget = conf.resolve_budget();
                let s = Scheduler::new(conf.path.as_str(), budget);
                let msgs = conf.handle_dir(root);
                Ok((s, msgs))
            },
            None => Err(ScanError::RootUnreadable),
        }
    }

    /// Ends the scan: the result with the time that the scan took.
    pub fn finish(self, elapsed: Elapsed) -> (res: Result)
        ensures
            res@ == (ResultView { duration: elapsed, ..self@.res }),
            self@.res.consistent() ==> res@.consistent(),
    {
        let mut res = self.res;
        res.duration = elapsed;
        assert(res@.histogram =~= self@.res.histogram);
        res
    }

    /// Whether the invariant of the scan holds of this state.
    pub fn is_valid(&self) -> (ok: bool)
        ensures
            ok == self.wf(),
    {
        assert(self@.pending.len() == self.queue@.len());
        1 <= self.max_threads && self.running <= self.max_threads && (self.queue.len() == 0
            || self.running == self.max_threads) && self.res.is_consistent()
    }

    /// Whether the scan is complete: no worker runs any more.
    pub fn is_finished(&self) -> (done: bool)
        ensures
            done == !self@.active(),
    {
        self.running == 0
    }

    /// The number of directories that wait for a worker.
    pub fn pending(&self) -> (n: usize)
        ensures
            n == self@.pending.len(),
    {
        self.queue.len()
    }

    /// Consumes one event and says what the caller has to do next.
    pub fn step(&mut self, msg: ChanResponse) -> (action: Action)
        requires
            old(self).wf(),
            old(self).res.files < usize::MAX,
            old(self).res.directories < usize::MAX,
        ensures
            final(self)@ == old(self)@.step(msg@),
            action@ == old(self)@.directive(msg@),
            final(self).wf(),
    {
        proof {
            lemma_step_keeps_invariant(self@, msg@);
        }
        if self.running == 0 {
            return Action::Finished;
        }
        match msg.t {
            ResponseType::Dir => {
                self.res.directories += 1;
                assert(self.res@.histogram =~= old(self).res@.histogram);
                if self.running >= self.max_threads {
                    self.queue.push(msg.path);
                    assert(paths_of(self.queue@) =~= paths_of(old(self).queue@).push(msg.path@));
                    Action::Wait
                } else {
                    self.running += 1;
                    Action::Dispatch(msg.path)
                }
            },
            ResponseType::DoneDir => {
                match self.queue.pop() {
                    Some(path) => {
                        assert(paths_of(self.queue@) =~= paths_of(old(self).queue@).drop_last());
                        assert(paths_of(old(self).queue@).last() == path@);
                        Action::Dispatch(path)
                    },
                    None => {
                        assert(paths_of(self.queue@) =~= paths_of(old(self).queue@));
                        self.running -= 1;
                        if self.running == 0 {
                            Action::Finished
                        } else {
                            Action::Wait
                        }
                    },
                }
            },
            ResponseType::File => {
                handle_file(msg.len, &mut self.res);
                Action::Wait
            },
        }
    }
}

} // verus!
