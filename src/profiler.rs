use vstd::prelude::*;

use crate::blocklist::in_any_segment;
use crate::collector::{Collector, KeyView, StackKey, SINK_CAPACITY};
use crate::error::Error;
use crate::{MAX_DEPTH, MAX_THREAD_NAME};

verus! {

/// The process-wide profiler state: whether it runs, how many samples came
/// in, the sink that tallies them and the blocked address ranges.
pub struct Profiler {
    data: Collector,
    sample_counter: u64,
    running: bool,
    blocklist_segments: Vec<(usize, usize)>,
}

/// What `start` does: on a running profiler it fails with `Running` and
/// changes nothing; on an idle one it succeeds and marks it running, all else
/// kept.
pub open spec fn start_post(before: Profiler, after: Profiler, r: Result<(), Error>) -> bool {
    if before.spec_running() {
        r == Err::<(), Error>(Error::Running) && after == before
    } else {
        &&& r is Ok
        &&& after.spec_running()
        &&& after.wf() == before.wf()
        &&& after.spec_sample_counter() == before.spec_sample_counter()
        &&& after.tallies() == before.tallies()
        &&& after.spec_sink_size() == before.spec_sink_size()
        &&& after.spec_segments() == before.spec_segments()
    }
}

/// What `stop` does: on an idle profiler it fails with `NotRunning` and
/// changes nothing; on a running one it succeeds and clears it, its blocked
/// ranges kept.
pub open spec fn stop_post(before: Profiler, after: Profiler, r: Result<(), Error>) -> bool {
    if before.spec_running() {
        r is Ok && after.is_reset() && after.spec_segments() == before.spec_segments()
    } else {
        r == Err::<(), Error>(Error::NotRunning) && after == before
    }
}

/// A start, then a stop, leave the profiler where a further start succeeds,
/// whatever state it was in before.
pub proof fn lemma_start_stop_restart(
    before: Profiler,
    started: Profiler,
    stopped: Profiler,
    restarted: Profiler,
    start_result: Result<(), Error>,
    stop_result: Result<(), Error>,
    restart_result: Result<(), Error>,
)
    requires
        start_post(before, started, start_result),
        stop_post(started, stopped, stop_result),
        start_post(stopped, restarted, restart_result),
    ensures
        restart_result is Ok,
        restarted.spec_running(),
{
}

/// Of two starts in a row on an idle profiler, the first succeeds and the
/// second fails with `Running`, leaving the state of the first in place.
pub proof fn lemma_start_exclusive(
    idle: Profiler,
    first: Profiler,
    second: Profiler,
    first_result: Result<(), Error>,
    second_result: Result<(), Error>,
)
    requires
        !idle.spec_running(),
        start_post(idle, first, first_result),
        start_post(first, second, second_result),
    ensures
        first_result is Ok,
        second_result == Err::<(), Error>(Error::Running),
        second == first,
{
}

/// A start and a stop keep a well-formed profiler well formed.
pub proof fn lemma_lifecycle_keeps_wf(before: Profiler, after: Profiler, r: Result<(), Error>)
    requires
        before.wf(),
        start_post(before, after, r) || stop_post(before, after, r),
    ensures
        after.wf(),
{
}

impl Profiler {
    pub closed spec fn wf(&self) -> bool {
        &&& self.data.wf()
        &&& self.data.spec_capacity() == SINK_CAPACITY
    }

    pub closed spec fn spec_running(&self) -> bool {
        self.running
    }

    pub closed spec fn spec_sample_counter(&self) -> u64 {
        self.sample_counter
    }

    pub closed spec fn spec_segments(&self) -> Seq<(usize, usize)> {
        self.blocklist_segments@
    }

    /// What the sink has tallied.
    pub closed spec fn tallies(&self) -> Map<KeyView, u64> {
        self.data@
    }

    /// How many distinct keys the sink holds.
    pub closed spec fn spec_sink_size(&self) -> nat {
        self.data.size()
    }

    /// The state of a profiler that has never run or was just stopped: idle,
    /// no samples, an empty sink.
    pub open spec fn is_reset(&self) -> bool {
        &&& self.wf()
        &&& !self.spec_running()
        &&& self.spec_sample_counter() == 0
        &&& self.tallies() == Map::<KeyView, u64>::empty()
        &&& self.spec_sink_size() == 0
    }

    /// An idle profiler with an empty sink and no blocked ranges. The sink's
    /// room is reserved here, which cannot fail; the `Result` is what the
    /// process-wide state holds.
    pub fn new() -> (r: Result<Profiler, Error>)
        ensures
            r is Ok,
            r->Ok_0.is_reset(),
            r->Ok_0.spec_segments() == Seq::<(usize, usize)>::empty(),
    {
        Ok(Profiler { data: Collector::new(), sample_counter: 0, running: false, blocklist_segments: Vec::new() })
    }

    pub fn is_running(&self) -> (r: bool)
        ensures
            r == self.spec_running(),
    {
        self.running
    }

    pub fn sample_counter(&self) -> (r: u64)
        ensures
            r == self.spec_sample_counter(),
    {
        self.sample_counter
    }

    /// The sink, to be read once sampling has stopped.
    pub fn data(&self) -> (r: &Collector)
        ensures
            self.wf() ==> r.wf(),
            r@ == self.tallies(),
            r.size() == self.spec_sink_size(),
    {
        &self.data
    }

    pub fn blocklist_segments(&self) -> (r: &Vec<(usize, usize)>)
        ensures
            r@ == self.spec_segments(),
    {
        &self.blocklist_segments
    }

    /// Replaces the blocked address ranges.
    pub fn set_blocklist_segments(&mut self, segments: Vec<(usize, usize)>)
        ensures
            final(self).spec_segments() == segments@,
            final(self).spec_running() == old(self).spec_running(),
            final(self).spec_sample_counter() == old(self).spec_sample_counter(),
            final(self).tallies() == old(self).tallies(),
            final(self).spec_sink_size() == old(self).spec_sink_size(),
            final(self).wf() == old(self).wf(),
    {
        self.blocklist_segments = segments;
    }

    /// Whether `addr` lies strictly inside one of the blocked ranges.
    pub fn is_blocklisted(&self, addr: usize) -> (r: bool)
        ensures
            r == in_any_segment(self.spec_segments(), addr),
    {
        let mut i: usize = 0;
        while i < self.blocklist_segments.len()
            invariant
                i <= self.blocklist_segments@.len(),
                forall|k: int|
                    0 <= k < i ==> !(self.blocklist_segments@[k].0 < addr && addr
                        < self.blocklist_segments@[k].1),
            decreases self.blocklist_segments@.len() - i,
        {
            let (start, end) = self.blocklist_segments[i];
            if addr > start && addr < end {
                assert(crate::blocklist::in_segment(self.blocklist_segments@[i as int], addr));
                return true;
            }
            i += 1;
        }
        proof {
            assert forall|k: int| 0 <= k < self.blocklist_segments@.len() implies !#[trigger] crate::blocklist::in_segment(
                self.blocklist_segments@[k],
                addr,
            ) by {}
        }
        false
    }

    /// Marks the profiler as running. Fails with `Running`, and changes
    /// nothing, when it already runs. The caller installs the signal handler
    /// after an `Ok`, and calls `abort_start` if that fails.
    pub fn start(&mut self) -> (r: Result<(), Error>)
        ensures
            start_post(*old(self), *final(self), r),
    {
        if self.running {
            Err(Error::Running)
        } else {
            self.running = true;
            Ok(())
        }
    }

    /// Rolls back a start whose signal handler could not be installed: the
    /// profiler is idle again and `err` is handed back.
    pub fn abort_start(&mut self, err: Error) -> (r: Error)
        ensures
            r == err,
            !final(self).spec_running(),
            final(self).spec_sample_counter() == old(self).spec_sample_counter(),
            final(self).tallies() == old(self).tallies(),
            final(self).spec_sink_size() == old(self).spec_sink_size(),
            final(self).spec_segments() == old(self).spec_segments(),
            final(self).wf() == old(self).wf(),
    {
        self.running = false;
        err
    }

    /// Clears the counter and the sink and marks the profiler idle.
    pub fn init(&mut self) -> (r: Result<(), Error>)
        ensures
            r is Ok,
            final(self).is_reset(),
            final(self).spec_segments() == old(self).spec_segments(),
    {
        self.sample_counter = 0;
        self.data = Collector::new();
        self.running = false;
        Ok(())
    }

    /// Stops a running profiler: it becomes idle, its counter and sink are
    /// cleared. Fails with `NotRunning`, and changes nothing, when it is idle.
    /// The caller has disarmed the timer before and sets the signal's
    /// disposition to ignore after an `Ok`.
    pub fn stop(&mut self) -> (r: Result<(), Error>)
        ensures
            stop_post(*old(self), *final(self), r),
    {
        if self.running {
            self.init()
        } else {
            Err(Error::NotRunning)
        }
    }

    /// Whether a signal that interrupted the program at `pc` is to be
    /// sampled: only while running, and only where `pc` is not blocked.
    pub fn admits(&self, pc: usize) -> (r: bool)
        ensures
            r == (self.spec_running() && !in_any_segment(self.spec_segments(), pc)),
    {
        self.running && !self.is_blocklisted(pc)
    }

    /// Whether the walk of a stack that already holds `depth` frames keeps the
    /// frame at `ip` and goes on: not where `ip` is blocked, nor past
    /// `MAX_DEPTH` frames.
    pub fn keep_frame(&self, ip: usize, depth: usize) -> (r: bool)
        ensures
            r == (depth < MAX_DEPTH && !in_any_segment(self.spec_segments(), ip)),
    {
        depth < MAX_DEPTH && !self.is_blocklisted(ip)
    }

    /// Records one sample: the counter goes up by one (it stops at
    /// `u64::MAX`) and the sink tallies the stack under the thread's name and
    /// id, or drops it when it is full.
    pub fn sample(&mut self, backtrace: &[usize], thread_name: &[u8], thread_id: u64) -> (r: bool)
        requires
            old(self).wf(),
            backtrace@.len() <= MAX_DEPTH,
            thread_name@.len() <= MAX_THREAD_NAME,
        ensures
            final(self).wf(),
            final(self).spec_running() == old(self).spec_running(),
            final(self).spec_segments() == old(self).spec_segments(),
            final(self).spec_sample_counter() == crate::collector::sat_add(
                old(self).spec_sample_counter(),
                1,
            ),
            ({
                let k = (backtrace@, thread_name@, thread_id);
                if old(self).tallies().contains_key(k) {
                    r && final(self).tallies() == old(self).tallies().insert(
                        k,
                        crate::collector::sat_add(old(self).tallies()[k], 1),
                    )
                } else if old(self).spec_sink_size() < SINK_CAPACITY {
                    r && final(self).tallies() == old(self).tallies().insert(k, 1)
                } else {
                    !r && final(self).tallies() == old(self).tallies()
                }
            }),
    {
        let key = StackKey::new(backtrace, thread_name, thread_id);
        self.sample_counter = self.sample_counter.saturating_add(1);
        self.data.add(key, 1)
    }

    /// The signal handler's step once the stack is walked: a profiler that is
    /// idle, or whose blocked ranges hold the interrupted `pc`, records
    /// nothing and is left as it was; otherwise the sample is recorded as
    /// `sample` does, and the result says whether the sink tallied it.
    pub fn record_signal(&mut self, pc: usize, backtrace: &[usize], thread_name: &[u8], thread_id: u64) -> (r: bool)
        requires
            old(self).wf(),
            backtrace@.len() <= MAX_DEPTH,
            thread_name@.len() <= MAX_THREAD_NAME,
        ensures
            final(self).wf(),
            !old(self).spec_running() || in_any_segment(old(self).spec_segments(), pc) ==> !r && *final(self) == *old(self),
            old(self).spec_running() && !in_any_segment(old(self).spec_segments(), pc) ==> ({
                &&& final(self).spec_running()
                &&& final(self).spec_segments() == old(self).spec_segments()
                &&& final(self).spec_sample_counter() == crate::collector::sat_add(old(self).spec_sample_counter(), 1)
                &&& r == (old(self).tallies().contains_key((backtrace@, thread_name@, thread_id))
                    || old(self).spec_sink_size() < SINK_CAPACITY)
                &&& final(self).tallies() == if old(self).tallies().contains_key((backtrace@, thread_name@, thread_id)) {
                    old(self).tallies().insert((backtrace@, thread_name@, thread_id),
                        crate::collector::sat_add(old(self).tallies()[(backtrace@, thread_name@, thread_id)], 1))
                } else if old(self).spec_sink_size() < SINK_CAPACITY {
                    old(self).tallies().insert((backtrace@, thread_name@, thread_id), 1)
                } else {
                    old(self).tallies()
                }
            }),
    {
        if !self.admits(pc) {
            return false;
        }
        self.sample(backtrace, thread_name, thread_id)
    }
}

} // verus!
