use vstd::prelude::*;

use crate::blocklist::{blocked_segments, collect_blocked_segments, loaded_libraries, LoadedLibrary};
use crate::error::Error;
use crate::profiler::Profiler;

verus! {

/// Signals a second that a profiler built with default settings asks for.
pub const DEFAULT_FREQUENCY: i32 = 99;

/// The settings of a profiling session: its frequency and the address
/// ranges whose samples are dropped.
#[derive(Clone)]
pub struct ProfilerGuardBuilder {
    frequency: i32,
    blocklist_segments: Vec<(usize, usize)>,
}

impl Default for ProfilerGuardBuilder {
    fn default() -> (r: ProfilerGuardBuilder)
        ensures
            r.spec_frequency() == DEFAULT_FREQUENCY,
            r.spec_segments() == Seq::<(usize, usize)>::empty(),
    {
        ProfilerGuardBuilder { frequency: DEFAULT_FREQUENCY, blocklist_segments: Vec::new() }
    }
}

impl ProfilerGuardBuilder {
    pub closed spec fn spec_frequency(&self) -> i32 {
        self.frequency
    }

    pub closed spec fn spec_segments(&self) -> Seq<(usize, usize)> {
        self.blocklist_segments@
    }

    /// The same settings with another frequency.
    pub fn frequency(self, frequency: i32) -> (r: Self)
        ensures
            r.spec_frequency() == frequency,
            r.spec_segments() == self.spec_segments(),
    {
        ProfilerGuardBuilder { frequency, ..self }
    }

    /// The same settings with the blocked ranges of the libraries loaded in
    /// the process now whose path holds an entry of `blocklist`.
    pub fn blocklist(self, blocklist: &Vec<String>) -> (r: Self)
        ensures
            r.spec_frequency() == self.spec_frequency(),
            exists|libs: Seq<LoadedLibrary>| r.spec_segments() == blocked_segments(libs, blocklist@),
    {
        let libs = loaded_libraries();
        self.blocklist_with(&libs, blocklist)
    }

    /// The same settings with the blocked ranges of the listed libraries
    /// whose path holds an entry of `blocklist`.
    pub fn blocklist_with(self, libs: &Vec<LoadedLibrary>, blocklist: &Vec<String>) -> (r: Self)
        ensures
            r.spec_frequency() == self.spec_frequency(),
            r.spec_segments() == blocked_segments(libs@, blocklist@),
    {
        let blocklist_segments = collect_blocked_segments(libs, blocklist);
        ProfilerGuardBuilder { blocklist_segments, ..self }
    }

    pub fn get_frequency(&self) -> (r: i32)
        ensures
            r == self.spec_frequency(),
    {
        self.frequency
    }

    pub fn segments(&self) -> (r: &Vec<(usize, usize)>)
        ensures
            r@ == self.spec_segments(),
    {
        &self.blocklist_segments
    }

    /// Starts `profiler` with these blocked ranges: as `start`, and on
    /// success the profiler's ranges are the builder's. A running profiler
    /// is left as it is.
    pub fn start_on(self, profiler: &mut Profiler) -> (r: Result<(), Error>)
        ensures
            old(profiler).spec_running() ==> r == Err::<(), Error>(Error::Running) && *final(profiler)
                == *old(profiler),
            !old(profiler).spec_running() ==> r is Ok && final(profiler).spec_running()
                && final(profiler).spec_segments() == self.spec_segments()
                && final(profiler).wf() == old(profiler).wf()
                && final(profiler).spec_sample_counter() == old(profiler).spec_sample_counter()
                && final(profiler).tallies() == old(profiler).tallies()
                && final(profiler).spec_sink_size() == old(profiler).spec_sink_size(),
    {
        if profiler.is_running() {
            return Err(Error::Running);
        }
        profiler.set_blocklist_segments(self.blocklist_segments);
        let r = profiler.start();
        r
    }
}

} // verus!
