use findshlibs::{Segment, SharedLibrary, TargetSharedLibrary};
use vstd::prelude::*;

verus! {

/// A shared object loaded in the process, as the platform lists it: its path,
/// if it is valid text, and each loadable segment as (actual virtual memory
/// address, length).
pub struct LoadedLibrary {
    pub name: Option<String>,
    pub segments: Vec<(usize, usize)>,
}

/// `p` occurs in `s` as a run of consecutive characters.
pub open spec fn is_substring(p: Seq<char>, s: Seq<char>) -> bool {
    exists|i: int|
        0 <= i && i + p.len() <= s.len() && #[trigger] s.subrange(i, i + p.len()) == p
}

/// The address is strictly inside the segment: both bounds are excluded.
pub open spec fn in_segment(seg: (usize, usize), addr: usize) -> bool {
    seg.0 < addr && addr < seg.1
}

pub open spec fn in_any_segment(segs: Seq<(usize, usize)>, addr: usize) -> bool {
    exists|i: int| 0 <= i < segs.len() && #[trigger] in_segment(segs[i], addr)
}

/// The end of a segment that starts at `start` and spans `len` bytes; an end
/// past the address space is held at `usize::MAX`.
pub open spec fn segment_end(start: usize, len: usize) -> usize {
    if start + len <= usize::MAX {
        (start + len) as usize
    } else {
        usize::MAX
    }
}

/// Some entry of the blocklist occurs in the library's path.
pub open spec fn is_blocked(lib: LoadedLibrary, blocklist: Seq<String>) -> bool {
    lib.name is Some && exists|j: int|
        0 <= j < blocklist.len() && #[trigger] is_substring(blocklist[j]@, lib.name->0@)
}

/// The ranges `[start, end)` of a library's segments.
pub open spec fn segment_ranges(segs: Seq<(usize, usize)>) -> Seq<(usize, usize)> {
    segs.map_values(|s: (usize, usize)| (s.0, segment_end(s.0, s.1)))
}

/// The ranges of every segment of every blocked library, in the order in
/// which the libraries and their segments are listed.
pub open spec fn blocked_segments(libs: Seq<LoadedLibrary>, blocklist: Seq<String>) -> Seq<(usize, usize)>
    decreases libs.len(),
{
    if libs.len() == 0 {
        seq![]
    } else {
        let last = libs.last();
        blocked_segments(libs.drop_last(), blocklist) + if is_blocked(last, blocklist) {
            segment_ranges(last.segments@)
        } else {
            seq![]
        }
    }
}

/// Relies on findshlibs' `TargetSharedLibrary::each`, `SharedLibrary::name`,
/// `SharedLibrary::segments`, `Segment::actual_virtual_memory_address` and
/// `Segment::len` to list the shared objects loaded in the process now. The
/// list depends on the process, so nothing is stated of it.
#[verifier::external_body]
pub(crate) fn loaded_libraries() -> (r: Vec<LoadedLibrary>) {
    let mut libs = Vec::new();
    TargetSharedLibrary::each(|shlib| {
        libs.push(LoadedLibrary {
            name: shlib.name().to_str().map(|s| s.to_string()),
            segments: shlib.segments().map(|seg| (seg.actual_virtual_memory_address(shlib).0, seg.len())).collect(),
        });
    });
    libs
}

/// Relies on `str::contains`: true exactly when `needle` occurs in `hay`.
#[verifier::external_body]
fn str_contains(hay: &str, needle: &str) -> (r: bool)
    ensures
        r == is_substring(needle@, hay@),
{
    hay.contains(needle)
}

/// Whether some entry of `blocklist` occurs in `name`.
pub fn name_is_blocked(name: &str, blocklist: &Vec<String>) -> (r: bool)
    ensures
        r == exists|j: int| 0 <= j < blocklist@.len() && #[trigger] is_substring(blocklist@[j]@, name@),
{
    let mut j: usize = 0;
    while j < blocklist.len()
        invariant
            j <= blocklist@.len(),
            forall|k: int| 0 <= k < j ==> !#[trigger] is_substring(blocklist@[k]@, name@),
        decreases blocklist@.len() - j,
    {
        if str_contains(name, blocklist[j].as_str()) {
            return true;
        }
        j += 1;
    }
    false
}

/// The address ranges of the blocked libraries: for each library whose path
/// holds an entry of `blocklist`, the range `[start, start + len)` of each of
/// its segments.
pub fn collect_blocked_segments(libs: &Vec<LoadedLibrary>, blocklist: &Vec<String>) -> (r: Vec<
    (usize, usize),
>)
    ensures
        r@ == blocked_segments(libs@, blocklist@),
{
    let mut out: Vec<(usize, usize)> = Vec::new();
    let mut i: usize = 0;
    while i < libs.len()
        invariant
            i <= libs@.len(),
            out@ == blocked_segments(libs@.subrange(0, i as int), blocklist@),
        decreases libs@.len() - i,
    {
        let lib = &libs[i];
        let blocked = match &lib.name {
            Some(name) => name_is_blocked(name.as_str(), blocklist),
            None => false,
        };
        let ghost before = out@;
        if blocked {
            let mut k: usize = 0;
            while k < lib.segments.len()
                invariant
                    k <= lib.segments@.len(),
                    out@ == before + segment_ranges(lib.segments@.subrange(0, k as int)),
                decreases lib.segments@.len() - k,
            {
                let (start, len) = lib.segments[k];
                let end = start.saturating_add(len);
                out.push((start, end));
                proof {
                    assert(lib.segments@.subrange(0, k + 1) == lib.segments@.subrange(0, k as int).push(lib.segments@[k as int]));
                    assert(segment_ranges(lib.segments@.subrange(0, k + 1)) =~= segment_ranges(lib.segments@.subrange(0, k as int)).push((start, end)));
                }
                k += 1;
            }
            assert(lib.segments@.subrange(0, k as int) =~= lib.segments@);
        }
        proof {
            let p = libs@.subrange(0, i + 1);
            assert(p.drop_last() =~= libs@.subrange(0, i as int));
            assert(p.last() == libs@[i as int]);
        }
        i += 1;
    }
    assert(libs@.subrange(0, libs@.len() as int) =~= libs@);
    out
}

} // verus!
