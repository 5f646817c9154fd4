use sigprof::blocklist::{collect_blocked_segments, name_is_blocked, LoadedLibrary};
use sigprof::builder::ProfilerGuardBuilder;
use sigprof::collector::{Collector, StackKey, SINK_CAPACITY};
use sigprof::error::Error;
use sigprof::profiler::Profiler;
use sigprof::thread_name::{name_len, write_thread_name_fallback};
use sigprof::timer::TimerPeriod;
use sigprof::{MAX_DEPTH, MAX_THREAD_NAME};

fn tag(tid: u64) -> Vec<u8> {
    let mut name = [0xffu8; MAX_THREAD_NAME];
    write_thread_name_fallback(tid, &mut name);
    let n = name_len(&name);
    name[..n].to_vec()
}

#[test]
fn second_start_fails_with_running() {
    let mut p = Profiler::new().unwrap();
    assert_eq!(p.start(), Ok(()));
    assert_eq!(p.start(), Err(Error::Running));
    assert!(p.is_running());
}

#[test]
fn stop_without_start_fails_and_changes_nothing() {
    let mut p = Profiler::new().unwrap();
    p.set_blocklist_segments(vec![(10, 20)]);
    assert_eq!(p.stop(), Err(Error::NotRunning));
    assert!(!p.is_running());
    assert_eq!(p.sample_counter(), 0);
    assert_eq!(p.data().len(), 0);
    assert_eq!(p.blocklist_segments(), &vec![(10, 20)]);
}

#[test]
fn start_stop_start_succeeds() {
    let mut p = Profiler::new().unwrap();
    assert_eq!(p.start(), Ok(()));
    assert!(p.sample(&[1, 2, 3], b"main", 7));
    assert_eq!(p.stop(), Ok(()));
    assert_eq!(p.sample_counter(), 0);
    assert_eq!(p.data().len(), 0);
    assert_eq!(p.start(), Ok(()));
}

#[test]
fn abort_start_rolls_back() {
    let mut p = Profiler::new().unwrap();
    assert_eq!(p.start(), Ok(()));
    assert_eq!(p.abort_start(Error::OsError(22)), Error::OsError(22));
    assert!(!p.is_running());
    assert_eq!(p.start(), Ok(()));
}

#[test]
fn samples_are_tallied_by_stack_and_thread() {
    let mut p = Profiler::new().unwrap();
    p.start().unwrap();
    assert!(p.sample(&[1, 2, 3], b"worker", 7));
    assert!(p.sample(&[1, 2, 3], b"worker", 7));
    assert!(p.sample(&[1, 2, 3], b"worker", 8));
    assert!(p.sample(&[1, 2], b"worker", 7));
    assert_eq!(p.sample_counter(), 4);
    let entries = p.data().entries();
    assert_eq!(entries.len(), 3);
    assert_eq!(entries[0].key.frames(), &[1usize, 2, 3][..]);
    assert_eq!(entries[0].key.thread_name(), &b"worker"[..]);
    assert_eq!(entries[0].key.thread_id(), 7);
    assert_eq!(entries[0].count, 2);
    assert_eq!(entries[1].count, 1);
    assert_eq!(entries[1].key.thread_id(), 8);
    assert_eq!(entries[2].key.frames(), &[1usize, 2][..]);
}

#[test]
fn full_sink_drops_new_keys() {
    let mut c = Collector::with_capacity(2);
    assert!(c.add(StackKey::new(&[1], b"a", 1), 1));
    assert!(c.add(StackKey::new(&[2], b"a", 1), 1));
    assert!(!c.add(StackKey::new(&[3], b"a", 1), 1));
    assert!(c.add(StackKey::new(&[1], b"a", 1), 5));
    assert_eq!(c.len(), 2);
    assert_eq!(c.entries()[0].count, 6);
}

#[test]
fn counts_saturate() {
    let mut c = Collector::with_capacity(1);
    assert!(c.add(StackKey::new(&[1], b"", 0), u64::MAX - 1));
    assert!(c.add(StackKey::new(&[1], b"", 0), 5));
    assert_eq!(c.entries()[0].count, u64::MAX);
}

#[test]
fn default_sink_capacity() {
    assert_eq!(Collector::new().capacity(), SINK_CAPACITY);
}

#[test]
fn deepest_stack_is_kept() {
    let frames: Vec<usize> = (0..MAX_DEPTH).collect();
    let key = StackKey::new(&frames, b"0123456789abcdef", u64::MAX);
    assert_eq!(key.frames(), &frames[..]);
    assert_eq!(key.thread_name().len(), MAX_THREAD_NAME);
    assert!(key.same_as(&StackKey::new(&frames, b"0123456789abcdef", u64::MAX)));
    assert!(!key.same_as(&StackKey::new(&frames[..10], b"0123456789abcdef", u64::MAX)));
}

#[test]
fn blocklist_bounds_are_strict() {
    let mut p = Profiler::new().unwrap();
    p.set_blocklist_segments(vec![(100, 200), (300, 400)]);
    assert!(!p.is_blocklisted(100));
    assert!(p.is_blocklisted(101));
    assert!(p.is_blocklisted(199));
    assert!(!p.is_blocklisted(200));
    assert!(p.is_blocklisted(350));
    assert!(!p.is_blocklisted(250));
    assert!(!p.is_blocklisted(0));
}

#[test]
fn blocked_pc_is_not_sampled() {
    let mut p = Profiler::new().unwrap();
    p.set_blocklist_segments(vec![(100, 200)]);
    assert!(!p.admits(150));
    p.start().unwrap();
    assert!(!p.admits(150));
    assert!(p.admits(250));
    assert!(p.keep_frame(250, 0));
    assert!(!p.keep_frame(150, 0));
    assert!(!p.keep_frame(250, MAX_DEPTH));
}

#[test]
fn record_signal_skips_blocked_and_idle() {
    let mut p = Profiler::new().unwrap();
    p.set_blocklist_segments(vec![(100, 200)]);
    assert!(!p.record_signal(300, &[300, 400], b"t", 1));
    assert_eq!(p.sample_counter(), 0);
    p.start().unwrap();
    assert!(!p.record_signal(150, &[150, 400], b"t", 1));
    assert_eq!(p.sample_counter(), 0);
    assert_eq!(p.data().len(), 0);
    assert!(p.record_signal(300, &[300, 400], b"t", 1));
    assert_eq!(p.sample_counter(), 1);
    assert_eq!(p.data().entries()[0].key.frames(), &[300usize, 400][..]);
}

#[test]
fn many_inline_samples_stay_bounded() {
    let mut p = Profiler::new().unwrap();
    p.start().unwrap();
    for i in 0..10_000usize {
        p.record_signal(i, &[i % 7, 1], b"main", 1);
    }
    assert_eq!(p.sample_counter(), 10_000);
    assert_eq!(p.data().len(), 7);
    let total: u64 = p.data().entries().iter().map(|e| e.count).sum();
    assert_eq!(total, 10_000);
}

fn lib(name: Option<&str>, segments: Vec<(usize, usize)>) -> LoadedLibrary {
    LoadedLibrary { name: name.map(|s| s.to_string()), segments }
}

#[test]
fn blocked_libraries_give_their_segments() {
    let libs = vec![
        lib(Some("/usr/lib/libc.so.6"), vec![(1000, 100), (2000, 50)]),
        lib(Some("/usr/lib/libm.so.6"), vec![(3000, 10)]),
        lib(None, vec![(4000, 10)]),
        lib(Some("/opt/libfoo.so"), vec![(usize::MAX - 5, 10)]),
    ];
    let blocklist = vec!["libc".to_string(), "foo".to_string()];
    assert_eq!(
        collect_blocked_segments(&libs, &blocklist),
        vec![(1000, 1100), (2000, 2050), (usize::MAX - 5, usize::MAX)]
    );
    assert!(collect_blocked_segments(&libs, &vec![]).is_empty());
    assert!(name_is_blocked("/usr/lib/libc.so.6", &vec!["c.so".to_string()]));
    assert!(!name_is_blocked("/usr/lib/libc.so.6", &vec!["libm".to_string()]));
}

#[test]
fn builder_defaults_and_settings() {
    let b = ProfilerGuardBuilder::default();
    assert_eq!(b.get_frequency(), 99);
    assert!(b.segments().is_empty());
    let libs = vec![lib(Some("libc.so"), vec![(10, 10)])];
    let b = b.frequency(500).blocklist_with(&libs, &vec!["libc".to_string()]);
    assert_eq!(b.get_frequency(), 500);
    assert_eq!(b.segments(), &vec![(10, 20)]);
    let mut p = Profiler::new().unwrap();
    assert_eq!(b.clone().start_on(&mut p), Ok(()));
    assert_eq!(p.blocklist_segments(), &vec![(10, 20)]);
    assert_eq!(b.start_on(&mut p), Err(Error::Running));
}

#[test]
fn blocklist_of_loaded_libraries_keeps_frequency() {
    let b = ProfilerGuardBuilder::default().frequency(250);
    let none = b.clone().blocklist(&vec![]);
    assert!(none.segments().is_empty());
    let b = b.blocklist(&vec!["libc".to_string()]);
    assert_eq!(b.get_frequency(), 250);
    for (start, end) in b.segments() {
        assert!(start <= end);
    }
}

#[test]
fn thread_tag_digits() {
    assert_eq!(tag(0), b"0".to_vec());
    assert_eq!(tag(1), b"1".to_vec());
    assert_eq!(tag(5), b"5".to_vec());
    assert_eq!(tag(10), b"10".to_vec());
    assert_eq!(tag(100), b"100".to_vec());
    assert_eq!(tag(139872345), b"139872345".to_vec());
    assert_eq!(tag(999_999_999_999_999), b"999999999999999".to_vec());
    assert_eq!(tag(1_000_000_000_000_000), b"000000000000000".to_vec());
    assert_eq!(tag(u64::MAX), b"744073709551615".to_vec());
}

#[test]
fn thread_tag_is_nul_padded() {
    let mut name = [0xffu8; MAX_THREAD_NAME];
    write_thread_name_fallback(42, &mut name);
    assert_eq!(&name[..3], b"42\0");
    assert!(name[2..].iter().all(|b| *b == 0));
}

#[test]
fn name_len_stops_at_nul() {
    let mut name = [b'a'; MAX_THREAD_NAME];
    assert_eq!(name_len(&name), MAX_THREAD_NAME);
    name[4] = 0;
    assert_eq!(name_len(&name), 4);
}

#[test]
fn timer_periods() {
    assert_eq!(TimerPeriod::from_frequency(100), TimerPeriod { sec: 0, usec: 10_000 });
    assert_eq!(TimerPeriod::from_frequency(99), TimerPeriod { sec: 0, usec: 10_101 });
    assert_eq!(TimerPeriod::from_frequency(1), TimerPeriod { sec: 1, usec: 0 });
    assert_eq!(TimerPeriod::from_frequency(1000), TimerPeriod { sec: 0, usec: 1000 });
    assert_eq!(TimerPeriod::from_frequency(2_000_000), TimerPeriod { sec: 0, usec: 1 });
    assert_eq!(TimerPeriod::zero(), TimerPeriod { sec: 0, usec: 0 });
}
