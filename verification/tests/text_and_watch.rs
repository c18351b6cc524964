use media_capture::text::{contains_text, decimal_text, decode_wide, path_file_name};
use media_capture::watch::{
    running_process_ids, HandleAllocator, ProcessListWatch, ProcessStateWatch, WatcherRegistry,
};
use media_capture::audio::{
    AudioError, DeviceProbe, EndpointsProbe, SessionDetails, SessionIdentity, SessionProbe,
    SessionsProbe, WideText,
};

fn wide(s: &str) -> Vec<u16> {
    s.encode_utf16().collect()
}

#[test]
fn decimal_renders_numbers() {
    assert_eq!(decimal_text(0), "0");
    assert_eq!(decimal_text(7), "7");
    assert_eq!(decimal_text(42), "42");
    assert_eq!(decimal_text(4294967295), "4294967295");
    assert_eq!(decimal_text(u64::MAX), u64::MAX.to_string());
}

#[test]
fn contains_finds_system_sounds_marker() {
    assert!(contains_text("svchost AudioSrv", "AudioSrv"));
    assert!(contains_text("AudioSrv", "AudioSrv"));
    assert!(!contains_text("AudioSr", "AudioSrv"));
    assert!(!contains_text("audiosrv.dll", "AudioSrv"));
    assert!(contains_text("anything", ""));
}

#[test]
fn path_file_name_takes_last_component() {
    assert_eq!(path_file_name("C:\\Windows\\System32\\svchost.exe"), "svchost.exe");
    assert_eq!(path_file_name("chrome.exe"), "chrome.exe");
    assert_eq!(path_file_name("C:\\dir\\"), "");
    assert_eq!(path_file_name(""), "");
    assert_eq!(path_file_name("\\Device\\HarddiskVolume3\\app.exe"), "app.exe");
}

#[test]
fn decode_wide_reads_prefix_and_replaces_lone_surrogates() {
    let mut buf = wide("C:\\app.exe");
    buf.extend_from_slice(&[0, 0, 0]);
    assert_eq!(decode_wide(&buf, 10), "C:\\app.exe");
    assert_eq!(decode_wide(&buf, 2), "C:");
    let pair = vec![0xD83D, 0xDE00, 0x41];
    assert_eq!(decode_wide(&pair, 3), "\u{1F600}A");
    let lone = vec![0xD83D, 0x41, 0xDC00];
    assert_eq!(decode_wide(&lone, 3), "\u{FFFD}A\u{FFFD}");
}

#[test]
fn running_process_ids_sorts_and_dedups() {
    assert_eq!(running_process_ids(&vec![5, 3, 5, 1, 3, 9]), vec![1, 3, 5, 9]);
    assert_eq!(running_process_ids(&vec![]), Vec::<u32>::new());
    assert_eq!(running_process_ids(&vec![2, 2, 2]), vec![2]);
    let once = running_process_ids(&vec![8, 4, 6, 4]);
    assert_eq!(running_process_ids(&once), once);
}

#[test]
fn handles_are_consecutive_from_one_and_wrap() {
    let mut h = HandleAllocator::new();
    assert_eq!(h.allocate(), 1);
    assert_eq!(h.allocate(), 2);
    assert_eq!(h.allocate(), 3);
}

#[test]
fn registry_removes_first_watcher_with_handle() {
    let mut r: WatcherRegistry<&str> = WatcherRegistry::new();
    r.register(1, "a");
    r.register(2, "b");
    r.register(3, "c");
    assert_eq!(r.remove_by_handle(2), Some("b"));
    assert_eq!(r.len(), 2);
    assert_eq!(r.remove_by_handle(2), None);
    assert_eq!(r.len(), 2);
    assert_eq!(r.remove_by_handle(1), Some("a"));
    assert_eq!(r.remove_by_handle(3), Some("c"));
    assert_eq!(r.len(), 0);
}

#[test]
fn list_watch_notifies_on_changed_process_set_only() {
    let mut w = ProcessListWatch::new(&vec![3, 1, 2]);
    assert_eq!(w.processes(), vec![1, 2, 3]);
    assert!(!w.poll(&vec![2, 3, 1, 1]));
    assert!(w.poll(&vec![1, 2, 3, 4]));
    assert_eq!(w.processes(), vec![1, 2, 3, 4]);
    assert!(!w.poll(&vec![4, 3, 2, 1]));
    assert!(w.poll(&vec![]));
    assert_eq!(w.processes(), Vec::<u32>::new());
}

fn err(msg: &str) -> AudioError {
    AudioError { code: -1, message: msg.to_string() }
}

fn session(pid: u32, name: &str, state: i32) -> SessionProbe {
    SessionProbe::Available(SessionDetails {
        state: Ok(state),
        identity: Ok(SessionIdentity {
            process_id: Ok(pid),
            module_name: Some(name.to_string()),
            display_name: WideText::Text(String::new()),
        }),
    })
}

fn one_device(sessions: Vec<SessionProbe>) -> EndpointsProbe {
    EndpointsProbe::Listed {
        devices: vec![DeviceProbe::Available {
            id: WideText::Text("dev".to_string()),
            sessions: SessionsProbe::Listed(sessions),
        }],
        default_communications: WideText::Failed(err("none")),
        default_console: WideText::Failed(err("none")),
    }
}

#[test]
fn state_watch_notifies_on_each_change() {
    let mut w = ProcessStateWatch::new(77);
    assert_eq!(w.process_id(), 77);
    let recording = one_device(vec![session(77, "zoom.exe", 1)]);
    let idle = one_device(vec![session(77, "zoom.exe", 0)]);
    let broken = EndpointsProbe::EnumeratorFailed(err("boom"));
    assert!(!w.poll(&idle));
    assert!(w.poll(&recording));
    assert!(!w.poll(&recording));
    assert!(w.poll(&broken));
    assert!(!w.poll(&idle));
}

#[test]
fn later_handles_differ_from_earlier_ones() {
    let mut h = HandleAllocator::new();
    let first = h.allocate();
    for _ in 0..1000 {
        assert_ne!(h.allocate(), first);
    }
}
