use media_capture::apps::{
    executable_path, process_file_name, Application, ProcessCandidate, ProcessImage,
    RecordingPermissions, ShareableContent, TappableApplication,
};
use media_capture::audio::{
    AudioError, DeviceProbe, EndpointsProbe, SessionDetails, SessionIdentity, SessionProbe,
    SessionsProbe, WideText,
};
use media_capture::watch::{HandleAllocator, WatcherRegistry};

fn image(path: &str) -> Option<ProcessImage> {
    let mut buffer: Vec<u16> = path.encode_utf16().collect();
    let length = buffer.len() as u32;
    buffer.resize(260, 0);
    Some(ProcessImage { buffer, length })
}

#[test]
fn file_name_and_path_from_image() {
    assert_eq!(process_file_name(&image("C:\\Program Files\\Zoom\\zoom.exe")), Some("zoom.exe".to_string()));
    assert_eq!(process_file_name(&image("")), None);
    assert_eq!(process_file_name(&None), None);
    assert_eq!(
        executable_path(&image("\\Device\\HarddiskVolume3\\Windows\\notepad.exe")),
        Some("\\Device\\HarddiskVolume3\\Windows\\notepad.exe".to_string())
    );
    assert_eq!(executable_path(&None), None);
}

#[test]
fn application_names_fall_back_to_process_id() {
    let named = Application::new(42, &image("C:\\a\\b.exe"));
    assert_eq!(named.name(), "b.exe");
    assert_eq!(named.process_id(), 42);
    assert_eq!(named.process_group_id(), 42);
    let unnamed = Application::new(7, &None);
    assert_eq!(unnamed.name(), "Process 7");
    let negative = Application::new(-3, &None);
    assert_eq!(negative.name(), "Process -3");
    assert!(named.icon().is_empty());
    assert_eq!(named.bundle_identifier(&image("C:\\a\\b.exe")), "C:\\a\\b.exe");
    assert_eq!(named.bundle_identifier(&None), "");
}

#[test]
fn tappable_application_mirrors_its_process() {
    let t = TappableApplication::new(1234, &image("C:\\x\\obs64.exe"));
    assert_eq!(t.object_id(), 1234);
    assert_eq!(t.process_id(), 1234);
    assert_eq!(t.process_group_id(), 1234);
    assert_eq!(t.name(), "obs64.exe");
    assert!(t.icon().is_empty());
    let big = TappableApplication::new(3_000_000_000, &None);
    assert_eq!(big.process_id(), -1_294_967_296);
    assert_eq!(big.name(), "Process -1294967296");
    let app = Application::new(5, &image("C:\\y.exe"));
    let t = TappableApplication::from_application(&app, 99);
    assert_eq!(t.object_id(), 99);
    assert_eq!(t.process_id(), 5);
    assert_eq!(t.name(), "y.exe");
    assert_eq!(t.tap_audio().err().unwrap().message, "Audio tapping not yet implemented for Windows");
}

#[test]
fn tappable_application_running_follows_sessions() {
    let t = TappableApplication::new(8, &image("C:\\rec.exe"));
    let session = SessionProbe::Available(SessionDetails {
        state: Ok(1),
        identity: Ok(SessionIdentity {
            process_id: Ok(8),
            module_name: Some("rec.exe".to_string()),
            display_name: WideText::Text(String::new()),
        }),
    });
    let probe = EndpointsProbe::Listed {
        devices: vec![DeviceProbe::Available { id: WideText::Text("m".to_string()), sessions: SessionsProbe::Listed(vec![session]) }],
        default_communications: WideText::Text("m".to_string()),
        default_console: WideText::Text("m".to_string()),
    };
    assert!(t.is_running(&probe));
    let failed = EndpointsProbe::ComUnavailable(AudioError { code: 1, message: "x".to_string() });
    assert!(!t.is_running(&failed));
}

#[test]
fn applications_keep_named_processes() {
    let content = ShareableContent::new();
    let candidates = vec![
        ProcessCandidate { process_id: 4, module_image: None },
        ProcessCandidate { process_id: 8, module_image: image("C:\\zoom.exe") },
        ProcessCandidate { process_id: 9, module_image: image("C:\\dir\\") },
        ProcessCandidate { process_id: 3_000_000_000, module_image: None },
        ProcessCandidate { process_id: 12, module_image: image("Process 12") },
    ];
    let apps = content.applications(&candidates);
    let got: Vec<(u32, String)> = apps.iter().map(|a| (a.object_id(), a.name())).collect();
    assert_eq!(
        got,
        vec![(8, "zoom.exe".to_string()), (3_000_000_000, "Process -1294967296".to_string())]
    );
}

#[test]
fn applications_by_process_id_need_a_running_process() {
    let content = ShareableContent::new();
    assert!(content.application_with_process_id(5, false, &None).is_none());
    let app = content.application_with_process_id(5, true, &image("C:\\five.exe")).unwrap();
    assert_eq!(app.name(), "five.exe");
    assert!(content.tappable_application_with_process_id(6, false, &None).is_none());
    let t = content.tappable_application_with_process_id(6, true, &None).unwrap();
    assert_eq!(t.name(), "Process 6");
    assert_eq!(
        ShareableContent::tap_global_audio().err().unwrap().message,
        "Global audio tapping not yet implemented for Windows"
    );
}

#[test]
fn subscriptions_register_and_unregister_watchers() {
    let mut handles = HandleAllocator::new();
    let mut list_watchers: WatcherRegistry<&str> = WatcherRegistry::new();
    let first = ShareableContent::on_application_list_changed(&mut handles, &mut list_watchers, "first");
    let second = ShareableContent::on_application_list_changed(&mut handles, &mut list_watchers, "second");
    assert_eq!(list_watchers.len(), 2);
    assert_eq!(first.unsubscribe(&mut list_watchers), Some("first"));
    assert_eq!(first.unsubscribe(&mut list_watchers), None);
    assert_eq!(second.unsubscribe(&mut list_watchers), Some("second"));
    assert_eq!(list_watchers.len(), 0);

    let mut app_watchers: WatcherRegistry<u32> = WatcherRegistry::new();
    let t = TappableApplication::new(77, &None);
    let s = ShareableContent::on_app_state_changed(&t, &mut handles, &mut app_watchers, 77);
    assert_eq!(s.process_id(), 77);
    assert_eq!(app_watchers.len(), 1);
    assert_eq!(s.unsubscribe(&mut app_watchers), Some(77));
    assert_eq!(app_watchers.len(), 0);
    assert_eq!(s.unsubscribe(&mut app_watchers), None);
}

#[test]
fn recording_permissions_default_to_denied() {
    let p = RecordingPermissions::default();
    assert!(!p.audio);
    assert!(!p.screen);
}
