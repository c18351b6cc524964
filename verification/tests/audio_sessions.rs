use media_capture::audio::{
    device_name, get_active_audio_processes, is_process_actively_using_microphone,
    is_system_sounds_session, list_audio_devices, list_audio_processes, running_status_of,
    AudioError, DeviceProbe, EndpointsProbe, SessionDetails, SessionIdentity, SessionProbe,
    SessionsProbe, WideText,
};
use media_capture::listener::{is_active_state, MicrophoneListener, SessionSource};
use media_capture::report::debug_is_process_actively_using_microphone;

fn err(code: i32, msg: &str) -> AudioError {
    AudioError { code, message: msg.to_string() }
}

fn named(pid: u32, name: &str, state: i32) -> SessionProbe {
    SessionProbe::Available(SessionDetails {
        state: Ok(state),
        identity: Ok(SessionIdentity {
            process_id: Ok(pid),
            module_name: Some(name.to_string()),
            display_name: WideText::Text("ignored".to_string()),
        }),
    })
}

fn displayed(pid: u32, display: WideText, state: i32) -> SessionProbe {
    SessionProbe::Available(SessionDetails {
        state: Ok(state),
        identity: Ok(SessionIdentity { process_id: Ok(pid), module_name: None, display_name: display }),
    })
}

fn device(id: &str, sessions: Vec<SessionProbe>) -> DeviceProbe {
    DeviceProbe::Available { id: WideText::Text(id.to_string()), sessions: SessionsProbe::Listed(sessions) }
}

fn endpoints(devices: Vec<DeviceProbe>) -> EndpointsProbe {
    EndpointsProbe::Listed {
        devices,
        default_communications: WideText::Text("mic-b".to_string()),
        default_console: WideText::NotUtf16 { error: err(1, "bad"), description: "invalid utf-16".to_string() },
    }
}

fn sample() -> EndpointsProbe {
    endpoints(vec![
        device("mic-a", vec![named(10, "svchost AudioSrv", 1), named(11, "zoom.exe", 1), named(12, "teams.exe", 0)]),
        device("mic-b", vec![displayed(13, WideText::Text("Recorder".to_string()), 0)]),
    ])
}

#[test]
fn system_sounds_sessions_are_recognised() {
    assert!(is_system_sounds_session("AudioSrv"));
    assert!(is_system_sounds_session("svchost.exe AudioSrv host"));
    assert!(!is_system_sounds_session("zoom.exe"));
}

#[test]
fn device_names_follow_position() {
    assert_eq!(device_name(0), "Audio Device 0");
    assert_eq!(device_name(12), "Audio Device 12");
}

#[test]
fn processes_skip_system_sounds_and_name_devices() {
    let ps = list_audio_processes(&sample()).unwrap();
    let rows: Vec<(String, u32, String, String, bool)> = ps
        .iter()
        .map(|p| (p.process_name.clone(), p.process_id, p.device_id.clone(), p.device_name.clone(), p.is_running))
        .collect();
    assert_eq!(
        rows,
        vec![
            ("zoom.exe".to_string(), 11, "mic-a".to_string(), "Audio Device 0".to_string(), true),
            ("teams.exe".to_string(), 12, "mic-a".to_string(), "Audio Device 0".to_string(), false),
            ("Recorder".to_string(), 13, "mic-b".to_string(), "Audio Device 1".to_string(), false),
        ]
    );
}

#[test]
fn active_processes_keep_only_recording_ones() {
    let ps = get_active_audio_processes(&sample()).unwrap();
    assert_eq!(ps.len(), 1);
    assert_eq!(ps[0].process_id, 11);
    assert!(ps[0].is_running);
}

#[test]
fn process_activity_lookup() {
    assert_eq!(is_process_actively_using_microphone(&sample(), 11).unwrap(), true);
    assert_eq!(is_process_actively_using_microphone(&sample(), 12).unwrap(), false);
    assert_eq!(is_process_actively_using_microphone(&sample(), 10).unwrap(), false);
    assert_eq!(is_process_actively_using_microphone(&sample(), 99).unwrap(), false);
    let failed = EndpointsProbe::ComUnavailable(err(-5, "no com"));
    assert_eq!(is_process_actively_using_microphone(&failed, 11).unwrap_err().message, "no com");
    assert!(!MicrophoneListener::is_process_using_microphone(&failed, 11));
    assert!(MicrophoneListener::is_process_using_microphone(&sample(), 11));
}

#[test]
fn errors_stop_the_walk_in_query_order() {
    let broken_name = endpoints(vec![device(
        "mic-a",
        vec![displayed(5, WideText::NotUtf16 { error: err(7, "not unicode"), description: "x".to_string() }, 1)],
    )]);
    assert_eq!(list_audio_processes(&broken_name).unwrap_err().code, 7);
    let broken_state = endpoints(vec![device(
        "mic-a",
        vec![SessionProbe::Available(SessionDetails {
            state: Err(err(8, "state")),
            identity: Ok(SessionIdentity {
                process_id: Ok(3),
                module_name: Some("app.exe".to_string()),
                display_name: WideText::Failed(err(9, "display")),
            }),
        })],
    )]);
    assert_eq!(list_audio_processes(&broken_state).unwrap_err().code, 8);
    let system_state = endpoints(vec![device(
        "mic-a",
        vec![SessionProbe::Available(SessionDetails {
            state: Err(err(8, "state")),
            identity: Ok(SessionIdentity {
                process_id: Ok(3),
                module_name: Some("AudioSrv".to_string()),
                display_name: WideText::Failed(err(9, "display")),
            }),
        })],
    )]);
    assert_eq!(list_audio_processes(&system_state).unwrap().len(), 0);
    let bad_device = endpoints(vec![DeviceProbe::Unavailable(err(4, "item"))]);
    assert_eq!(list_audio_processes(&bad_device).unwrap_err().code, 4);
    let bad_id = endpoints(vec![DeviceProbe::Available {
        id: WideText::Failed(err(6, "id")),
        sessions: SessionsProbe::Listed(vec![]),
    }]);
    assert_eq!(list_audio_devices(&bad_id).unwrap_err().code, 6);
    let no_enum = EndpointsProbe::EnumeratorFailed(err(2, "enum"));
    assert_eq!(list_audio_devices(&no_enum).unwrap_err().message, "enum");
    let activation = endpoints(vec![DeviceProbe::Available {
        id: WideText::Text("mic".to_string()),
        sessions: SessionsProbe::ActivateFailed(err(11, "activate")),
    }]);
    assert_eq!(list_audio_processes(&activation).unwrap_err().code, 11);
}

#[test]
fn devices_report_defaults_and_activity() {
    let ds = list_audio_devices(&sample()).unwrap();
    assert_eq!(ds.len(), 2);
    assert_eq!(ds[0].device_id, "mic-a");
    assert_eq!(ds[0].device_name, "Audio Device 0");
    assert!(!ds[0].is_default_communications);
    assert!(!ds[0].is_default_console);
    assert!(ds[0].has_active_sessions);
    assert_eq!(ds[1].device_id, "mic-b");
    assert!(ds[1].is_default_communications);
    assert!(!ds[1].has_active_sessions);
    let empty_console = EndpointsProbe::Listed {
        devices: vec![device("", vec![])],
        default_communications: WideText::Failed(err(1, "none")),
        default_console: WideText::NotUtf16 { error: err(1, "bad"), description: "bad".to_string() },
    };
    let ds = list_audio_devices(&empty_console).unwrap();
    assert!(ds[0].is_default_console);
    assert!(!ds[0].is_default_communications);
}

#[test]
fn running_status_names_first_recording_session() {
    let s = vec![named(1, "AudioSrv", 1), named(2, "a.exe", 0), named(3, "b.exe", 1), named(4, "c.exe", 1)];
    assert_eq!(running_status_of(&s).unwrap(), (true, "b.exe".to_string()));
    let s = vec![named(2, "a.exe", 0)];
    assert_eq!(running_status_of(&s).unwrap(), (false, String::new()));
    let s = vec![named(3, "b.exe", 1), SessionProbe::Unavailable(err(3, "later"))];
    assert_eq!(running_status_of(&s).unwrap(), (true, "b.exe".to_string()));
    let s = vec![SessionProbe::Unavailable(err(3, "first")), named(3, "b.exe", 1)];
    assert_eq!(running_status_of(&s).unwrap_err().code, 3);
}

#[test]
fn listener_tracks_recording_state() {
    assert!(is_active_state(1));
    assert!(!is_active_state(0));
    assert!(!is_active_state(2));
    let mut l = MicrophoneListener::new();
    assert!(!l.is_running());
    let quiet = SessionsProbe::Listed(vec![named(2, "a.exe", 0)]);
    assert!(l.on_device_registered(0, &"mic".to_string(), &quiet).unwrap().is_none());
    assert!(!l.is_running());
    let loud = SessionsProbe::Listed(vec![named(2, "a.exe", 1)]);
    let cb = l.on_device_registered(3, &"mic".to_string(), &loud).unwrap().unwrap();
    assert!(cb.is_running);
    assert_eq!(cb.process_name, "a.exe");
    assert_eq!(cb.device_id, "mic");
    assert_eq!(cb.device_name, "Audio Device 3");
    assert!(l.is_running());

    let source = SessionSource {
        process_name: "a.exe".to_string(),
        device_id: "mic".to_string(),
        device_name: "Audio Device 3".to_string(),
    };
    let cb = l.on_session_inactive(&source, &quiet);
    assert!(!cb.is_running);
    assert!(!l.is_running());
    let cb = l.on_session_active(&source);
    assert!(cb.is_running);
    assert!(l.is_running());
    let cb = l.on_session_inactive(&source, &SessionsProbe::CountFailed(err(1, "count")));
    assert!(!cb.is_running);
    assert!(!l.is_running());
    let cb = l.on_session_inactive(&source, &loud);
    assert!(cb.is_running);
    assert!(l.is_running());
}

#[test]
fn listener_reacts_to_new_sessions() {
    let mut l = MicrophoneListener::new();
    let dev = "mic".to_string();
    let name = "Audio Device 0".to_string();
    let system = SessionDetails {
        state: Ok(1),
        identity: Ok(SessionIdentity {
            process_id: Ok(4),
            module_name: Some("AudioSrv".to_string()),
            display_name: WideText::Text(String::new()),
        }),
    };
    assert!(l.on_session_created(&dev, &name, &system).unwrap().is_none());
    assert!(!l.is_running());
    let idle = SessionDetails {
        state: Ok(0),
        identity: Ok(SessionIdentity {
            process_id: Ok(4),
            module_name: Some("zoom.exe".to_string()),
            display_name: WideText::Text(String::new()),
        }),
    };
    assert!(l.on_session_created(&dev, &name, &idle).unwrap().is_none());
    let recording = SessionDetails {
        state: Ok(1),
        identity: Ok(SessionIdentity {
            process_id: Ok(4),
            module_name: None,
            display_name: WideText::Text("Zoom".to_string()),
        }),
    };
    let cb = l.on_session_created(&dev, &name, &recording).unwrap().unwrap();
    assert_eq!(cb.process_name, "Zoom");
    assert!(cb.is_running);
    assert!(l.is_running());
    let broken = SessionDetails { state: Ok(1), identity: Err(err(12, "cast")) };
    assert_eq!(l.on_session_created(&dev, &name, &broken).unwrap_err().code, 12);
}

#[test]
fn debug_report_lists_sessions_until_target_found() {
    let probe = endpoints(vec![
        device("mic-a", vec![named(10, "a.exe", 0), displayed(11, WideText::Failed(err(1, "x")), 1), named(12, "c.exe", 1)]),
        device("mic-b", vec![]),
    ]);
    let report = debug_is_process_actively_using_microphone(11, &probe).unwrap();
    assert_eq!(
        report,
        "Checking PID 11\n\
         Found 2 capture devices\n\
         Device 0: mic-a\n  Device 0 has 3 sessions\n    \
         Session 0: PID=10, Name=a.exe, State=AudioSessionState(0), Active=false\n    \
         Session 1: PID=11, Name=PID_11, State=AudioSessionState(1), Active=true\n    \
         *** FOUND TARGET PID 11 with state AudioSessionState(1) (active=true)\n    \
         *** RETURNING TRUE\n"
    );
}

#[test]
fn debug_report_tolerates_failures() {
    let probe = endpoints(vec![
        DeviceProbe::Unavailable(err(1, "gone")),
        DeviceProbe::Available {
            id: WideText::NotUtf16 { error: err(2, "e"), description: "invalid utf-16: lone surrogate found".to_string() },
            sessions: SessionsProbe::Listed(vec![]),
        },
        DeviceProbe::Available { id: WideText::Text("mic".to_string()), sessions: SessionsProbe::EnumeratorFailed(err(3, "no list")) },
        device("mic2", vec![SessionProbe::Unavailable(err(4, "no session")), named(5, "x.exe", 0)]),
    ]);
    let report = debug_is_process_actively_using_microphone(5, &probe).unwrap();
    assert_eq!(
        report,
        "Checking PID 5\n\
         Found 4 capture devices\n\
         Failed to get device 0: gone\n\
         Failed to convert device ID to string: invalid utf-16: lone surrogate found\n\
         Device 2: mic\n\
         Failed to get session enumerator for device 2: no list\n\
         Device 3: mic2\n  Device 3 has 2 sessions\n  \
         Failed to get session 0 for device 3: no session\n    \
         Session 1: PID=5, Name=x.exe, State=AudioSessionState(0), Active=false\n    \
         *** FOUND TARGET PID 5 with state AudioSessionState(0) (active=false)\n\
         PID 5 not found in any active sessions\n"
    );
    let early = EndpointsProbe::CountFailed(err(1, "no count"));
    assert_eq!(
        debug_is_process_actively_using_microphone(7, &early).unwrap(),
        "Checking PID 7\nFailed to get device count: no count\n"
    );
    let no_com = EndpointsProbe::ComUnavailable(err(1, "com"));
    assert_eq!(debug_is_process_actively_using_microphone(7, &no_com).unwrap_err().message, "com");
}

#[test]
fn report_and_recording_check_agree_when_queries_succeed() {
    let probe = endpoints(vec![
        device("mic-a", vec![named(10, "a.exe", 0), named(11, "b.exe", 1)]),
        device("mic-b", vec![named(12, "c.exe", 1)]),
    ]);
    for pid in [10u32, 11, 12, 13] {
        let report = debug_is_process_actively_using_microphone(pid, &probe).unwrap();
        let active = is_process_actively_using_microphone(&probe, pid).unwrap();
        assert_eq!(report.ends_with("    *** RETURNING TRUE\n"), active, "pid {}", pid);
    }
}

#[test]
fn device_activity_matches_processes_named_after_it() {
    let probe = endpoints(vec![
        device("mic-a", vec![named(10, "a.exe", 0)]),
        device("mic-b", vec![named(11, "b.exe", 1)]),
        device("mic-c", vec![]),
    ]);
    let ps = list_audio_processes(&probe).unwrap();
    let ds = list_audio_devices(&probe).unwrap();
    for (i, d) in ds.iter().enumerate() {
        let label = format!("Audio Device {}", i);
        let running = ps.iter().any(|p| p.device_name == label && p.is_running);
        assert_eq!(running, d.has_active_sessions);
    }
}
