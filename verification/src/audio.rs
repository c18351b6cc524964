//! Audio capture devices and sessions: the records that the Windows audio
//! endpoint API yields, and what the module derives from them.
//!
//! A probe records, step by step, what each query of the endpoint API gave
//! back. The functions here decide, from a probe, what the module reports:
//! the processes with capture sessions, the capture devices, and whether a
//! process is recording.
use vstd::prelude::*;
use vstd::string::*;
use crate::text::{append_decimal, contains_seq, contains_text, decimal};

verus! {

/// The value that Windows gives `AudioSessionStateActive`: a session in this
/// state is recording.
pub const AUDIO_SESSION_STATE_ACTIVE: i32 = 1;

/// An error that a query of the audio endpoint API returned.
#[derive(Debug)]
pub struct AudioError {
    /// The HRESULT of the failure.
    pub code: i32,
    /// The system's description of the failure.
    pub message: String,
}

impl Clone for AudioError {
    fn clone(&self) -> (e: Self)
        ensures
            e == *self,
    {
        AudioError { code: self.code, message: self.message.clone() }
    }
}

/// A wide string read from the endpoint API (a device id or a display name).
#[derive(Debug)]
pub enum WideText {
    /// The query succeeded and the text is valid UTF-16.
    Text(String),
    /// The query succeeded but the text is not valid UTF-16: `error` is that
    /// failure as an API error, `description` its text.
    NotUtf16 { error: AudioError, description: String },
    /// The query failed.
    Failed(AudioError),
}

/// What the session's `IAudioSessionControl2` interface tells.
#[derive(Debug)]
pub struct SessionIdentity {
    /// The process that owns the session.
    pub process_id: Result<u32, AudioError>,
    /// The file name of the process's executable, where it could be read.
    pub module_name: Option<String>,
    /// The session's display name.
    pub display_name: WideText,
}

/// What the queries of one audio session gave.
#[derive(Debug)]
pub struct SessionDetails {
    /// The session state (`AudioSessionState`).
    pub state: Result<i32, AudioError>,
    /// The identity queries; an error here means that the session control does
    /// not offer `IAudioSessionControl2`.
    pub identity: Result<SessionIdentity, AudioError>,
}

/// One entry of a device's session enumerator.
#[derive(Debug)]
pub enum SessionProbe {
    /// The enumerator could not hand out this session.
    Unavailable(AudioError),
    Available(SessionDetails),
}

/// The sessions of one capture device.
#[derive(Debug)]
pub enum SessionsProbe {
    /// The session manager could not be activated on the device.
    ActivateFailed(AudioError),
    /// The session enumerator could not be obtained.
    EnumeratorFailed(AudioError),
    /// The number of sessions could not be read.
    CountFailed(AudioError),
    Listed(Vec<SessionProbe>),
}

/// One active capture device.
#[derive(Debug)]
pub enum DeviceProbe {
    /// The device collection could not hand out this device.
    Unavailable(AudioError),
    Available { id: WideText, sessions: SessionsProbe },
}

/// A walk over all active capture devices.
#[derive(Debug)]
pub enum EndpointsProbe {
    /// COM could not be initialised on the calling thread.
    ComUnavailable(AudioError),
    /// The device enumerator could not be created.
    EnumeratorFailed(AudioError),
    /// The capture endpoints could not be enumerated.
    EndpointsFailed(AudioError),
    /// The number of capture endpoints could not be read.
    CountFailed(AudioError),
    Listed {
        devices: Vec<DeviceProbe>,
        /// The id of the default communications capture device.
        default_communications: WideText,
        /// The id of the default console capture device.
        default_console: WideText,
    },
}

/// A process that holds an audio session on a capture device.
#[derive(Debug)]
pub struct AudioProcess {
    pub process_name: String,
    pub process_id: u32,
    pub device_id: String,
    pub device_name: String,
    /// The session is active, so the process is recording.
    pub is_running: bool,
}

/// An active capture device.
#[derive(Debug)]
pub struct AudioDevice {
    pub device_id: String,
    pub device_name: String,
    pub is_default_communications: bool,
    pub is_default_console: bool,
    /// Some session on the device is recording.
    pub has_active_sessions: bool,
}

/// The abstract content of an `AudioProcess`.
pub struct AudioProcessView {
    pub process_name: Seq<char>,
    pub process_id: u32,
    pub device_id: Seq<char>,
    pub device_name: Seq<char>,
    pub is_running: bool,
}

/// The abstract content of an `AudioDevice`.
pub struct AudioDeviceView {
    pub device_id: Seq<char>,
    pub device_name: Seq<char>,
    pub is_default_communications: bool,
    pub is_default_console: bool,
    pub has_active_sessions: bool,
}

impl View for AudioProcess {
    type V = AudioProcessView;

    open spec fn view(&self) -> AudioProcessView {
        AudioProcessView {
            process_name: self.process_name@,
            process_id: self.process_id,
            device_id: self.device_id@,
            device_name: self.device_name@,
            is_running: self.is_running,
        }
    }
}

impl View for AudioDevice {
    type V = AudioDeviceView;

    open spec fn view(&self) -> AudioDeviceView {
        AudioDeviceView {
            device_id: self.device_id@,
            device_name: self.device_name@,
            is_default_communications: self.is_default_communications,
            is_default_console: self.is_default_console,
            has_active_sessions: self.has_active_sessions,
        }
    }
}

pub open spec fn processes_view(v: Seq<AudioProcess>) -> Seq<AudioProcessView> {
    v.map_values(|p: AudioProcess| p@)
}

pub open spec fn devices_view(v: Seq<AudioDevice>) -> Seq<AudioDeviceView> {
    v.map_values(|d: AudioDevice| d@)
}

pub open spec fn processes_result_view(r: Result<Vec<AudioProcess>, AudioError>) -> Result<
    Seq<AudioProcessView>,
    AudioError,
> {
    match r {
        Ok(v) => Ok(processes_view(v@)),
        Err(e) => Err(e),
    }
}

pub open spec fn devices_result_view(r: Result<Vec<AudioDevice>, AudioError>) -> Result<
    Seq<AudioDeviceView>,
    AudioError,
> {
    match r {
        Ok(v) => Ok(devices_view(v@)),
        Err(e) => Err(e),
    }
}

/// The marker in a process name of the system-sounds session.
pub open spec fn system_sounds_marker() -> Seq<char> {
    "AudioSrv"@
}

/// A session named `name` is the system-sounds session, which the module
/// always skips.
pub open spec fn is_system_sounds(name: Seq<char>) -> bool {
    contains_seq(name, system_sounds_marker())
}

/// The name that the module gives the capture device at position `index`.
pub open spec fn device_label(index: int) -> Seq<char> {
    "Audio Device "@ + decimal(index as nat)
}

/// The text of a wide string where a query needs it, or the error that stops
/// the query.
pub open spec fn wide_text_result(w: WideText) -> Result<Seq<char>, AudioError> {
    match w {
        WideText::Text(s) => Ok(s@),
        WideText::NotUtf16 { error, .. } => Err(error),
        WideText::Failed(e) => Err(e),
    }
}

/// The id of a default device: absent where the query failed, empty where the
/// id is not valid UTF-16.
pub open spec fn default_device_id(w: WideText) -> Option<Seq<char>> {
    match w {
        WideText::Text(s) => Some(s@),
        WideText::NotUtf16 { .. } => Some(seq![]),
        WideText::Failed(_) => None,
    }
}

/// The name of a session's process: the executable's file name, or else the
/// session's display name.
pub open spec fn session_name(id: SessionIdentity) -> Result<Seq<char>, AudioError> {
    match id.module_name {
        Some(n) => Ok(n@),
        None => wide_text_result(id.display_name),
    }
}

/// What a session contributes: `None` for the system-sounds session, else its
/// process id, process name and whether it is recording.
pub open spec fn details_entry(d: SessionDetails) -> Result<Option<(u32, Seq<char>, bool)>, AudioError> {
    match d.identity {
        Err(e) => Err(e),
        Ok(id) => match id.process_id {
            Err(e) => Err(e),
            Ok(pid) => match session_name(id) {
                Err(e) => Err(e),
                Ok(name) => if is_system_sounds(name) {
                    Ok(None)
                } else {
                    match d.state {
                        Err(e) => Err(e),
                        Ok(st) => Ok(Some((pid, name, st == AUDIO_SESSION_STATE_ACTIVE))),
                    }
                },
            },
        },
    }
}

pub open spec fn session_entry(p: SessionProbe) -> Result<Option<(u32, Seq<char>, bool)>, AudioError> {
    match p {
        SessionProbe::Unavailable(e) => Err(e),
        SessionProbe::Available(d) => details_entry(d),
    }
}

/// Whether the first `n` sessions hold a recording session, and the name of
/// the first one; the walk stops at the first recording session or error.
pub open spec fn status_upto(s: Seq<SessionProbe>, n: int) -> Result<(bool, Seq<char>), AudioError>
    decreases n,
{
    if n <= 0 {
        Ok((false, seq![]))
    } else {
        match status_upto(s, n - 1) {
            Err(e) => Err(e),
            Ok((true, name)) => Ok((true, name)),
            Ok((false, _)) => match session_entry(s[n - 1]) {
                Err(e) => Err(e),
                Ok(None) => Ok((false, seq![])),
                Ok(Some((_, name, active))) => if active {
                    Ok((true, name))
                } else {
                    Ok((false, seq![]))
                },
            },
        }
    }
}

/// Whether some session of a device is recording, with the name of the first
/// such session (empty where none is).
pub open spec fn running_status(s: Seq<SessionProbe>) -> Result<(bool, Seq<char>), AudioError> {
    status_upto(s, s.len() as int)
}

pub open spec fn sessions_running_status(p: SessionsProbe) -> Result<(bool, Seq<char>), AudioError> {
    match p {
        SessionsProbe::ActivateFailed(e) => Err(e),
        SessionsProbe::EnumeratorFailed(e) => Err(e),
        SessionsProbe::CountFailed(e) => Err(e),
        SessionsProbe::Listed(v) => running_status(v@),
    }
}

pub open spec fn status_view(r: Result<(bool, String), AudioError>) -> Result<(bool, Seq<char>), AudioError> {
    match r {
        Ok((b, s)) => Ok((b, s@)),
        Err(e) => Err(e),
    }
}

/// The processes of the first `n` sessions of a device.
pub open spec fn session_processes_upto(
    s: Seq<SessionProbe>,
    n: int,
    device_id: Seq<char>,
    device_name: Seq<char>,
) -> Result<Seq<AudioProcessView>, AudioError>
    decreases n,
{
    if n <= 0 {
        Ok(seq![])
    } else {
        match session_processes_upto(s, n - 1, device_id, device_name) {
            Err(e) => Err(e),
            Ok(acc) => match session_entry(s[n - 1]) {
                Err(e) => Err(e),
                Ok(None) => Ok(acc),
                Ok(Some((pid, name, active))) => Ok(
                    acc.push(
                        AudioProcessView {
                            process_name: name,
                            process_id: pid,
                            device_id: device_id,
                            device_name: device_name,
                            is_running: active,
                        },
                    ),
                ),
            },
        }
    }
}

/// The processes with sessions on the device at position `index`.
pub open spec fn device_processes(d: DeviceProbe, index: int) -> Result<Seq<AudioProcessView>, AudioError> {
    match d {
        DeviceProbe::Unavailable(e) => Err(e),
        DeviceProbe::Available { id, sessions } => match wide_text_result(id) {
            Err(e) => Err(e),
            Ok(idv) => match sessions {
                SessionsProbe::ActivateFailed(e) => Err(e),
                SessionsProbe::EnumeratorFailed(e) => Err(e),
                SessionsProbe::CountFailed(e) => Err(e),
                SessionsProbe::Listed(v) => session_processes_upto(
                    v@,
                    v@.len() as int,
                    idv,
                    device_label(index),
                ),
            },
        },
    }
}

pub open spec fn all_processes_upto(devs: Seq<DeviceProbe>, n: int) -> Result<Seq<AudioProcessView>, AudioError>
    decreases n,
{
    if n <= 0 {
        Ok(seq![])
    } else {
        match all_processes_upto(devs, n - 1) {
            Err(e) => Err(e),
            Ok(acc) => match device_processes(devs[n - 1], n - 1) {
                Err(e) => Err(e),
                Ok(ps) => Ok(acc + ps),
            },
        }
    }
}

/// Every process with an audio session on an active capture device, the
/// system-sounds session left out, device by device and session by session;
/// the first failing query makes it an error.
pub open spec fn audio_processes(p: EndpointsProbe) -> Result<Seq<AudioProcessView>, AudioError> {
    match p {
        EndpointsProbe::ComUnavailable(e) => Err(e),
        EndpointsProbe::EnumeratorFailed(e) => Err(e),
        EndpointsProbe::EndpointsFailed(e) => Err(e),
        EndpointsProbe::CountFailed(e) => Err(e),
        EndpointsProbe::Listed { devices, .. } => all_processes_upto(devices@, devices@.len() as int),
    }
}

/// The processes of `audio_processes` that are recording.
pub open spec fn active_processes(p: EndpointsProbe) -> Result<Seq<AudioProcessView>, AudioError> {
    match audio_processes(p) {
        Ok(ps) => Ok(ps.filter(|q: AudioProcessView| q.is_running)),
        Err(e) => Err(e),
    }
}

/// Some process with id `pid` is recording.
pub open spec fn process_recording(ps: Seq<AudioProcessView>, pid: u32) -> bool {
    exists|k: int| 0 <= k < ps.len() && #[trigger] ps[k].process_id == pid && ps[k].is_running
}

/// The record of the capture device at position `index`.
pub open spec fn device_record(
    d: DeviceProbe,
    index: int,
    communications: Option<Seq<char>>,
    console: Option<Seq<char>>,
) -> Result<AudioDeviceView, AudioError> {
    match d {
        DeviceProbe::Unavailable(e) => Err(e),
        DeviceProbe::Available { id, sessions } => match wide_text_result(id) {
            Err(e) => Err(e),
            Ok(idv) => match sessions_running_status(sessions) {
                Err(e) => Err(e),
                Ok((active, _)) => Ok(
                    AudioDeviceView {
                        device_id: idv,
                        device_name: device_label(index),
                        is_default_communications: communications == Some(idv),
                        is_default_console: console == Some(idv),
                        has_active_sessions: active,
                    },
                ),
            },
        },
    }
}

pub open spec fn devices_upto(
    devs: Seq<DeviceProbe>,
    n: int,
    communications: Option<Seq<char>>,
    console: Option<Seq<char>>,
) -> Result<Seq<AudioDeviceView>, AudioError>
    decreases n,
{
    if n <= 0 {
        Ok(seq![])
    } else {
        match devices_upto(devs, n - 1, communications, console) {
            Err(e) => Err(e),
            Ok(acc) => match device_record(devs[n - 1], n - 1, communications, console) {
                Err(e) => Err(e),
                Ok(d) => Ok(acc.push(d)),
            },
        }
    }
}

/// Every active capture device, with whether it is a default device and
/// whether some session on it is recording.
pub open spec fn audio_devices(p: EndpointsProbe) -> Result<Seq<AudioDeviceView>, AudioError> {
    match p {
        EndpointsProbe::ComUnavailable(e) => Err(e),
        EndpointsProbe::EnumeratorFailed(e) => Err(e),
        EndpointsProbe::EndpointsFailed(e) => Err(e),
        EndpointsProbe::CountFailed(e) => Err(e),
        EndpointsProbe::Listed { devices, default_communications, default_console } => devices_upto(
            devices@,
            devices@.len() as int,
            default_device_id(default_communications),
            default_device_id(default_console),
        ),
    }
}

// ---------------------------------------------------------------------------
// Lemmas on the walks: once a walk fails (or, for the status, finds a
// recording session) it keeps that outcome.

proof fn lemma_status_final(s: Seq<SessionProbe>, k: int, m: int)
    requires
        0 <= k <= m,
        status_upto(s, k) is Err || status_upto(s, k) matches Ok((true, _)),
    ensures
        status_upto(s, m) == status_upto(s, k),
    decreases m - k,
{
    if m > k {
        lemma_status_final(s, k, m - 1);
    }
}

proof fn lemma_session_processes_err(s: Seq<SessionProbe>, k: int, m: int, id: Seq<char>, name: Seq<char>)
    requires
        0 <= k <= m,
        session_processes_upto(s, k, id, name) is Err,
    ensures
        session_processes_upto(s, m, id, name) == session_processes_upto(s, k, id, name),
    decreases m - k,
{
    if m > k {
        lemma_session_processes_err(s, k, m - 1, id, name);
    }
}

proof fn lemma_all_processes_err(devs: Seq<DeviceProbe>, k: int, m: int)
    requires
        0 <= k <= m,
        all_processes_upto(devs, k) is Err,
    ensures
        all_processes_upto(devs, m) == all_processes_upto(devs, k),
    decreases m - k,
{
    if m > k {
        lemma_all_processes_err(devs, k, m - 1);
    }
}

proof fn lemma_devices_err(
    devs: Seq<DeviceProbe>,
    k: int,
    m: int,
    c1: Option<Seq<char>>,
    c2: Option<Seq<char>>,
)
    requires
        0 <= k <= m,
        devices_upto(devs, k, c1, c2) is Err,
    ensures
        devices_upto(devs, m, c1, c2) == devices_upto(devs, k, c1, c2),
    decreases m - k,
{
    if m > k {
        lemma_devices_err(devs, k, m - 1, c1, c2);
    }
}

// ---------------------------------------------------------------------------
// Laws.

proof fn lemma_session_processes_props(s: Seq<SessionProbe>, n: int, id: Seq<char>, name: Seq<char>)
    requires
        0 <= n <= s.len(),
        session_processes_upto(s, n, id, name) is Ok,
    ensures
        ({
            let ps = session_processes_upto(s, n, id, name)->Ok_0;
            &&& forall|k: int| 0 <= k < ps.len() ==> !is_system_sounds(#[trigger] ps[k].process_name)
            &&& forall|k: int| 0 <= k < ps.len() ==> #[trigger] ps[k].device_name == name
            &&& status_upto(s, n) is Ok
            &&& status_upto(s, n)->Ok_0.0 <==> exists|k: int| 0 <= k < ps.len() && #[trigger] ps[k].is_running
        }),
    decreases n,
{
    if n > 0 {
        lemma_session_processes_props(s, n - 1, id, name);
        let prev = session_processes_upto(s, n - 1, id, name)->Ok_0;
        let ps = session_processes_upto(s, n, id, name)->Ok_0;
        match session_entry(s[n - 1]) {
            Ok(Some((pid, nm, active))) => {
                assert(ps == prev.push(AudioProcessView {
                    process_name: nm,
                    process_id: pid,
                    device_id: id,
                    device_name: name,
                    is_running: active,
                }));
                assert forall|k: int| 0 <= k < ps.len() implies !is_system_sounds(#[trigger] ps[k].process_name) by {
                    if k < prev.len() {
                        assert(ps[k] == prev[k]);
                    }
                }
                assert forall|k: int| 0 <= k < ps.len() implies #[trigger] ps[k].device_name == name by {
                    if k < prev.len() {
                        assert(ps[k] == prev[k]);
                    }
                }
                if status_upto(s, n)->Ok_0.0 {
                    if !active {
                        let k = choose|k: int| 0 <= k < prev.len() && #[trigger] prev[k].is_running;
                        assert(ps[k] == prev[k]);
                    } else {
                        assert(ps[ps.len() - 1].is_running);
                    }
                } else {
                    assert forall|k: int| 0 <= k < ps.len() implies !(#[trigger] ps[k].is_running) by {
                        if k < prev.len() {
                            assert(ps[k] == prev[k]);
                        }
                    }
                }
            },
            _ => {},
        }
    }
}

/// The system-sounds session never appears among the listed processes.
pub proof fn lemma_listed_processes_are_not_system_sounds(p: EndpointsProbe)
    requires
        audio_processes(p) is Ok,
    ensures
        forall|k: int| 0 <= k < audio_processes(p)->Ok_0.len() ==> !is_system_sounds(
            #[trigger] audio_processes(p)->Ok_0[k].process_name,
        ),
{
    if let EndpointsProbe::Listed { devices, .. } = p {
        lemma_all_processes_not_system_sounds(devices@, devices@.len() as int);
    }
}

proof fn lemma_all_processes_not_system_sounds(devs: Seq<DeviceProbe>, n: int)
    requires
        0 <= n <= devs.len(),
        all_processes_upto(devs, n) is Ok,
    ensures
        forall|k: int| 0 <= k < all_processes_upto(devs, n)->Ok_0.len() ==> !is_system_sounds(
            #[trigger] all_processes_upto(devs, n)->Ok_0[k].process_name,
        ),
    decreases n,
{
    if n > 0 {
        lemma_all_processes_not_system_sounds(devs, n - 1);
        let prev = all_processes_upto(devs, n - 1)->Ok_0;
        let ps = device_processes(devs[n - 1], n - 1)->Ok_0;
        if let DeviceProbe::Available { id, sessions } = devs[n - 1] {
            if let SessionsProbe::Listed(v) = sessions {
                lemma_session_processes_props(v@, v@.len() as int, wide_text_result(id)->Ok_0, device_label(n - 1));
            }
        }
        let all = all_processes_upto(devs, n)->Ok_0;
        assert(all == prev + ps);
        assert forall|k: int| 0 <= k < all.len() implies !is_system_sounds(#[trigger] all[k].process_name) by {
            if k < prev.len() {
                assert(all[k] == prev[k]);
            } else {
                assert(all[k] == ps[k - prev.len()]);
            }
        }
    }
}

/// A device has a recording session exactly when one of the processes listed
/// for it is recording (where both walks over its sessions succeed).
pub proof fn lemma_device_activity_matches_its_processes(
    sessions: Seq<SessionProbe>,
    device_id: Seq<char>,
    device_name: Seq<char>,
)
    requires
        session_processes_upto(sessions, sessions.len() as int, device_id, device_name) is Ok,
    ensures
        running_status(sessions) is Ok,
        running_status(sessions)->Ok_0.0 <==> exists|k: int|
            0 <= k < session_processes_upto(sessions, sessions.len() as int, device_id, device_name)->Ok_0.len()
                && #[trigger] session_processes_upto(
                sessions,
                sessions.len() as int,
                device_id,
                device_name,
            )->Ok_0[k].is_running,
{
    lemma_session_processes_props(sessions, sessions.len() as int, device_id, device_name);
}

/// Devices at different positions have different names.
pub proof fn lemma_device_labels_distinct(i: int, j: int)
    requires
        0 <= i,
        0 <= j,
        device_label(i) == device_label(j),
    ensures
        i == j,
{
    let prefix = "Audio Device "@;
    assert(device_label(i).subrange(prefix.len() as int, device_label(i).len() as int) =~= decimal(i as nat));
    assert(device_label(j).subrange(prefix.len() as int, device_label(j).len() as int) =~= decimal(j as nat));
    crate::text::lemma_decimal_injective(i as nat, j as nat);
}

/// The status of the sessions of one device.
pub open spec fn device_status(d: DeviceProbe) -> Result<(bool, Seq<char>), AudioError> {
    match d {
        DeviceProbe::Unavailable(e) => Err(e),
        DeviceProbe::Available { sessions, .. } => sessions_running_status(sessions),
    }
}

/// Some process of `ps` on the device named `label` is recording.
pub open spec fn labelled_running(ps: Seq<AudioProcessView>, label: Seq<char>) -> bool {
    exists|k: int| 0 <= k < ps.len() && #[trigger] ps[k].device_name == label && ps[k].is_running
}

proof fn lemma_all_processes_by_device(devs: Seq<DeviceProbe>, n: int)
    requires
        0 <= n <= devs.len(),
        all_processes_upto(devs, n) is Ok,
    ensures
        ({
            let v = all_processes_upto(devs, n)->Ok_0;
            &&& forall|m: int, j: int|
                #![trigger v[m], device_label(j)]
                0 <= m < v.len() && n <= j ==> v[m].device_name != device_label(j)
            &&& forall|i: int|
                0 <= i < n ==> #[trigger] device_status(devs[i]) is Ok && labelled_running(
                    v,
                    device_label(i),
                ) == device_status(devs[i])->Ok_0.0
        }),
    decreases n,
{
    if n > 0 {
        lemma_all_processes_by_device(devs, n - 1);
        let prev = all_processes_upto(devs, n - 1)->Ok_0;
        let d = devs[n - 1];
        let ps = device_processes(d, n - 1)->Ok_0;
        let v = all_processes_upto(devs, n)->Ok_0;
        assert(v == prev + ps);
        if let DeviceProbe::Available { id, sessions } = d {
            if let SessionsProbe::Listed(sv) = sessions {
                let idv = wide_text_result(id)->Ok_0;
                lemma_session_processes_props(sv@, sv@.len() as int, idv, device_label(n - 1));
                lemma_device_activity_matches_its_processes(sv@, idv, device_label(n - 1));
            }
        }
        assert forall|k: int| 0 <= k < ps.len() implies #[trigger] ps[k].device_name == device_label(n - 1) by {
        }
        assert forall|m: int, j: int|
            #![trigger v[m], device_label(j)]
            0 <= m < v.len() && n <= j implies v[m].device_name != device_label(j) by {
            if m < prev.len() {
                assert(v[m] == prev[m]);
            } else {
                assert(v[m] == ps[m - prev.len()]);
                if v[m].device_name == device_label(j) {
                    lemma_device_labels_distinct(n - 1, j);
                }
            }
        }
        assert forall|i: int| 0 <= i < n implies #[trigger] device_status(devs[i]) is Ok && labelled_running(
            v,
            device_label(i),
        ) == device_status(devs[i])->Ok_0.0 by {
            if i < n - 1 {
                assert(device_status(devs[i]) is Ok);
                if labelled_running(v, device_label(i)) {
                    let k = choose|k: int| 0 <= k < v.len() && #[trigger] v[k].device_name == device_label(i)
                        && v[k].is_running;
                    if k >= prev.len() {
                        assert(v[k] == ps[k - prev.len()]);
                        lemma_device_labels_distinct(n - 1, i);
                    }
                    assert(v[k] == prev[k]);
                    assert(labelled_running(prev, device_label(i)));
                }
                if labelled_running(prev, device_label(i)) {
                    let k = choose|k: int| 0 <= k < prev.len() && #[trigger] prev[k].device_name == device_label(i)
                        && prev[k].is_running;
                    assert(v[k] == prev[k]);
                }
            } else {
                if labelled_running(v, device_label(i)) {
                    let k = choose|k: int| 0 <= k < v.len() && #[trigger] v[k].device_name == device_label(i)
                        && v[k].is_running;
                    if k < prev.len() {
                        assert(v[k] == prev[k]);
                        assert(prev[k].device_name != device_label(n - 1));
                    }
                    assert(v[k] == ps[k - prev.len()]);
                    assert(ps[k - prev.len()].is_running);
                }
                if device_status(devs[i])->Ok_0.0 {
                    let k = choose|k: int| 0 <= k < ps.len() && #[trigger] ps[k].is_running;
                    assert(v[prev.len() + k] == ps[k]);
                    assert(v[prev.len() + k].device_name == device_label(i));
                }
            }
        }
    }
}

/// Over the whole process list, some process named after the device at
/// position `i` is recording exactly when that device has a recording
/// session (where the walk over all devices succeeds).
pub proof fn lemma_device_activity_in_process_list(p: EndpointsProbe, i: int)
    requires
        audio_processes(p) is Ok,
        p is Listed,
        0 <= i < p->devices@.len(),
    ensures
        device_status(p->devices@[i]) is Ok,
        labelled_running(audio_processes(p)->Ok_0, device_label(i)) == device_status(
            p->devices@[i],
        )->Ok_0.0,
{
    let devs = p->devices@;
    lemma_all_processes_by_device(devs, devs.len() as int);
    assert(device_status(devs[i]) is Ok);
}

proof fn lemma_devices_upto_entries(
    devs: Seq<DeviceProbe>,
    n: int,
    c1: Option<Seq<char>>,
    c2: Option<Seq<char>>,
)
    requires
        0 <= n <= devs.len(),
        devices_upto(devs, n, c1, c2) is Ok,
    ensures
        devices_upto(devs, n, c1, c2)->Ok_0.len() == n,
        forall|j: int|
            0 <= j < n ==> #[trigger] device_record(devs[j], j, c1, c2) == Ok::<AudioDeviceView, AudioError>(
                devices_upto(devs, n, c1, c2)->Ok_0[j],
            ),
    decreases n,
{
    if n > 0 {
        lemma_devices_upto_entries(devs, n - 1, c1, c2);
        let prev = devices_upto(devs, n - 1, c1, c2)->Ok_0;
        let r = devices_upto(devs, n, c1, c2)->Ok_0;
        assert forall|j: int| 0 <= j < n implies #[trigger] device_record(devs[j], j, c1, c2) == Ok::<
            AudioDeviceView,
            AudioError,
        >(r[j]) by {
            if j < n - 1 {
                assert(r[j] == prev[j]);
            }
        }
    }
}

/// Whether a default-device query names the device whose id is `id`: its id
/// text equals `id`, or, where that id is not valid UTF-16, `id` is empty.
pub open spec fn names_default(w: WideText, id: Seq<char>) -> bool {
    match w {
        WideText::Text(s) => s@ == id,
        WideText::NotUtf16 { .. } => id.len() == 0,
        WideText::Failed(_) => false,
    }
}

/// The device at position `i` of the probe `p` is listed as `dv`: it carries
/// the device's id, is named `Audio Device <i>`, is flagged a default device
/// where the default query names its id, and has a recording session exactly
/// when some session of it is recording and is not the system-sounds session.
pub open spec fn device_listed_as(p: EndpointsProbe, i: int, dv: AudioDeviceView) -> bool {
                &&& p->devices@[i] matches DeviceProbe::Available { id, sessions }
                &&& id matches WideText::Text(t)
                &&& dv.device_id == t@
                &&& dv.device_name == "Audio Device "@ + decimal(i as nat)
                &&& dv.is_default_communications == names_default(p->default_communications, dv.device_id)
                &&& dv.is_default_console == names_default(p->default_console, dv.device_id)
                &&& sessions matches SessionsProbe::Listed(v)
                &&& dv.has_active_sessions == exists|k: int|
                    0 <= k < v@.len() && (#[trigger] session_entry(v@[k]) matches Ok(Some((_, _, true))))
}

/// The devices listed are the probed devices, one per position: the device
/// at position `i` carries its id, is named `Audio Device <i>` (so devices at
/// different positions have different names), is flagged a default device
/// exactly where the default query names its id, and has a recording session
/// exactly when some session of it is recording and is not the system-sounds
/// session.
pub proof fn lemma_listed_devices(p: EndpointsProbe)
    requires
        audio_devices(p) is Ok,
        p is Listed,
    ensures
        audio_devices(p)->Ok_0.len() == p->devices@.len(),
        forall|i: int|
            0 <= i < audio_devices(p)->Ok_0.len() ==> device_listed_as(
                p,
                i,
                #[trigger] audio_devices(p)->Ok_0[i],
            ),
        forall|i: int, j: int|
            0 <= i < j < audio_devices(p)->Ok_0.len() ==> (#[trigger] audio_devices(p)->Ok_0[i]).device_name
                != (#[trigger] audio_devices(p)->Ok_0[j]).device_name,
{
    let devs = p->devices@;
    let c1 = default_device_id(p->default_communications);
    let c2 = default_device_id(p->default_console);
    lemma_devices_upto_entries(devs, devs.len() as int, c1, c2);
    let ds = audio_devices(p)->Ok_0;
    assert forall|i: int| 0 <= i < ds.len() implies device_listed_as(p, i, #[trigger] ds[i]) by {
        assert(device_record(devs[i], i, c1, c2) == Ok::<AudioDeviceView, AudioError>(ds[i]));
        if let DeviceProbe::Available { id, sessions } = devs[i] {
            if let SessionsProbe::Listed(v) = sessions {
                lemma_running_status_names_a_recording_session(v@);
            }
            let idv = ds[i].device_id;
            if let WideText::NotUtf16 { .. } = p->default_communications {
                if idv.len() == 0 {
                    assert(idv =~= seq![]);
                }
            }
            if let WideText::NotUtf16 { .. } = p->default_console {
                if idv.len() == 0 {
                    assert(idv =~= seq![]);
                }
            }
        }
    }
    assert forall|i: int, j: int| 0 <= i < j < ds.len() implies (#[trigger] ds[i]).device_name
        != (#[trigger] ds[j]).device_name by {
        assert(device_record(devs[i], i, c1, c2) == Ok::<AudioDeviceView, AudioError>(ds[i]));
        assert(device_record(devs[j], j, c1, c2) == Ok::<AudioDeviceView, AudioError>(ds[j]));
        if ds[i].device_name == ds[j].device_name {
            lemma_device_labels_distinct(i, j);
        }
    }
}

/// A process is reported as recording exactly when it is among the active
/// processes.
pub proof fn lemma_recording_iff_among_active(p: EndpointsProbe, pid: u32)
    requires
        audio_processes(p) is Ok,
    ensures
        active_processes(p) is Ok,
        process_recording(audio_processes(p)->Ok_0, pid) <==> exists|k: int|
            0 <= k < active_processes(p)->Ok_0.len() && #[trigger] active_processes(p)->Ok_0[k].process_id
                == pid,
{
    let ps = audio_processes(p)->Ok_0;
    let pred = |q: AudioProcessView| q.is_running;
    let act = ps.filter(pred);
    assert(active_processes(p)->Ok_0 == act);
    if process_recording(ps, pid) {
        let k = choose|k: int| 0 <= k < ps.len() && #[trigger] ps[k].process_id == pid && ps[k].is_running;
        assert(pred(ps[k]));
        ps.lemma_filter_contains(pred, k);
        assert(act.contains(ps[k]));
        let j = choose|j: int| 0 <= j < act.len() && act[j] == ps[k];
        assert(act[j].process_id == pid);
    }
    if exists|k: int| 0 <= k < act.len() && #[trigger] act[k].process_id == pid {
        let j = choose|j: int| 0 <= j < act.len() && #[trigger] act[j].process_id == pid;
        ps.lemma_filter_pred(pred, j);
        assert(act.contains(act[j]));
        ps.lemma_filter_contains_rev(pred, act[j]);
        let k = choose|k: int| 0 <= k < ps.len() && ps[k] == act[j];
        assert(ps[k].process_id == pid && ps[k].is_running);
    }
}

/// Where the status walk reports a recording session, it is not the
/// system-sounds session and the first one that records; where it reports
/// none, the name is empty and no session records.
pub proof fn lemma_running_status_names_a_recording_session(s: Seq<SessionProbe>)
    requires
        running_status(s) is Ok,
    ensures
        ({
            let (active, name) = running_status(s)->Ok_0;
            &&& active ==> !is_system_sounds(name) && exists|k: int| 0 <= k < s.len() && (#[trigger] session_entry(s[k])
                matches Ok(Some((_, n, true))) && n == name)
            &&& !active ==> name.len() == 0 && forall|k: int| 0 <= k < s.len() ==> !(#[trigger] session_entry(s[k])
                matches Ok(Some((_, _, true))))
        }),
{
    lemma_status_props(s, s.len() as int);
}

proof fn lemma_status_props(s: Seq<SessionProbe>, n: int)
    requires
        0 <= n <= s.len(),
        status_upto(s, n) is Ok,
    ensures
        ({
            let (active, name) = status_upto(s, n)->Ok_0;
            &&& active ==> !is_system_sounds(name) && exists|k: int| 0 <= k < n && (#[trigger] session_entry(s[k])
                matches Ok(Some((_, nm, true))) && nm == name)
            &&& !active ==> name.len() == 0 && forall|k: int| 0 <= k < n ==> !(#[trigger] session_entry(s[k])
                matches Ok(Some((_, _, true))))
        }),
    decreases n,
{
    if n > 0 {
        lemma_status_props(s, n - 1);
        lemma_entry_not_system_sounds(s[n - 1]);
    }
}

proof fn lemma_entry_not_system_sounds(p: SessionProbe)
    ensures
        session_entry(p) matches Ok(Some((_, name, _))) ==> !is_system_sounds(name),
{
}

// ---------------------------------------------------------------------------
// Executable functions.

/// Whether a session of this process name is the system-sounds session.
pub fn is_system_sounds_session(name: &str) -> (b: bool)
    ensures
        b == is_system_sounds(name@),
{
    contains_text(name, "AudioSrv")
}

/// The name given to the capture device at position `index`.
pub fn device_name(index: usize) -> (s: String)
    ensures
        s@ == device_label(index as int),
{
    let mut s = String::from_str("Audio Device ");
    append_decimal(&mut s, index as u64);
    s
}

/// The text of a wide string, or the error that stops a query.
pub fn wide_text_value(w: &WideText) -> (r: Result<String, AudioError>)
    ensures
        match r {
            Ok(s) => wide_text_result(*w) == Ok::<Seq<char>, AudioError>(s@),
            Err(e) => wide_text_result(*w) == Err::<Seq<char>, AudioError>(e),
        },
{
    match w {
        WideText::Text(s) => Ok(s.clone()),
        WideText::NotUtf16 { error, .. } => Err(error.clone()),
        WideText::Failed(e) => Err(e.clone()),
    }
}

/// The id of a default device (see `default_device_id`).
pub fn default_device_text(w: &WideText) -> (r: Option<String>)
    ensures
        match r {
            Some(s) => default_device_id(*w) == Some(s@),
            None => default_device_id(*w) is None,
        },
{
    match w {
        WideText::Text(s) => Some(s.clone()),
        WideText::NotUtf16 { .. } => {
            let s = String::new();
            assert(s@ =~= seq![]);
            Some(s)
        },
        WideText::Failed(_) => None,
    }
}

/// What a session contributes (see `details_entry`).
pub fn session_details_entry(d: &SessionDetails) -> (r: Result<Option<(u32, String, bool)>, AudioError>)
    ensures
        match r {
            Ok(Some((pid, name, active))) => details_entry(*d) == Ok::<
                Option<(u32, Seq<char>, bool)>,
                AudioError,
            >(Some((pid, name@, active))),
            Ok(None) => details_entry(*d) == Ok::<Option<(u32, Seq<char>, bool)>, AudioError>(None),
            Err(e) => details_entry(*d) == Err::<Option<(u32, Seq<char>, bool)>, AudioError>(e),
        },
{
    let id = match &d.identity {
        Err(e) => return Err(e.clone()),
        Ok(id) => id,
    };
    let pid = match &id.process_id {
        Err(e) => return Err(e.clone()),
        Ok(p) => *p,
    };
    let name = match &id.module_name {
        Some(n) => n.clone(),
        None => match wide_text_value(&id.display_name) {
            Err(e) => return Err(e),
            Ok(n) => n,
        },
    };
    if is_system_sounds_session(name.as_str()) {
        return Ok(None);
    }
    match &d.state {
        Err(e) => Err(e.clone()),
        Ok(st) => Ok(Some((pid, name, *st == AUDIO_SESSION_STATE_ACTIVE))),
    }
}

fn session_probe_entry(p: &SessionProbe) -> (r: Result<Option<(u32, String, bool)>, AudioError>)
    ensures
        match r {
            Ok(Some((pid, name, active))) => session_entry(*p) == Ok::<
                Option<(u32, Seq<char>, bool)>,
                AudioError,
            >(Some((pid, name@, active))),
            Ok(None) => session_entry(*p) == Ok::<Option<(u32, Seq<char>, bool)>, AudioError>(None),
            Err(e) => session_entry(*p) == Err::<Option<(u32, Seq<char>, bool)>, AudioError>(e),
        },
{
    match p {
        SessionProbe::Unavailable(e) => Err(e.clone()),
        SessionProbe::Available(d) => session_details_entry(d),
    }
}

/// Whether some session is recording, and the process name of the first one
/// that is (an empty name where none is).
pub fn running_status_of(sessions: &Vec<SessionProbe>) -> (r: Result<(bool, String), AudioError>)
    ensures
        status_view(r) == running_status(sessions@),
{
    let n = sessions.len();
    let mut i: usize = 0;
    while i < n
        invariant
            n == sessions@.len(),
            i <= n,
            status_upto(sessions@, i as int) == Ok::<(bool, Seq<char>), AudioError>((false, seq![])),
        decreases n - i,
    {
        let entry = session_probe_entry(&sessions[i]);
        match entry {
            Err(e) => {
                proof {
                    lemma_status_final(sessions@, i + 1, n as int);
                }
                return Err(e);
            },
            Ok(Some((_, name, active))) => {
                if active {
                    proof {
                        lemma_status_final(sessions@, i + 1, n as int);
                    }
                    return Ok((true, name));
                }
            },
            Ok(None) => {},
        }
        i = i + 1;
    }
    let empty = String::new();
    assert(empty@ =~= seq![]);
    Ok((false, empty))
}

/// `running_status_of` for a device whose session list may have failed.
pub fn sessions_status(p: &SessionsProbe) -> (r: Result<(bool, String), AudioError>)
    ensures
        status_view(r) == sessions_running_status(*p),
{
    match p {
        SessionsProbe::ActivateFailed(e) => Err(e.clone()),
        SessionsProbe::EnumeratorFailed(e) => Err(e.clone()),
        SessionsProbe::CountFailed(e) => Err(e.clone()),
        SessionsProbe::Listed(v) => running_status_of(v),
    }
}

fn append_session_processes(
    acc: &mut Vec<AudioProcess>,
    sessions: &Vec<SessionProbe>,
    device_id: &String,
    device_name: &String,
) -> (r: Result<(), AudioError>)
    ensures
        match session_processes_upto(sessions@, sessions@.len() as int, device_id@, device_name@) {
            Ok(ps) => r is Ok && processes_view(final(acc)@) == processes_view(old(acc)@) + ps,
            Err(e) => r == Err::<(), AudioError>(e),
        },
{
    let ghost start = processes_view(acc@);
    let n = sessions.len();
    let mut i: usize = 0;
    assert(processes_view(acc@).subrange(start.len() as int, start.len() as int) =~= seq![]);
    assert(processes_view(acc@).subrange(0, start.len() as int) =~= start);
    while i < n
        invariant
            n == sessions@.len(),
            i <= n,
            session_processes_upto(sessions@, i as int, device_id@, device_name@) == Ok::<
                Seq<AudioProcessView>,
                AudioError,
            >(processes_view(acc@).subrange(start.len() as int, processes_view(acc@).len() as int)),
            processes_view(acc@).subrange(0, start.len() as int) == start,
            start.len() <= processes_view(acc@).len(),
        decreases n - i,
    {
        let entry = session_probe_entry(&sessions[i]);
        match entry {
            Err(e) => {
                proof {
                    lemma_session_processes_err(sessions@, i + 1, n as int, device_id@, device_name@);
                }
                return Err(e);
            },
            Ok(Some((pid, name, active))) => {
                let ghost before = processes_view(acc@);
                acc.push(
                    AudioProcess {
                        process_name: name,
                        process_id: pid,
                        device_id: device_id.clone(),
                        device_name: device_name.clone(),
                        is_running: active,
                    },
                );
                proof {
                    let after = processes_view(acc@);
                    assert(after =~= before.push(acc@.last()@));
                    assert(after.subrange(start.len() as int, after.len() as int) =~= before.subrange(
                        start.len() as int,
                        before.len() as int,
                    ).push(acc@.last()@));
                    assert(after.subrange(0, start.len() as int) =~= before.subrange(
                        0,
                        start.len() as int,
                    ));
                }
            },
            Ok(None) => {},
        }
        i = i + 1;
    }
    proof {
        let fin = processes_view(acc@);
        assert(fin =~= start + fin.subrange(start.len() as int, fin.len() as int));
    }
    Ok(())
}

fn append_device_processes(acc: &mut Vec<AudioProcess>, d: &DeviceProbe, index: usize) -> (r: Result<
    (),
    AudioError,
>)
    ensures
        match device_processes(*d, index as int) {
            Ok(ps) => r is Ok && processes_view(final(acc)@) == processes_view(old(acc)@) + ps,
            Err(e) => r == Err::<(), AudioError>(e),
        },
{
    match d {
        DeviceProbe::Unavailable(e) => Err(e.clone()),
        DeviceProbe::Available { id, sessions } => {
            let device_id = match wide_text_value(id) {
                Err(e) => return Err(e),
                Ok(s) => s,
            };
            let name = device_name(index);
            match sessions {
                SessionsProbe::ActivateFailed(e) => Err(e.clone()),
                SessionsProbe::EnumeratorFailed(e) => Err(e.clone()),
                SessionsProbe::CountFailed(e) => Err(e.clone()),
                SessionsProbe::Listed(v) => append_session_processes(acc, v, &device_id, &name),
            }
        },
    }
}

/// Every process that holds an audio session on an active capture device,
/// except the system-sounds session (see `audio_processes`).
pub fn list_audio_processes(probe: &EndpointsProbe) -> (r: Result<Vec<AudioProcess>, AudioError>)
    ensures
        processes_result_view(r) == audio_processes(*probe),
{
    let devices = match probe {
        EndpointsProbe::ComUnavailable(e) => return Err(e.clone()),
        EndpointsProbe::EnumeratorFailed(e) => return Err(e.clone()),
        EndpointsProbe::EndpointsFailed(e) => return Err(e.clone()),
        EndpointsProbe::CountFailed(e) => return Err(e.clone()),
        EndpointsProbe::Listed { devices, .. } => devices,
    };
    let mut acc: Vec<AudioProcess> = Vec::new();
    let n = devices.len();
    let mut i: usize = 0;
    assert(processes_view(acc@) =~= seq![]);
    while i < n
        invariant
            n == devices@.len(),
            audio_processes(*probe) == all_processes_upto(devices@, n as int),
            i <= n,
            all_processes_upto(devices@, i as int) == Ok::<Seq<AudioProcessView>, AudioError>(
                processes_view(acc@),
            ),
        decreases n - i,
    {
        let r = append_device_processes(&mut acc, &devices[i], i);
        if let Err(e) = r {
            assert(all_processes_upto(devices@, i + 1) == Err::<Seq<AudioProcessView>, AudioError>(e));
            proof {
                lemma_all_processes_err(devices@, i + 1, n as int);
            }
            return Err(e);
        }
        i = i + 1;
    }
    Ok(acc)
}

/// The processes of `list_audio_processes` that are recording, in order.
pub fn get_active_audio_processes(probe: &EndpointsProbe) -> (r: Result<Vec<AudioProcess>, AudioError>)
    ensures
        processes_result_view(r) == active_processes(*probe),
{
    let all = match list_audio_processes(probe) {
        Err(e) => return Err(e),
        Ok(v) => v,
    };
    let ghost pred = |q: AudioProcessView| q.is_running;
    let ghost all_view = processes_view(all@);
    let mut active: Vec<AudioProcess> = Vec::new();
    let n = all.len();
    let mut i: usize = 0;
    assert(processes_view(active@) =~= all_view.take(0).filter(pred));
    while i < n
        invariant
            n == all@.len(),
            i <= n,
            all_view == processes_view(all@),
            pred == (|q: AudioProcessView| q.is_running),
            processes_view(active@) == all_view.take(i as int).filter(pred),
        decreases n - i,
    {
        reveal_with_fuel(Seq::<_>::filter, 1);
        assert(all_view.take(i + 1).drop_last() =~= all_view.take(i as int));
        assert(all_view.take(i + 1).last() == all@[i as int]@);
        let ghost before = processes_view(active@);
        if all[i].is_running {
            let p = AudioProcess {
                process_name: all[i].process_name.clone(),
                process_id: all[i].process_id,
                device_id: all[i].device_id.clone(),
                device_name: all[i].device_name.clone(),
                is_running: all[i].is_running,
            };
            active.push(p);
            assert(processes_view(active@) =~= before.push(all@[i as int]@));
        }
        i = i + 1;
    }
    assert(all_view.take(n as int) =~= all_view);
    Ok(active)
}

/// Whether a process with id `pid` has a recording session; an error where the
/// walk over the devices failed.
pub fn is_process_actively_using_microphone(probe: &EndpointsProbe, pid: u32) -> (r: Result<
    bool,
    AudioError,
>)
    ensures
        match audio_processes(*probe) {
            Ok(ps) => r == Ok::<bool, AudioError>(process_recording(ps, pid)),
            Err(e) => r == Err::<bool, AudioError>(e),
        },
{
    let all = match list_audio_processes(probe) {
        Err(e) => return Err(e),
        Ok(v) => v,
    };
    let ghost ps = processes_view(all@);
    let n = all.len();
    let mut i: usize = 0;
    while i < n
        invariant
            n == all@.len(),
            i <= n,
            ps == processes_view(all@),
            audio_processes(*probe) == Ok::<Seq<AudioProcessView>, AudioError>(ps),
            forall|k: int| 0 <= k < i ==> !(#[trigger] ps[k].process_id == pid && ps[k].is_running),
        decreases n - i,
    {
        if all[i].process_id == pid && all[i].is_running {
            assert(ps[i as int] == all@[i as int]@);
            assert(ps[i as int].process_id == pid && ps[i as int].is_running);
            return Ok(true);
        }
        i = i + 1;
    }
    assert(!process_recording(ps, pid)) by {
        assert forall|k: int| 0 <= k < ps.len() implies !(#[trigger] ps[k].process_id == pid
            && ps[k].is_running) by {
            assert(k < i);
        }
    }
    Ok(false)
}

fn device_record_of(
    d: &DeviceProbe,
    index: usize,
    communications: &Option<String>,
    console: &Option<String>,
) -> (r: Result<AudioDevice, AudioError>)
    ensures
        match r {
            Ok(dev) => device_record(
                *d,
                index as int,
                optional_text(*communications),
                optional_text(*console),
            ) == Ok::<AudioDeviceView, AudioError>(dev@),
            Err(e) => device_record(
                *d,
                index as int,
                optional_text(*communications),
                optional_text(*console),
            ) == Err::<AudioDeviceView, AudioError>(e),
        },
{
    match d {
        DeviceProbe::Unavailable(e) => Err(e.clone()),
        DeviceProbe::Available { id, sessions } => {
            let device_id = match wide_text_value(id) {
                Err(e) => return Err(e),
                Ok(s) => s,
            };
            let is_default_communications = match communications {
                Some(c) => *c == device_id,
                None => false,
            };
            let is_default_console = match console {
                Some(c) => *c == device_id,
                None => false,
            };
            let status = sessions_status(sessions);
            match status {
                Err(e) => Err(e),
                Ok((active, _)) => Ok(
                    AudioDevice {
                        device_id,
                        device_name: device_name(index),
                        is_default_communications,
                        is_default_console,
                        has_active_sessions: active,
                    },
                ),
            }
        },
    }
}

pub open spec fn optional_text(o: Option<String>) -> Option<Seq<char>> {
    match o {
        Some(s) => Some(s@),
        None => None,
    }
}

/// Every active capture device (see `audio_devices`).
pub fn list_audio_devices(probe: &EndpointsProbe) -> (r: Result<Vec<AudioDevice>, AudioError>)
    ensures
        devices_result_view(r) == audio_devices(*probe),
{
    let (devices, comm_w, console_w) = match probe {
        EndpointsProbe::ComUnavailable(e) => return Err(e.clone()),
        EndpointsProbe::EnumeratorFailed(e) => return Err(e.clone()),
        EndpointsProbe::EndpointsFailed(e) => return Err(e.clone()),
        EndpointsProbe::CountFailed(e) => return Err(e.clone()),
        EndpointsProbe::Listed { devices, default_communications, default_console } => (
            devices,
            default_communications,
            default_console,
        ),
    };
    let communications = default_device_text(comm_w);
    let console = default_device_text(console_w);
    assert(optional_text(communications) == default_device_id(*comm_w));
    assert(optional_text(console) == default_device_id(*console_w));
    let mut acc: Vec<AudioDevice> = Vec::new();
    let n = devices.len();
    let mut i: usize = 0;
    assert(devices_view(acc@) =~= seq![]);
    while i < n
        invariant
            n == devices@.len(),
            audio_devices(*probe) == devices_upto(
                devices@,
                n as int,
                optional_text(communications),
                optional_text(console),
            ),
            i <= n,
            devices_upto(devices@, i as int, optional_text(communications), optional_text(console))
                == Ok::<Seq<AudioDeviceView>, AudioError>(devices_view(acc@)),
        decreases n - i,
    {
        let r = device_record_of(&devices[i], i, &communications, &console);
        match r {
            Err(e) => {
                assert(devices_upto(devices@, i + 1, optional_text(communications), optional_text(console))
                    == Err::<Seq<AudioDeviceView>, AudioError>(e));
                proof {
                    lemma_devices_err(
                        devices@,
                        i + 1,
                        n as int,
                        optional_text(communications),
                        optional_text(console),
                    );
                }
                return Err(e);
            },
            Ok(dev) => {
                let ghost before = devices_view(acc@);
                acc.push(dev);
                assert(devices_view(acc@) =~= before.push(dev@));
            },
        }
        i = i + 1;
    }
    Ok(acc)
}

} // verus!
