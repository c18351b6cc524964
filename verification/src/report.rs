//! The diagnostic report on whether one process is recording: a line per
//! device and per session, tolerant of failing queries.
use vstd::prelude::*;
use vstd::string::*;
use crate::audio::{
    all_processes_upto, audio_processes, device_label, device_processes, is_system_sounds,
    process_recording, session_entry, session_name, session_processes_upto, wide_text_result,
    AudioError, AudioProcessView, DeviceProbe, EndpointsProbe, SessionIdentity, SessionProbe,
    SessionsProbe, WideText, AUDIO_SESSION_STATE_ACTIVE,
};
use crate::text::{append_decimal, append_signed_decimal, decimal, signed_decimal};

verus! {

pub open spec fn bool_text(b: bool) -> Seq<char> {
    if b {
        "true"@
    } else {
        "false"@
    }
}

/// How a session state prints (`AudioSessionState(n)`).
pub open spec fn state_text(st: i32) -> Seq<char> {
    "AudioSessionState("@ + signed_decimal(st as int) + ")"@
}

/// `prefix`, the message and a line break.
pub open spec fn failure_line0(prefix: Seq<char>, msg: Seq<char>) -> Seq<char> {
    prefix + msg + "\n"@
}

/// `prefix`, the number `a`, `: `, the message and a line break.
pub open spec fn failure_line1(prefix: Seq<char>, a: nat, msg: Seq<char>) -> Seq<char> {
    prefix + decimal(a) + ": "@ + msg + "\n"@
}

/// `prefix`, `a`, `mid`, `b`, `: `, the message and a line break.
pub open spec fn failure_line2(prefix: Seq<char>, a: nat, mid: Seq<char>, b: nat, msg: Seq<char>) -> Seq<
    char,
> {
    prefix + decimal(a) + mid + decimal(b) + ": "@ + msg + "\n"@
}

/// The name the report gives a session's process: the executable's file name,
/// else the display name, else `PID_` and the process id.
pub open spec fn report_name(id: SessionIdentity, pid: u32) -> Seq<char> {
    match id.module_name {
        Some(n) => n@,
        None => match id.display_name {
            WideText::Text(s) => s@,
            _ => "PID_"@ + decimal(pid as nat),
        },
    }
}

pub open spec fn session_line(idx: nat, spid: u32, name: Seq<char>, st: i32) -> Seq<char> {
    "    Session "@ + decimal(idx) + ": PID="@ + decimal(spid as nat) + ", Name="@ + name + ", State="@
        + state_text(st) + ", Active="@ + bool_text(st == AUDIO_SESSION_STATE_ACTIVE) + "\n"@
}

pub open spec fn found_line(pid: u32, st: i32) -> Seq<char> {
    "    *** FOUND TARGET PID "@ + decimal(pid as nat) + " with state "@ + state_text(st) + " (active="@
        + bool_text(st == AUDIO_SESSION_STATE_ACTIVE) + ")\n"@
}

/// The report of session `idx` on device `dev`, and whether it ends the
/// report (the session belongs to `pid` and is recording).
pub open spec fn session_report(p: SessionProbe, idx: nat, dev: nat, pid: u32) -> (Seq<char>, bool) {
    match p {
        SessionProbe::Unavailable(e) => (
            failure_line2("  Failed to get session "@, idx, " for device "@, dev, e.message@),
            false,
        ),
        SessionProbe::Available(d) => match d.state {
            Err(e) => (
                failure_line2(
                    "  Failed to get state for session "@,
                    idx,
                    " on device "@,
                    dev,
                    e.message@,
                ),
                false,
            ),
            Ok(st) => match d.identity {
                Err(e) => (
                    failure_line2(
                        "  Failed to cast to IAudioSessionControl2 for session "@,
                        idx,
                        " on device "@,
                        dev,
                        e.message@,
                    ),
                    false,
                ),
                Ok(id) => match id.process_id {
                    Err(e) => (
                        failure_line2(
                            "  Failed to get process ID for session "@,
                            idx,
                            " on device "@,
                            dev,
                            e.message@,
                        ),
                        false,
                    ),
                    Ok(spid) => {
                        let line = session_line(idx, spid, report_name(id, spid), st);
                        if spid == pid {
                            if st == AUDIO_SESSION_STATE_ACTIVE {
                                (line + found_line(pid, st) + "    *** RETURNING TRUE\n"@, true)
                            } else {
                                (line + found_line(pid, st), false)
                            }
                        } else {
                            (line, false)
                        }
                    },
                },
            },
        },
    }
}

pub open spec fn sessions_report_upto(s: Seq<SessionProbe>, n: int, dev: nat, pid: u32) -> (Seq<char>, bool)
    decreases n,
{
    if n <= 0 {
        (seq![], false)
    } else {
        let (log, done) = sessions_report_upto(s, n - 1, dev, pid);
        if done {
            (log, true)
        } else {
            let (l, d) = session_report(s[n - 1], (n - 1) as nat, dev, pid);
            (log + l, d)
        }
    }
}

pub open spec fn device_head(i: nat, id: Seq<char>) -> Seq<char> {
    "Device "@ + decimal(i) + ": "@ + id + "\n"@
}

pub open spec fn session_count_line(i: nat, count: nat) -> Seq<char> {
    "  Device "@ + decimal(i) + " has "@ + decimal(count) + " sessions\n"@
}

/// The report of the device at position `i`, and whether it ends the report.
pub open spec fn device_report(d: DeviceProbe, i: nat, pid: u32) -> (Seq<char>, bool) {
    match d {
        DeviceProbe::Unavailable(e) => (failure_line1("Failed to get device "@, i, e.message@), false),
        DeviceProbe::Available { id, sessions } => match id {
            WideText::Failed(e) => (failure_line0("Failed to get device ID: "@, e.message@), false),
            WideText::NotUtf16 { description, .. } => (
                failure_line0("Failed to convert device ID to string: "@, description@),
                false,
            ),
            WideText::Text(s) => match sessions {
                SessionsProbe::ActivateFailed(e) => (
                    device_head(i, s@) + failure_line1("Failed to activate device "@, i, e.message@),
                    false,
                ),
                SessionsProbe::EnumeratorFailed(e) => (
                    device_head(i, s@) + failure_line1(
                        "Failed to get session enumerator for device "@,
                        i,
                        e.message@,
                    ),
                    false,
                ),
                SessionsProbe::CountFailed(e) => (
                    device_head(i, s@) + failure_line1(
                        "Failed to get session count for device "@,
                        i,
                        e.message@,
                    ),
                    false,
                ),
                SessionsProbe::Listed(v) => {
                    let (l, done) = sessions_report_upto(v@, v@.len() as int, i, pid);
                    (device_head(i, s@) + session_count_line(i, v@.len()) + l, done)
                },
            },
        },
    }
}

pub open spec fn devices_report_upto(devs: Seq<DeviceProbe>, n: int, pid: u32) -> (Seq<char>, bool)
    decreases n,
{
    if n <= 0 {
        (seq![], false)
    } else {
        let (log, done) = devices_report_upto(devs, n - 1, pid);
        if done {
            (log, true)
        } else {
            let (l, d) = device_report(devs[n - 1], (n - 1) as nat, pid);
            (log + l, d)
        }
    }
}

/// The whole report on `pid`: a header, then either the failure that stopped
/// the walk over the devices or a report per device, ending at the first
/// recording session of `pid` or with a line saying that none was found.
/// Only a failure to initialise COM makes it an error.
pub open spec fn debug_report(pid: u32, p: EndpointsProbe) -> Result<Seq<char>, AudioError> {
    let header = "Checking PID "@ + decimal(pid as nat) + "\n"@;
    match p {
        EndpointsProbe::ComUnavailable(e) => Err(e),
        EndpointsProbe::EnumeratorFailed(e) => Ok(
            header + failure_line0("Failed to create enumerator: "@, e.message@),
        ),
        EndpointsProbe::EndpointsFailed(e) => Ok(
            header + failure_line0("Failed to enumerate endpoints: "@, e.message@),
        ),
        EndpointsProbe::CountFailed(e) => Ok(
            header + failure_line0("Failed to get device count: "@, e.message@),
        ),
        EndpointsProbe::Listed { devices, .. } => {
            let found = "Found "@ + decimal(devices@.len()) + " capture devices\n"@;
            let (l, done) = devices_report_upto(devices@, devices@.len() as int, pid);
            if done {
                Ok(header + found + l)
            } else {
                Ok(
                    header + found + l + ("PID "@ + decimal(pid as nat)
                        + " not found in any active sessions\n"@),
                )
            }
        },
    }
}

// ---------------------------------------------------------------------------
// The session lines name the process as the process list does.

/// The name a session line gives the session's process: the name the process
/// list gives it (the executable's file name, else a text display name), or
/// `PID_<pid>` only where neither can be read.
pub open spec fn expected_session_line_name(id: SessionIdentity, spid: u32) -> Seq<char> {
    match session_name(id) {
        Ok(n) => n,
        Err(_) => "PID_"@ + decimal(spid as nat),
    }
}

/// The report on an answered session begins with its line, naming the
/// process as the process list does (see `expected_session_line_name`).
pub proof fn lemma_session_line_names_the_process(p: SessionProbe, idx: nat, dev: nat, pid: u32)
    requires
        p is Available,
        p->Available_0.state is Ok,
        p->Available_0.identity is Ok,
        p->Available_0.identity->Ok_0.process_id is Ok,
    ensures
        ({
            let id = p->Available_0.identity->Ok_0;
            let spid = id.process_id->Ok_0;
            let head = "    Session "@ + decimal(idx) + ": PID="@ + decimal(spid as nat) + ", Name="@
                + expected_session_line_name(id, spid) + ", State="@;
            &&& head.len() <= session_report(p, idx, dev, pid).0.len()
            &&& session_report(p, idx, dev, pid).0.subrange(0, head.len() as int) == head
        }),
{
    let d = p->Available_0;
    let st = d.state->Ok_0;
    let id = d.identity->Ok_0;
    let spid = id.process_id->Ok_0;
    assert(report_name(id, spid) == expected_session_line_name(id, spid));
    let head = "    Session "@ + decimal(idx) + ": PID="@ + decimal(spid as nat) + ", Name="@
        + expected_session_line_name(id, spid) + ", State="@;
    let line = session_line(idx, spid, report_name(id, spid), st);
    let r = session_report(p, idx, dev, pid).0;
    let rest = state_text(st) + ", Active="@ + bool_text(st == AUDIO_SESSION_STATE_ACTIVE) + "\n"@;
    assert(line =~= head + rest);
    if spid == pid {
        if st == AUDIO_SESSION_STATE_ACTIVE {
            assert(r == line + found_line(pid, st) + returning_true_line());
            assert(r =~= head + (rest + found_line(pid, st) + returning_true_line()));
        } else {
            assert(r =~= head + (rest + found_line(pid, st)));
        }
    } else {
        assert(r == head + rest);
    }
    assert(r.subrange(0, head.len() as int) =~= head);
}

// ---------------------------------------------------------------------------
// The report agrees with the recording check.

/// The line that ends a report that found `pid` recording.
pub open spec fn returning_true_line() -> Seq<char> {
    "    *** RETURNING TRUE\n"@
}

pub open spec fn ends_with(s: Seq<char>, t: Seq<char>) -> bool {
    t.len() <= s.len() && s.subrange(s.len() - t.len(), s.len() as int) == t
}

/// The session belongs to `pid` and is recording.
pub open spec fn session_records(p: SessionProbe, pid: u32) -> bool {
    &&& p matches SessionProbe::Available(d)
    &&& d.state matches Ok(st)
    &&& st == AUDIO_SESSION_STATE_ACTIVE
    &&& d.identity matches Ok(id)
    &&& id.process_id == Ok::<u32, AudioError>(pid)
}

/// Every query of the session succeeds, and where it belongs to `pid` it is
/// not the system-sounds session.
pub open spec fn session_answers(p: SessionProbe, pid: u32) -> bool {
    &&& p matches SessionProbe::Available(d)
    &&& d.state is Ok
    &&& d.identity matches Ok(id)
    &&& id.process_id matches Ok(spid)
    &&& session_name(id) matches Ok(name)
    &&& spid == pid ==> !is_system_sounds(name)
}

/// Every query of the device and of its sessions succeeds (see
/// `session_answers`).
pub open spec fn device_answers(d: DeviceProbe, pid: u32) -> bool {
    &&& d matches DeviceProbe::Available { id, sessions }
    &&& id is Text
    &&& sessions matches SessionsProbe::Listed(v)
    &&& forall|k: int| 0 <= k < v@.len() ==> session_answers(#[trigger] v@[k], pid)
}

/// Every query of the walk over the devices succeeds (see `device_answers`).
pub open spec fn endpoints_answer(p: EndpointsProbe, pid: u32) -> bool {
    &&& p matches EndpointsProbe::Listed { devices, .. }
    &&& forall|j: int| 0 <= j < devices@.len() ==> device_answers(#[trigger] devices@[j], pid)
}

/// Some session of the device belongs to `pid` and is recording.
pub open spec fn device_records(d: DeviceProbe, pid: u32) -> bool {
    &&& d matches DeviceProbe::Available { sessions, .. }
    &&& sessions matches SessionsProbe::Listed(v)
    &&& exists|k: int| 0 <= k < v@.len() && session_records(#[trigger] v@[k], pid)
}

proof fn lemma_ends_with_append(a: Seq<char>, b: Seq<char>, t: Seq<char>)
    requires
        ends_with(b, t),
    ensures
        ends_with(a + b, t),
{
    assert((a + b).subrange((a + b).len() - t.len(), (a + b).len() as int) =~= b.subrange(
        b.len() - t.len(),
        b.len() as int,
    ));
}

proof fn lemma_ends_with_itself(a: Seq<char>, t: Seq<char>)
    ensures
        ends_with(a + t, t),
{
    assert(t.subrange(0, t.len() as int) =~= t);
    lemma_ends_with_append(a, t, t);
}

proof fn lemma_recording_push(ps: Seq<AudioProcessView>, x: AudioProcessView, pid: u32)
    ensures
        process_recording(ps.push(x), pid) == (process_recording(ps, pid) || (x.process_id == pid
            && x.is_running)),
{
    let q = ps.push(x);
    if process_recording(q, pid) {
        let k = choose|k: int| 0 <= k < q.len() && #[trigger] q[k].process_id == pid && q[k].is_running;
        if k < ps.len() {
            assert(q[k] == ps[k]);
        }
    }
    if process_recording(ps, pid) {
        let k = choose|k: int| 0 <= k < ps.len() && #[trigger] ps[k].process_id == pid && ps[k].is_running;
        assert(q[k] == ps[k]);
    }
    if x.process_id == pid && x.is_running {
        assert(q[ps.len() as int] == x);
    }
}

proof fn lemma_recording_concat(a: Seq<AudioProcessView>, b: Seq<AudioProcessView>, pid: u32)
    ensures
        process_recording(a + b, pid) == (process_recording(a, pid) || process_recording(b, pid)),
{
    let q = a + b;
    if process_recording(q, pid) {
        let k = choose|k: int| 0 <= k < q.len() && #[trigger] q[k].process_id == pid && q[k].is_running;
        if k < a.len() {
            assert(q[k] == a[k]);
        } else {
            assert(q[k] == b[k - a.len()]);
        }
    }
    if process_recording(a, pid) {
        let k = choose|k: int| 0 <= k < a.len() && #[trigger] a[k].process_id == pid && a[k].is_running;
        assert(q[k] == a[k]);
    }
    if process_recording(b, pid) {
        let k = choose|k: int| 0 <= k < b.len() && #[trigger] b[k].process_id == pid && b[k].is_running;
        assert(q[a.len() + k] == b[k]);
    }
}

proof fn lemma_session_agrees(p: SessionProbe, idx: nat, dev: nat, pid: u32)
    requires
        session_answers(p, pid),
    ensures
        session_report(p, idx, dev, pid).1 == session_records(p, pid),
        session_report(p, idx, dev, pid).1 ==> ends_with(
            session_report(p, idx, dev, pid).0,
            returning_true_line(),
        ),
        session_entry(p) is Ok,
        session_entry(p) matches Ok(Some((spid, _, act))) ==> ((spid == pid && act) == session_records(
            p,
            pid,
        )),
        session_entry(p) matches Ok(None) ==> !session_records(p, pid),
{
    if let SessionProbe::Available(d) = p {
        if let Ok(st) = d.state {
            if let Ok(id) = d.identity {
                if let Ok(spid) = id.process_id {
                    if spid == pid && st == AUDIO_SESSION_STATE_ACTIVE {
                        let line = session_line(idx, spid, report_name(id, spid), st);
                        lemma_ends_with_itself(line + found_line(pid, st), returning_true_line());
                    }
                }
            }
        }
    }
}

proof fn lemma_sessions_agree(
    s: Seq<SessionProbe>,
    n: int,
    dev: nat,
    pid: u32,
    device_id: Seq<char>,
    device_name: Seq<char>,
)
    requires
        0 <= n <= s.len(),
        forall|k: int| 0 <= k < s.len() ==> session_answers(#[trigger] s[k], pid),
    ensures
        sessions_report_upto(s, n, dev, pid).1 == exists|k: int| 0 <= k < n && session_records(#[trigger] s[k], pid),
        sessions_report_upto(s, n, dev, pid).1 ==> ends_with(
            sessions_report_upto(s, n, dev, pid).0,
            returning_true_line(),
        ),
        session_processes_upto(s, n, device_id, device_name) is Ok,
        process_recording(session_processes_upto(s, n, device_id, device_name)->Ok_0, pid) == exists|k: int|
            0 <= k < n && session_records(#[trigger] s[k], pid),
    decreases n,
{
    if n > 0 {
        lemma_sessions_agree(s, n - 1, dev, pid, device_id, device_name);
        assert(session_answers(s[n - 1], pid));
        lemma_session_agrees(s[n - 1], (n - 1) as nat, dev, pid);
        let (log, done) = sessions_report_upto(s, n - 1, dev, pid);
        let (l, d) = session_report(s[n - 1], (n - 1) as nat, dev, pid);
        if !done && d {
            lemma_ends_with_append(log, l, returning_true_line());
        }
        let prev = session_processes_upto(s, n - 1, device_id, device_name)->Ok_0;
        if let Ok(Some((spid, name, act))) = session_entry(s[n - 1]) {
            lemma_recording_push(
                prev,
                AudioProcessView {
                    process_name: name,
                    process_id: spid,
                    device_id: device_id,
                    device_name: device_name,
                    is_running: act,
                },
                pid,
            );
        }
        let e = exists|k: int| 0 <= k < n && session_records(#[trigger] s[k], pid);
        let e1 = exists|k: int| 0 <= k < n - 1 && session_records(#[trigger] s[k], pid);
        assert(e == (e1 || session_records(s[n - 1], pid))) by {
            if e {
                let k = choose|k: int| 0 <= k < n && session_records(#[trigger] s[k], pid);
                if k < n - 1 {
                    assert(e1);
                }
            }
        }
    }
}

proof fn lemma_device_agrees(d: DeviceProbe, i: nat, pid: u32)
    requires
        device_answers(d, pid),
    ensures
        device_report(d, i, pid).1 == device_records(d, pid),
        device_report(d, i, pid).1 ==> ends_with(device_report(d, i, pid).0, returning_true_line()),
        device_processes(d, i as int) is Ok,
        process_recording(device_processes(d, i as int)->Ok_0, pid) == device_records(d, pid),
{
    if let DeviceProbe::Available { id, sessions } = d {
        if let WideText::Text(t) = id {
            if let SessionsProbe::Listed(v) = sessions {
                lemma_sessions_agree(v@, v@.len() as int, i, pid, t@, device_label(i as int));
                let (l, done) = sessions_report_upto(v@, v@.len() as int, i, pid);
                if done {
                    lemma_ends_with_append(device_head(i, t@) + session_count_line(i, v@.len()), l, returning_true_line());
                }
            }
        }
    }
}

proof fn lemma_devices_agree(devs: Seq<DeviceProbe>, n: int, pid: u32)
    requires
        0 <= n <= devs.len(),
        forall|j: int| 0 <= j < devs.len() ==> device_answers(#[trigger] devs[j], pid),
    ensures
        devices_report_upto(devs, n, pid).1 == exists|j: int| 0 <= j < n && device_records(#[trigger] devs[j], pid),
        devices_report_upto(devs, n, pid).1 ==> ends_with(devices_report_upto(devs, n, pid).0, returning_true_line()),
        all_processes_upto(devs, n) is Ok,
        process_recording(all_processes_upto(devs, n)->Ok_0, pid) == exists|j: int|
            0 <= j < n && device_records(#[trigger] devs[j], pid),
    decreases n,
{
    if n > 0 {
        lemma_devices_agree(devs, n - 1, pid);
        assert(device_answers(devs[n - 1], pid));
        lemma_device_agrees(devs[n - 1], (n - 1) as nat, pid);
        let (log, done) = devices_report_upto(devs, n - 1, pid);
        let (l, d) = device_report(devs[n - 1], (n - 1) as nat, pid);
        if !done && d {
            lemma_ends_with_append(log, l, returning_true_line());
        }
        lemma_recording_concat(
            all_processes_upto(devs, n - 1)->Ok_0,
            device_processes(devs[n - 1], n - 1)->Ok_0,
            pid,
        );
        let e = exists|j: int| 0 <= j < n && device_records(#[trigger] devs[j], pid);
        let e1 = exists|j: int| 0 <= j < n - 1 && device_records(#[trigger] devs[j], pid);
        assert(e == (e1 || device_records(devs[n - 1], pid))) by {
            if e {
                let j = choose|j: int| 0 <= j < n && device_records(#[trigger] devs[j], pid);
                if j < n - 1 {
                    assert(e1);
                }
            }
        }
    }
}

/// Where every query succeeds and no session of `pid` is the system-sounds
/// session, the report ends with the `RETURNING TRUE` line exactly when the
/// recording check finds `pid` recording.
pub proof fn lemma_report_agrees_with_recording_check(p: EndpointsProbe, pid: u32)
    requires
        endpoints_answer(p, pid),
    ensures
        debug_report(pid, p) is Ok,
        audio_processes(p) is Ok,
        ends_with(debug_report(pid, p)->Ok_0, returning_true_line()) == process_recording(
            audio_processes(p)->Ok_0,
            pid,
        ),
{
    if let EndpointsProbe::Listed { devices, .. } = p {
        let devs = devices@;
        lemma_devices_agree(devs, devs.len() as int, pid);
        let header = "Checking PID "@ + decimal(pid as nat) + "\n"@;
        let found = "Found "@ + decimal(devs.len()) + " capture devices\n"@;
        let (l, done) = devices_report_upto(devs, devs.len() as int, pid);
        if done {
            lemma_ends_with_append(header + found, l, returning_true_line());
        } else {
            let tail = " not found in any active sessions\n"@;
            let last = "PID "@ + decimal(pid as nat) + tail;
            let r = header + found + l + last;
            assert(r == debug_report(pid, p)->Ok_0);
            reveal_strlit(" not found in any active sessions\n");
            reveal_strlit("    *** RETURNING TRUE\n");
            if ends_with(r, returning_true_line()) {
                let t = returning_true_line();
                assert(r.subrange(r.len() - t.len(), r.len() as int)[t.len() - 2] == r[r.len() - 2]);
                assert(r[r.len() - 2] == last[last.len() - 2]);
                assert(last[last.len() - 2] == tail[tail.len() - 2]);
                assert(t[t.len() - 2] == 'E');
                assert(tail[tail.len() - 2] == 's');
            }
        }
    }
}

proof fn lemma_sessions_done(s: Seq<SessionProbe>, k: int, m: int, dev: nat, pid: u32)
    requires
        0 <= k <= m,
        sessions_report_upto(s, k, dev, pid).1,
    ensures
        sessions_report_upto(s, m, dev, pid) == sessions_report_upto(s, k, dev, pid),
    decreases m - k,
{
    if m > k {
        lemma_sessions_done(s, k, m - 1, dev, pid);
    }
}

proof fn lemma_devices_done(devs: Seq<DeviceProbe>, k: int, m: int, pid: u32)
    requires
        0 <= k <= m,
        devices_report_upto(devs, k, pid).1,
    ensures
        devices_report_upto(devs, m, pid) == devices_report_upto(devs, k, pid),
    decreases m - k,
{
    if m > k {
        lemma_devices_done(devs, k, m - 1, pid);
    }
}

fn failure_text0(prefix: &str, msg: &String) -> (s: String)
    ensures
        s@ == failure_line0(prefix@, msg@),
{
    let mut s = String::from_str(prefix);
    s.append(msg.as_str());
    s.append("\n");
    s
}

fn failure_text1(prefix: &str, a: u64, msg: &String) -> (s: String)
    ensures
        s@ == failure_line1(prefix@, a as nat, msg@),
{
    let mut s = String::from_str(prefix);
    append_decimal(&mut s, a);
    s.append(": ");
    s.append(msg.as_str());
    s.append("\n");
    s
}

fn failure_text2(prefix: &str, a: u64, mid: &str, b: u64, msg: &String) -> (s: String)
    ensures
        s@ == failure_line2(prefix@, a as nat, mid@, b as nat, msg@),
{
    let mut s = String::from_str(prefix);
    append_decimal(&mut s, a);
    s.append(mid);
    append_decimal(&mut s, b);
    s.append(": ");
    s.append(msg.as_str());
    s.append("\n");
    s
}

fn append_bool(s: &mut String, b: bool)
    ensures
        final(s)@ == old(s)@ + bool_text(b),
{
    if b {
        s.append("true");
    } else {
        s.append("false");
    }
}

fn append_state(s: &mut String, st: i32)
    ensures
        final(s)@ == old(s)@ + state_text(st),
{
    let ghost start = s@;
    s.append("AudioSessionState(");
    append_signed_decimal(s, st as i64);
    s.append(")");
    assert(s@ =~= start + state_text(st));
}

fn report_name_text(id: &SessionIdentity, pid: u32) -> (s: String)
    ensures
        s@ == report_name(*id, pid),
{
    match &id.module_name {
        Some(n) => n.clone(),
        None => match &id.display_name {
            WideText::Text(t) => t.clone(),
            _ => {
                let mut s = String::from_str("PID_");
                append_decimal(&mut s, pid as u64);
                s
            },
        },
    }
}

fn session_report_text(p: &SessionProbe, idx: usize, dev: usize, pid: u32) -> (r: (String, bool))
    ensures
        (r.0@, r.1) == session_report(*p, idx as nat, dev as nat, pid),
{
    match p {
        SessionProbe::Unavailable(e) => (
            failure_text2("  Failed to get session ", idx as u64, " for device ", dev as u64, &e.message),
            false,
        ),
        SessionProbe::Available(d) => match &d.state {
            Err(e) => (
                failure_text2(
                    "  Failed to get state for session ",
                    idx as u64,
                    " on device ",
                    dev as u64,
                    &e.message,
                ),
                false,
            ),
            Ok(st) => match &d.identity {
                Err(e) => (
                    failure_text2(
                        "  Failed to cast to IAudioSessionControl2 for session ",
                        idx as u64,
                        " on device ",
                        dev as u64,
                        &e.message,
                    ),
                    false,
                ),
                Ok(id) => match &id.process_id {
                    Err(e) => (
                        failure_text2(
                            "  Failed to get process ID for session ",
                            idx as u64,
                            " on device ",
                            dev as u64,
                            &e.message,
                        ),
                        false,
                    ),
                    Ok(spid) => {
                        let spid = *spid;
                        let st = *st;
                        let active = st == AUDIO_SESSION_STATE_ACTIVE;
                        let name = report_name_text(id, spid);
                        let mut line = String::from_str("    Session ");
                        append_decimal(&mut line, idx as u64);
                        line.append(": PID=");
                        append_decimal(&mut line, spid as u64);
                        line.append(", Name=");
                        line.append(name.as_str());
                        line.append(", State=");
                        append_state(&mut line, st);
                        line.append(", Active=");
                        append_bool(&mut line, active);
                        line.append("\n");
                        assert(line@ =~= session_line(idx as nat, spid, report_name(*id, spid), st));
                        if spid == pid {
                            let ghost before = line@;
                            line.append("    *** FOUND TARGET PID ");
                            append_decimal(&mut line, pid as u64);
                            line.append(" with state ");
                            append_state(&mut line, st);
                            line.append(" (active=");
                            append_bool(&mut line, active);
                            line.append(")\n");
                            assert(line@ =~= before + found_line(pid, st));
                            if active {
                                line.append("    *** RETURNING TRUE\n");
                                (line, true)
                            } else {
                                (line, false)
                            }
                        } else {
                            (line, false)
                        }
                    },
                },
            },
        },
    }
}

#[verifier::loop_isolation(false)]
fn sessions_report_text(v: &Vec<SessionProbe>, dev: usize, pid: u32, out: &mut String) -> (done: bool)
    ensures
        (final(out)@, done) == ({
            let (l, d) = sessions_report_upto(v@, v@.len() as int, dev as nat, pid);
            (old(out)@ + l, d)
        }),
{
    let ghost start = out@;
    let n = v.len();
    let mut i: usize = 0;
    assert(out@ =~= start + seq![]);
    while i < n
        invariant
            n == v@.len(),
            i <= n,
            !sessions_report_upto(v@, i as int, dev as nat, pid).1,
            out@ == start + sessions_report_upto(v@, i as int, dev as nat, pid).0,
        decreases n - i,
    {
        let ghost before = out@;
        let (piece, stop) = session_report_text(&v[i], i, dev, pid);
        out.append(piece.as_str());
        assert(out@ =~= start + sessions_report_upto(v@, i + 1, dev as nat, pid).0);
        if stop {
            proof {
                lemma_sessions_done(v@, i + 1, n as int, dev as nat, pid);
            }
            return true;
        }
        i = i + 1;
    }
    false
}

fn device_report_text(d: &DeviceProbe, i: usize, pid: u32, out: &mut String) -> (done: bool)
    ensures
        (final(out)@, done) == ({
            let (l, dn) = device_report(*d, i as nat, pid);
            (old(out)@ + l, dn)
        }),
{
    let ghost start = out@;
    match d {
        DeviceProbe::Unavailable(e) => {
            out.append(failure_text1("Failed to get device ", i as u64, &e.message).as_str());
            false
        },
        DeviceProbe::Available { id, sessions } => match id {
            WideText::Failed(e) => {
                out.append(failure_text0("Failed to get device ID: ", &e.message).as_str());
                false
            },
            WideText::NotUtf16 { description, .. } => {
                out.append(
                    failure_text0("Failed to convert device ID to string: ", description).as_str(),
                );
                false
            },
            WideText::Text(s) => {
                let mut head = String::from_str("Device ");
                append_decimal(&mut head, i as u64);
                head.append(": ");
                head.append(s.as_str());
                head.append("\n");
                out.append(head.as_str());
                match sessions {
                    SessionsProbe::ActivateFailed(e) => {
                        out.append(
                            failure_text1("Failed to activate device ", i as u64, &e.message).as_str(),
                        );
                        assert(out@ =~= start + device_report(*d, i as nat, pid).0);
                        false
                    },
                    SessionsProbe::EnumeratorFailed(e) => {
                        out.append(
                            failure_text1(
                                "Failed to get session enumerator for device ",
                                i as u64,
                                &e.message,
                            ).as_str(),
                        );
                        assert(out@ =~= start + device_report(*d, i as nat, pid).0);
                        false
                    },
                    SessionsProbe::CountFailed(e) => {
                        out.append(
                            failure_text1(
                                "Failed to get session count for device ",
                                i as u64,
                                &e.message,
                            ).as_str(),
                        );
                        assert(out@ =~= start + device_report(*d, i as nat, pid).0);
                        false
                    },
                    SessionsProbe::Listed(v) => {
                        let mut count = String::from_str("  Device ");
                        append_decimal(&mut count, i as u64);
                        count.append(" has ");
                        append_decimal(&mut count, v.len() as u64);
                        count.append(" sessions\n");
                        out.append(count.as_str());
                        let done = sessions_report_text(v, i, pid, out);
                        assert(out@ =~= start + device_report(*d, i as nat, pid).0);
                        done
                    },
                }
            },
        },
    }
}

/// The diagnostic report on whether process `pid` is recording (see
/// `debug_report`).
#[verifier::loop_isolation(false)]
pub fn debug_is_process_actively_using_microphone(pid: u32, probe: &EndpointsProbe) -> (r: Result<
    String,
    AudioError,
>)
    ensures
        match r {
            Ok(s) => debug_report(pid, *probe) == Ok::<Seq<char>, AudioError>(s@),
            Err(e) => debug_report(pid, *probe) == Err::<Seq<char>, AudioError>(e),
        },
{
    let mut out = String::from_str("Checking PID ");
    append_decimal(&mut out, pid as u64);
    out.append("\n");
    let ghost header = out@;
    match probe {
        EndpointsProbe::ComUnavailable(e) => Err(e.clone()),
        EndpointsProbe::EnumeratorFailed(e) => {
            out.append(failure_text0("Failed to create enumerator: ", &e.message).as_str());
            Ok(out)
        },
        EndpointsProbe::EndpointsFailed(e) => {
            out.append(failure_text0("Failed to enumerate endpoints: ", &e.message).as_str());
            Ok(out)
        },
        EndpointsProbe::CountFailed(e) => {
            out.append(failure_text0("Failed to get device count: ", &e.message).as_str());
            Ok(out)
        },
        EndpointsProbe::Listed { devices, .. } => {
            let mut found = String::from_str("Found ");
            append_decimal(&mut found, devices.len() as u64);
            found.append(" capture devices\n");
            out.append(found.as_str());
            let ghost base = out@;
            let n = devices.len();
            let mut i: usize = 0;
            assert(out@ =~= base + seq![]);
            while i < n
                invariant
                    n == devices@.len(),
                    i <= n,
                    !devices_report_upto(devices@, i as int, pid).1,
                    out@ == base + devices_report_upto(devices@, i as int, pid).0,
                decreases n - i,
            {
                let stop = device_report_text(&devices[i], i, pid, &mut out);
                assert(out@ =~= base + devices_report_upto(devices@, i + 1, pid).0);
                if stop {
                    proof {
                        lemma_devices_done(devices@, i + 1, n as int, pid);
                    }
                    assert(out@ =~= header + found@ + devices_report_upto(devices@, n as int, pid).0);
                    return Ok(out);
                }
                i = i + 1;
            }
            let ghost before = out@;
            let mut tail = String::from_str("PID ");
            append_decimal(&mut tail, pid as u64);
            tail.append(" not found in any active sessions\n");
            out.append(tail.as_str());
            assert(out@ =~= header + found@ + devices_report_upto(devices@, n as int, pid).0 + tail@);
            Ok(out)
        },
    }
}

} // verus!
