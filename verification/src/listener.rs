//! The microphone listener: whether any capture session is recording, and
//! what it tells its subscriber when sessions appear or change state.
use vstd::prelude::*;
use crate::watch::recording_now;
use crate::audio::{
    details_entry, device_label, device_name, is_process_actively_using_microphone, sessions_running_status, sessions_status,
    session_details_entry, AudioError, EndpointsProbe, SessionDetails, SessionsProbe,
    AUDIO_SESSION_STATE_ACTIVE,
};

verus! {

/// What the listener tells its subscriber: whether a microphone is recording,
/// and the session and device that the news is about.
#[derive(Debug)]
pub struct MicrophoneActivateCallback {
    pub is_running: bool,
    pub process_name: String,
    pub device_id: String,
    pub device_name: String,
}

/// What the event sink of one recording session remembers of it.
#[derive(Debug)]
pub struct SessionSource {
    pub process_name: String,
    pub device_id: String,
    pub device_name: String,
}

/// `cb` carries `running` and the given names.
pub open spec fn reports(
    cb: MicrophoneActivateCallback,
    running: bool,
    process_name: Seq<char>,
    device_id: Seq<char>,
    device_name: Seq<char>,
) -> bool {
    &&& cb.is_running == running
    &&& cb.process_name@ == process_name
    &&& cb.device_id@ == device_id
    &&& cb.device_name@ == device_name
}

/// A notification names its session and device as given, whatever running
/// state it carries.
pub proof fn lemma_notifications_carry_the_session(
    cb: MicrophoneActivateCallback,
    running: bool,
    process_name: Seq<char>,
    device_id: Seq<char>,
    device_name: Seq<char>,
)
    requires
        reports(cb, running, process_name, device_id, device_name),
    ensures
        cb.is_running == running,
        cb.process_name@ == process_name,
        cb.device_id@ == device_id,
        cb.device_name@ == device_name,
{
}

/// A session in state `state` is recording.
pub open spec fn is_recording_state(state: i32) -> bool {
    state == AUDIO_SESSION_STATE_ACTIVE
}

/// Whether a session state is the recording (active) state.
pub fn is_active_state(state: i32) -> (b: bool)
    ensures
        b == is_recording_state(state),
{
    state == AUDIO_SESSION_STATE_ACTIVE
}

/// The state shared by all session callbacks of a microphone listener.
#[derive(Debug)]
pub struct MicrophoneListener {
    is_running: bool,
}

impl MicrophoneListener {
    /// Whether the listener believes that a microphone is recording.
    pub closed spec fn running(self) -> bool {
        self.is_running
    }

    /// A listener that has seen no recording session.
    pub fn new() -> (l: Self)
        ensures
            !l.running(),
    {
        MicrophoneListener { is_running: false }
    }

    pub fn is_running(&self) -> (b: bool)
        ensures
            b == self.running(),
    {
        self.is_running
    }

    /// Whether process `process_id` has a recording session; `false` where the
    /// walk over the devices failed.
    pub fn is_process_using_microphone(probe: &EndpointsProbe, process_id: u32) -> (b: bool)
        ensures
            b == recording_now(*probe, process_id),
    {
        match is_process_actively_using_microphone(probe, process_id) {
            Ok(b) => b,
            Err(_) => false,
        }
    }

    /// The check made when the listener starts watching the capture device at
    /// position `index`: where a session of the device is recording, the
    /// listener is running and tells so, naming the first such session.
    pub fn on_device_registered(
        &mut self,
        index: usize,
        device_id: &String,
        sessions: &SessionsProbe,
    ) -> (r: Result<Option<MicrophoneActivateCallback>, AudioError>)
        ensures
            match sessions_running_status(*sessions) {
                Err(e) => r == Err::<Option<MicrophoneActivateCallback>, AudioError>(e)
                    && final(self).running() == old(self).running(),
                Ok((active, name)) => if active {
                    &&& final(self).running()
                    &&& r matches Ok(Some(cb))
                    &&& reports(cb, true, name, device_id@, device_label(index as int))
                } else {
                    r matches Ok(None) && final(self).running() == old(self).running()
                },
            },
    {
        match sessions_status(sessions) {
            Err(e) => Err(e),
            Ok((active, name)) => {
                if active {
                    self.is_running = true;
                    Ok(
                        Some(
                            MicrophoneActivateCallback {
                                is_running: true,
                                process_name: name,
                                device_id: device_id.clone(),
                                device_name: device_name(index),
                            },
                        ),
                    )
                } else {
                    Ok(None)
                }
            },
        }
    }

    /// A new session appeared on a device. Where it is recording (and is not
    /// the system-sounds session), the listener is running and tells so; the
    /// caller then watches the session's state under the returned names.
    pub fn on_session_created(
        &mut self,
        device_id: &String,
        device_name: &String,
        session: &SessionDetails,
    ) -> (r: Result<Option<MicrophoneActivateCallback>, AudioError>)
        ensures
            match details_entry(*session) {
                Err(e) => r == Err::<Option<MicrophoneActivateCallback>, AudioError>(e)
                    && final(self).running() == old(self).running(),
                Ok(None) => r matches Ok(None) && final(self).running() == old(self).running(),
                Ok(Some((_, name, active))) => if active {
                    &&& final(self).running()
                    &&& r matches Ok(Some(cb))
                    &&& reports(cb, true, name, device_id@, device_name@)
                } else {
                    r matches Ok(None) && final(self).running() == old(self).running()
                },
            },
    {
        match session_details_entry(session) {
            Err(e) => Err(e),
            Ok(None) => Ok(None),
            Ok(Some((_, name, active))) => {
                if active {
                    self.is_running = true;
                    Ok(
                        Some(
                            MicrophoneActivateCallback {
                                is_running: true,
                                process_name: name,
                                device_id: device_id.clone(),
                                device_name: device_name.clone(),
                            },
                        ),
                    )
                } else {
                    Ok(None)
                }
            },
        }
    }

    /// A watched session started recording: the listener is running.
    pub fn on_session_active(&mut self, source: &SessionSource) -> (cb: MicrophoneActivateCallback)
        ensures
            final(self).running(),
            reports(cb, true, source.process_name@, source.device_id@, source.device_name@),
            cb.is_running,
            cb.process_name@ == source.process_name@,
            cb.device_id@ == source.device_id@,
            cb.device_name@ == source.device_name@,
    {
        self.is_running = true;
        MicrophoneActivateCallback {
            is_running: true,
            process_name: source.process_name.clone(),
            device_id: source.device_id.clone(),
            device_name: source.device_name.clone(),
        }
    }

    /// A watched session stopped recording: the listener runs on exactly when
    /// another session of the device is recording (not where the rescan of
    /// the device's sessions failed), and tells its new state.
    pub fn on_session_inactive(&mut self, source: &SessionSource, rescan: &SessionsProbe) -> (cb:
        MicrophoneActivateCallback)
        ensures
            final(self).running() == match sessions_running_status(*rescan) {
                Ok((active, _)) => active,
                Err(_) => false,
            },
            reports(
                cb,
                final(self).running(),
                source.process_name@,
                source.device_id@,
                source.device_name@,
            ),
            cb.is_running == final(self).running(),
            cb.process_name@ == source.process_name@,
            cb.device_id@ == source.device_id@,
            cb.device_name@ == source.device_name@,
    {
        let any_active = match sessions_status(rescan) {
            Ok((active, _)) => active,
            Err(_) => false,
        };
        self.is_running = any_active;
        MicrophoneActivateCallback {
            is_running: any_active,
            process_name: source.process_name.clone(),
            device_id: source.device_id.clone(),
            device_name: source.device_name.clone(),
        }
    }
}

} // verus!
