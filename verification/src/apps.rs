//! Applications that can be captured, the shareable-content entry point and
//! its subscriptions.
use vstd::prelude::*;
use vstd::string::*;
use crate::audio::{is_process_actively_using_microphone, EndpointsProbe};
use crate::text::{append_signed_decimal, decimal, decode_wide, file_name_of, path_file_name, signed_decimal, utf16_lossy};
use crate::watch::{recording_now, HandleAllocator, WatcherRegistry, following_handle};

verus! {

/// A UTF-16 path that Windows wrote into `buffer`, of `length` code units.
#[derive(Debug)]
pub struct ProcessImage {
    pub buffer: Vec<u16>,
    pub length: u32,
}

/// The reported length lies within the buffer (as Windows guarantees).
pub open spec fn image_fits(image: Option<ProcessImage>) -> bool {
    image matches Some(im) ==> im.length <= im.buffer@.len()
}

pub open spec fn image_path(im: ProcessImage) -> Seq<char> {
    utf16_lossy(im.buffer@.subrange(0, im.length as int))
}

/// The file name of a process's executable: none where the process could not
/// be queried or the path is empty.
pub open spec fn image_file_name(image: Option<ProcessImage>) -> Option<Seq<char>> {
    match image {
        None => None,
        Some(im) => if im.length == 0 {
            None
        } else {
            Some(file_name_of(image_path(im)))
        },
    }
}

/// The full path of a process's executable.
pub open spec fn image_executable_path(image: Option<ProcessImage>) -> Option<Seq<char>> {
    match image {
        None => None,
        Some(im) => if im.length == 0 {
            None
        } else {
            Some(image_path(im))
        },
    }
}

/// The name given to a process whose executable could not be named.
pub open spec fn fallback_name(process_id: i32) -> Seq<char> {
    "Process "@ + signed_decimal(process_id as int)
}

/// The name of the application of process `process_id`.
pub open spec fn application_name(process_id: i32, image: Option<ProcessImage>) -> Seq<char> {
    match image_file_name(image) {
        Some(n) => n,
        None => fallback_name(process_id),
    }
}

/// The file name of the executable of a process, from the path Windows gave.
pub fn process_file_name(image: &Option<ProcessImage>) -> (name: Option<String>)
    requires
        image_fits(*image),
    ensures
        match name {
            Some(n) => image_file_name(*image) == Some(n@),
            None => image_file_name(*image) is None,
        },
{
    match image {
        None => None,
        Some(im) => {
            if im.length == 0 {
                None
            } else {
                let path = decode_wide(im.buffer.as_slice(), im.length as usize);
                Some(path_file_name(path.as_str()))
            }
        },
    }
}

/// The full path of the executable of a process, from the path Windows gave.
pub fn executable_path(image: &Option<ProcessImage>) -> (path: Option<String>)
    requires
        image_fits(*image),
    ensures
        match path {
            Some(p) => image_executable_path(*image) == Some(p@),
            None => image_executable_path(*image) is None,
        },
{
    match image {
        None => None,
        Some(im) => {
            if im.length == 0 {
                None
            } else {
                Some(decode_wide(im.buffer.as_slice(), im.length as usize))
            }
        },
    }
}

/// The error of a capture that this platform does not offer.
#[derive(Debug)]
pub struct CaptureError {
    pub message: String,
}

/// The abstract content of an `Application`.
pub struct ApplicationView {
    pub process_id: i32,
    pub name: Seq<char>,
}

/// A running application.
#[derive(Debug)]
pub struct Application {
    process_id: i32,
    name: String,
}

impl View for Application {
    type V = ApplicationView;

    closed spec fn view(&self) -> ApplicationView {
        ApplicationView { process_id: self.process_id, name: self.name@ }
    }
}

impl Application {
    /// The application of process `process_id`, named after its executable
    /// (`module_image`), or `Process <id>` where that cannot be read.
    pub fn new(process_id: i32, module_image: &Option<ProcessImage>) -> (app: Self)
        requires
            image_fits(*module_image),
        ensures
            app@ == (ApplicationView {
                process_id,
                name: application_name(process_id, *module_image),
            }),
    {
        let name = match process_file_name(module_image) {
            Some(n) => n,
            None => {
                let mut s = String::from_str("Process ");
                append_signed_decimal(&mut s, process_id as i64);
                s
            },
        };
        Application { process_id, name }
    }

    pub fn process_id(&self) -> (pid: i32)
        ensures
            pid == self@.process_id,
    {
        self.process_id
    }

    /// Windows has no process groups: the group is the process itself.
    pub fn process_group_id(&self) -> (gid: i32)
        ensures
            gid == self@.process_id,
    {
        self.process_id
    }

    /// The full path of the application's executable (`executable_image`, the
    /// path Windows gives for this process), or empty where it cannot be read.
    pub fn bundle_identifier(&self, executable_image: &Option<ProcessImage>) -> (id: String)
        requires
            image_fits(*executable_image),
        ensures
            id@ == match image_executable_path(*executable_image) {
                Some(p) => p,
                None => Seq::<char>::empty(),
            },
    {
        match executable_path(executable_image) {
            Some(p) => p,
            None => String::new(),
        }
    }

    pub fn name(&self) -> (name: String)
        ensures
            name@ == self@.name,
    {
        self.name.clone()
    }

    /// The application icon: none is extracted on this platform.
    pub fn icon(&self) -> (icon: Vec<u8>)
        ensures
            icon@.len() == 0,
    {
        Vec::new()
    }
}

/// The abstract content of a `TappableApplication`.
pub struct TappableApplicationView {
    pub app: ApplicationView,
    pub object_id: u32,
}

/// An application whose audio could be tapped, with its audio object id.
#[derive(Debug)]
pub struct TappableApplication {
    app: Application,
    object_id: u32,
}

impl View for TappableApplication {
    type V = TappableApplicationView;

    closed spec fn view(&self) -> TappableApplicationView {
        TappableApplicationView { app: self.app@, object_id: self.object_id }
    }
}

/// The message of `tap_audio`.
pub open spec fn tap_audio_message() -> Seq<char> {
    "Audio tapping not yet implemented for Windows"@
}

/// The message of `tap_global_audio`.
pub open spec fn tap_global_audio_message() -> Seq<char> {
    "Global audio tapping not yet implemented for Windows"@
}

impl TappableApplication {
    /// The application whose audio object id is `object_id`; on Windows that
    /// id is the process id.
    pub fn new(object_id: u32, module_image: &Option<ProcessImage>) -> (t: Self)
        requires
            image_fits(*module_image),
        ensures
            t@ == (TappableApplicationView {
                app: ApplicationView {
                    process_id: object_id as i32,
                    name: application_name(object_id as i32, *module_image),
                },
                object_id,
            }),
    {
        let app = Application::new(object_id as i32, module_image);
        TappableApplication { app, object_id }
    }

    /// `app` with the audio object id `object_id`.
    pub fn from_application(app: &Application, object_id: u32) -> (t: Self)
        ensures
            t@ == (TappableApplicationView { app: app@, object_id }),
    {
        TappableApplication {
            app: Application { process_id: app.process_id, name: app.name.clone() },
            object_id,
        }
    }

    pub fn process_id(&self) -> (pid: i32)
        ensures
            pid == self@.app.process_id,
    {
        self.app.process_id
    }

    pub fn process_group_id(&self) -> (gid: i32)
        ensures
            gid == self@.app.process_id,
    {
        self.app.process_group_id()
    }

    pub fn bundle_identifier(&self, executable_image: &Option<ProcessImage>) -> (id: String)
        requires
            image_fits(*executable_image),
        ensures
            id@ == match image_executable_path(*executable_image) {
                Some(p) => p,
                None => Seq::<char>::empty(),
            },
    {
        self.app.bundle_identifier(executable_image)
    }

    pub fn name(&self) -> (name: String)
        ensures
            name@ == self@.app.name,
    {
        self.app.name.clone()
    }

    pub fn object_id(&self) -> (id: u32)
        ensures
            id == self@.object_id,
    {
        self.object_id
    }

    pub fn icon(&self) -> (icon: Vec<u8>)
        ensures
            icon@.len() == 0,
    {
        self.app.icon()
    }

    /// Whether the application's process is recording; `false` where the
    /// walk over the capture devices failed.
    pub fn is_running(&self, probe: &EndpointsProbe) -> (b: bool)
        ensures
            b == recording_now(*probe, self@.app.process_id as u32),
    {
        match is_process_actively_using_microphone(probe, self.app.process_id as u32) {
            Ok(b) => b,
            Err(_) => false,
        }
    }

    /// Tapping an application's audio is not offered on this platform.
    pub fn tap_audio(&self) -> (r: Result<AudioCaptureSession, CaptureError>)
        ensures
            r matches Err(e) && e.message@ == tap_audio_message(),
    {
        Err(CaptureError { message: String::from_str("Audio tapping not yet implemented for Windows") })
    }
}

/// A running audio capture.
#[derive(Debug)]
pub struct AudioCaptureSession {
    handle: u32,
}

impl AudioCaptureSession {
    /// Stops the capture (nothing runs on this platform).
    pub fn stop(&self) {
    }

    /// The number of channels: stereo.
    pub fn channels(&self) -> (n: u32)
        ensures
            n == 2,
    {
        2
    }
}

/// Whether audio and screen recording are permitted.
#[derive(Debug)]
pub struct RecordingPermissions {
    pub audio: bool,
    pub screen: bool,
}

impl Default for RecordingPermissions {
    fn default() -> (p: Self)
        ensures
            !p.audio && !p.screen,
    {
        RecordingPermissions { audio: false, screen: false }
    }
}

/// A subscription to changes of the running-application list.
#[derive(Debug)]
pub struct ApplicationListChangedSubscriber {
    handle: u32,
}

impl ApplicationListChangedSubscriber {
    pub closed spec fn handle_of(self) -> u32 {
        self.handle
    }

    /// Ends the subscription: removes its watcher from `watchers` and hands
    /// it back, so that the caller stops it.
    pub fn unsubscribe<T>(&self, watchers: &mut WatcherRegistry<T>) -> (r: Option<T>)
        ensures
            match crate::watch::handle_position(old(watchers).entries(), self.handle_of()) {
                None => r is None && final(watchers).entries() == old(watchers).entries(),
                Some(k) => r == Some(old(watchers).entries()[k].1) && final(watchers).entries()
                    == old(watchers).entries().remove(k),
            },
    {
        watchers.remove_by_handle(self.handle)
    }
}

/// A subscription to changes of whether one application is recording.
#[derive(Debug)]
pub struct ApplicationStateChangedSubscriber {
    handle: u32,
    process_id: u32,
}

impl ApplicationStateChangedSubscriber {
    pub closed spec fn handle_of(self) -> u32 {
        self.handle
    }

    pub closed spec fn watched(self) -> u32 {
        self.process_id
    }

    pub fn process_id(&self) -> (pid: u32)
        ensures
            pid == self.watched(),
    {
        self.process_id
    }

    /// Ends the subscription (see `ApplicationListChangedSubscriber::unsubscribe`).
    pub fn unsubscribe<T>(&self, watchers: &mut WatcherRegistry<T>) -> (r: Option<T>)
        ensures
            match crate::watch::handle_position(old(watchers).entries(), self.handle_of()) {
                None => r is None && final(watchers).entries() == old(watchers).entries(),
                Some(k) => r == Some(old(watchers).entries()[k].1) && final(watchers).entries()
                    == old(watchers).entries().remove(k),
            },
    {
        watchers.remove_by_handle(self.handle)
    }
}

/// A process found running, with the path of its executable where it could
/// be read.
#[derive(Debug)]
pub struct ProcessCandidate {
    pub process_id: u32,
    pub module_image: Option<ProcessImage>,
}

/// The candidate's application is listed: it has a name of its own (not
/// empty, and not the `Process <id>` of an unnamed process).
pub open spec fn listed_candidate(c: ProcessCandidate) -> bool {
    let name = application_name(c.process_id as i32, c.module_image);
    name.len() != 0 && name != "Process "@ + decimal(c.process_id as nat)
}

/// A process whose executable cannot be named is not listed, unless its id
/// exceeds `i32::MAX` (its fallback name then shows a negative number).
pub proof fn lemma_unnamed_process_not_listed(c: ProcessCandidate)
    requires
        image_file_name(c.module_image) is None,
        c.process_id <= i32::MAX,
    ensures
        !listed_candidate(c),
{
    assert(c.process_id as i32 as int == c.process_id as int);
}

pub open spec fn candidate_view(c: ProcessCandidate) -> TappableApplicationView {
    TappableApplicationView {
        app: ApplicationView {
            process_id: c.process_id as i32,
            name: application_name(c.process_id as i32, c.module_image),
        },
        object_id: c.process_id,
    }
}

/// The applications listed from the first `n` candidates, in order.
pub open spec fn applications_upto(cs: Seq<ProcessCandidate>, n: int) -> Seq<TappableApplicationView>
    decreases n,
{
    if n <= 0 {
        seq![]
    } else if listed_candidate(cs[n - 1]) {
        applications_upto(cs, n - 1).push(candidate_view(cs[n - 1]))
    } else {
        applications_upto(cs, n - 1)
    }
}

proof fn lemma_applications_upto_filter(cs: Seq<ProcessCandidate>, n: int)
    requires
        0 <= n <= cs.len(),
    ensures
        applications_upto(cs, n) == cs.take(n).filter(|c: ProcessCandidate| listed_candidate(c)).map_values(
            |c: ProcessCandidate| candidate_view(c),
        ),
    decreases n,
{
    let pred = |c: ProcessCandidate| listed_candidate(c);
    let f = |c: ProcessCandidate| candidate_view(c);
    if n == 0 {
        assert(cs.take(0) =~= Seq::<ProcessCandidate>::empty());
        assert(cs.take(0).filter(pred) =~= Seq::<ProcessCandidate>::empty());
        assert(cs.take(0).filter(pred).map_values(f) =~= seq![]);
    } else {
        lemma_applications_upto_filter(cs, n - 1);
        reveal_with_fuel(Seq::<_>::filter, 1);
        assert(cs.take(n).drop_last() =~= cs.take(n - 1));
        assert(cs.take(n).last() == cs[n - 1]);
        let prev = cs.take(n - 1).filter(pred);
        if listed_candidate(cs[n - 1]) {
            assert(cs.take(n).filter(pred) == prev.push(cs[n - 1]));
            assert(prev.push(cs[n - 1]).map_values(f) =~= prev.map_values(f).push(f(cs[n - 1])));
        } else {
            assert(cs.take(n).filter(pred) == prev);
        }
    }
}

/// The applications listed are exactly the candidates whose name is their
/// own (not empty, and not the `Process <id>` of an unnamed process), in the
/// order of the candidates, each with the candidate's process id as object
/// id and process id and the name of its executable (or `Process <id>` with
/// the id read as `i32`).
pub proof fn lemma_applications_are_the_named_candidates(cs: Seq<ProcessCandidate>)
    ensures
        applications_upto(cs, cs.len() as int) == cs.filter(
            |c: ProcessCandidate|
                {
                    let name = match image_file_name(c.module_image) {
                        Some(n) => n,
                        None => "Process "@ + signed_decimal(c.process_id as i32 as int),
                    };
                    name.len() != 0 && name != "Process "@ + decimal(c.process_id as nat)
                },
        ).map_values(
            |c: ProcessCandidate|
                TappableApplicationView {
                    app: ApplicationView {
                        process_id: c.process_id as i32,
                        name: match image_file_name(c.module_image) {
                            Some(n) => n,
                            None => "Process "@ + signed_decimal(c.process_id as i32 as int),
                        },
                    },
                    object_id: c.process_id,
                },
        ),
{
    lemma_applications_upto_filter(cs, cs.len() as int);
    assert(cs.take(cs.len() as int) =~= cs);
    let p1 = |c: ProcessCandidate| listed_candidate(c);
    let p2 = |c: ProcessCandidate|
        {
            let name = match image_file_name(c.module_image) {
                Some(n) => n,
                None => "Process "@ + signed_decimal(c.process_id as i32 as int),
            };
            name.len() != 0 && name != "Process "@ + decimal(c.process_id as nat)
        };
    assert(p1 =~= p2);
    let f1 = |c: ProcessCandidate| candidate_view(c);
    let f2 = |c: ProcessCandidate|
        TappableApplicationView {
            app: ApplicationView {
                process_id: c.process_id as i32,
                name: match image_file_name(c.module_image) {
                    Some(n) => n,
                    None => "Process "@ + signed_decimal(c.process_id as i32 as int),
                },
            },
            object_id: c.process_id,
        };
    assert(f1 =~= f2);
}

pub open spec fn applications_view(v: Seq<TappableApplication>) -> Seq<TappableApplicationView> {
    v.map_values(|t: TappableApplication| t@)
}

/// The entry point to the capturable content of the system.
#[derive(Debug)]
pub struct ShareableContent {}

impl ShareableContent {
    pub fn new() -> (c: Self) {
        ShareableContent {  }
    }

    /// The applications of the running processes that have a name of their
    /// own, in the order of the processes.
    pub fn applications(&self, candidates: &Vec<ProcessCandidate>) -> (apps: Vec<TappableApplication>)
        requires
            forall|k: int| 0 <= k < candidates@.len() ==> image_fits(#[trigger] candidates@[k].module_image),
        ensures
            applications_view(apps@) == applications_upto(candidates@, candidates@.len() as int),
    {
        let mut apps: Vec<TappableApplication> = Vec::new();
        let n = candidates.len();
        let mut i: usize = 0;
        assert(applications_view(apps@) =~= seq![]);
        while i < n
            invariant
                n == candidates@.len(),
                i <= n,
                forall|k: int| 0 <= k < candidates@.len() ==> image_fits(#[trigger] candidates@[k].module_image),
                applications_view(apps@) == applications_upto(candidates@, i as int),
            decreases n - i,
        {
            let c = &candidates[i];
            assert(image_fits(candidates@[i as int].module_image));
            let app = TappableApplication::new(c.process_id, &c.module_image);
            let name = app.name();
            let mut plain = String::from_str("Process ");
            crate::text::append_decimal(&mut plain, c.process_id as u64);
            let keep = name.unicode_len() != 0 && !(name == plain);
            let ghost before = applications_view(apps@);
            if keep {
                apps.push(app);
                assert(applications_view(apps@) =~= before.push(candidate_view(candidates@[i as int])));
            }
            i = i + 1;
        }
        apps
    }

    /// The application of process `process_id`, where that process runs.
    pub fn application_with_process_id(
        &self,
        process_id: u32,
        process_running: bool,
        module_image: &Option<ProcessImage>,
    ) -> (app: Option<Application>)
        requires
            image_fits(*module_image),
        ensures
            match app {
                Some(a) => process_running && a@ == (ApplicationView {
                    process_id: process_id as i32,
                    name: application_name(process_id as i32, *module_image),
                }),
                None => !process_running,
            },
    {
        if process_running {
            Some(Application::new(process_id as i32, module_image))
        } else {
            None
        }
    }

    /// The tappable application of process `process_id`, where that process
    /// runs.
    pub fn tappable_application_with_process_id(
        &self,
        process_id: u32,
        process_running: bool,
        module_image: &Option<ProcessImage>,
    ) -> (app: Option<TappableApplication>)
        requires
            image_fits(*module_image),
        ensures
            match app {
                Some(a) => process_running && a@ == candidate_view(
                    ProcessCandidate { process_id, module_image: *module_image },
                ),
                None => !process_running,
            },
    {
        if process_running {
            Some(TappableApplication::new(process_id, module_image))
        } else {
            None
        }
    }

    /// Tapping all system audio is not offered on this platform.
    pub fn tap_global_audio() -> (r: Result<AudioCaptureSession, CaptureError>)
        ensures
            r matches Err(e) && e.message@ == tap_global_audio_message(),
    {
        Err(
            CaptureError {
                message: String::from_str("Global audio tapping not yet implemented for Windows"),
            },
        )
    }

    /// Subscribes `watcher` to changes of the running-application list: it
    /// gets the next handle and is registered after the other watchers.
    pub fn on_application_list_changed<T>(
        handles: &mut HandleAllocator,
        watchers: &mut WatcherRegistry<T>,
        watcher: T,
    ) -> (s: ApplicationListChangedSubscriber)
        ensures
            s.handle_of() == old(handles).upcoming(),
            final(handles).upcoming() == following_handle(s.handle_of()),
            final(watchers).entries() == old(watchers).entries().push((s.handle_of(), watcher)),
    {
        let handle = handles.allocate();
        watchers.register(handle, watcher);
        ApplicationListChangedSubscriber { handle }
    }

    /// Subscribes `watcher` to changes of whether `app` is recording.
    pub fn on_app_state_changed<T>(
        app: &TappableApplication,
        handles: &mut HandleAllocator,
        watchers: &mut WatcherRegistry<T>,
        watcher: T,
    ) -> (s: ApplicationStateChangedSubscriber)
        ensures
            s.handle_of() == old(handles).upcoming(),
            s.watched() == app@.app.process_id as u32,
            final(handles).upcoming() == following_handle(s.handle_of()),
            final(watchers).entries() == old(watchers).entries().push((s.handle_of(), watcher)),
    {
        let handle = handles.allocate();
        let process_id = app.process_id() as u32;
        watchers.register(handle, watcher);
        ApplicationStateChangedSubscriber { handle, process_id }
    }
}

} // verus!
