# media_capture

The decision logic of a Windows media-capture module for Node.js, as a
verified library.

- `src/` is the library, verified with Verus:
  - `audio.rs`: capture devices and audio sessions, the processes that hold
    sessions, the devices, and whether a process is recording;
  - `report.rs`: the diagnostic report on one process;
  - `listener.rs`: the microphone listener's state and what it tells its
    subscriber when sessions appear or change state;
  - `apps.rs`: applications, shareable content and its subscriptions;
  - `watch.rs`: the running-process list, watcher handles and registry, and
    the polling decisions of the monitors;
  - `text.rs`: decimal rendering, substring search, Windows path file names
    and UTF-16 decoding.
- `app/` holds the Node.js bindings and the queries of the Windows audio and
  process APIs; it hands the answers to the library as plain probe values.
- `tests/` exercises the library on concrete probes.
