//! Watching a directory of devices: which events count for a watch, and what
//! to do on each one.
//!
//! The watch itself waits on the directory and opens device files; that is
//! for the caller to do. What is decided here is what the caller does next.

use vstd::prelude::*;

verus! {

/// Which devices satisfy a watch for new devices.
#[derive(Clone, Copy, Debug, PartialEq, Eq, Structural)]
pub enum WatchFilter {
    /// Only devices that are added after the watch began.
    AddedOnly,
    /// Devices that are added, and those that were there already.
    AddedOrExisting,
}

/// What a directory reports of one of its files.
#[derive(Clone, Copy, Debug, PartialEq, Eq, Structural)]
pub enum WatchEvent {
    /// The file was added.
    AddFile,
    /// The file was removed.
    RemoveFile,
    /// The file was there when the watch began.
    Existing,
    /// All files that were there when the watch began have been reported.
    Idle,
}

/// The events that satisfy a watch for new devices under `filter`.
pub open spec fn new_device_events(filter: WatchFilter) -> Seq<WatchEvent> {
    match filter {
        WatchFilter::AddedOnly => seq![WatchEvent::AddFile],
        WatchFilter::AddedOrExisting => seq![WatchEvent::AddFile, WatchEvent::Existing],
    }
}

/// The events that satisfy a watch for new devices under `filter`.
pub fn watch_new_events(filter: WatchFilter) -> (events: Vec<WatchEvent>)
    ensures
        events@ == new_device_events(filter),
        !events@.contains(WatchEvent::RemoveFile),
{
    let events = match filter {
        WatchFilter::AddedOnly => vec![WatchEvent::AddFile],
        WatchFilter::AddedOrExisting => vec![WatchEvent::AddFile, WatchEvent::Existing],
    };
    assert(events@ =~= new_device_events(filter));
    events
}

/// The events that satisfy a watch for devices that exist already.
pub fn watch_existing_events() -> (events: Vec<WatchEvent>)
    ensures
        events@ == seq![WatchEvent::Existing],
        !events@.contains(WatchEvent::RemoveFile),
{
    vec![WatchEvent::Existing]
}

/// Whether `event` is one of `events`.
pub fn is_watched(events: &Vec<WatchEvent>, event: WatchEvent) -> (watched: bool)
    ensures
        watched == events@.contains(event),
{
    let mut at: usize = 0;
    while at < events.len()
        invariant
            at <= events@.len(),
            forall|j: int| 0 <= j < at ==> events@[j] != event,
        decreases events@.len() - at,
    {
        if events[at] == event {
            return true;
        }
        at += 1;
    }
    false
}

/// The path of the file `filename` in the directory `dir`.
pub open spec fn joined(dir: Seq<char>, filename: Seq<char>) -> Seq<char> {
    dir + "/"@ + filename
}

/// The path of the file `filename` in the directory `dir`.
pub fn device_path(dir: &str, filename: &str) -> (path: String)
    ensures
        path@ == joined(dir@, filename@),
{
    let mut path = dir.to_owned();
    path.append("/");
    path.append(filename);
    path
}

/// What a watch for devices does next.
#[derive(Debug, PartialEq, Eq)]
pub enum WatchStep {
    /// Wait for the next event.
    Wait,
    /// Open the device file at that path, and look at where the device sits.
    Open(String),
}

/// The mathematical value of a step.
pub open spec fn step_of(step: WatchStep) -> Option<Seq<char>> {
    match step {
        WatchStep::Wait => None,
        WatchStep::Open(path) => Some(path@),
    }
}

/// What a watch for the events `events` in the directory `dir` does when the
/// directory reports `event` of the file `filename`: it opens the file where
/// the event is one that it watches for, and waits on otherwise. A removed
/// file cannot be opened, so removals must not be among `events`.
pub fn on_watch_event(
    events: &Vec<WatchEvent>,
    dir: &str,
    event: WatchEvent,
    filename: &str,
) -> (step: WatchStep)
    requires
        !events@.contains(WatchEvent::RemoveFile),
    ensures
        step_of(step) == if events@.contains(event) {
            Some(joined(dir@, filename@))
        } else {
            None
        },
{
    if is_watched(events, event) {
        WatchStep::Open(device_path(dir, filename))
    } else {
        WatchStep::Wait
    }
}

/// What a watch does after it tried to open a device file. `opened` says
/// whether the file could be opened, `below` whether the device sits below the
/// place that is watched. The watch ends with a device that does; a file that
/// cannot be opened is passed over, as it may be a device of no interest.
pub fn on_device_opened(opened: bool, below: bool) -> (found: bool)
    ensures
        found == (opened && below),
{
    opened && below
}

/// The path of the file that was removed, where the directory `dir` reports
/// the removal of the file `filename`; nothing on any other event. A watch for
/// the removal of a device ends when this is the path that it waits for.
pub fn removed_path(dir: &str, event: WatchEvent, filename: &str) -> (path: Option<String>)
    ensures
        match path {
            Some(path) => event == WatchEvent::RemoveFile && path@ == joined(dir@, filename@),
            None => event != WatchEvent::RemoveFile,
        },
{
    match event {
        WatchEvent::RemoveFile => Some(device_path(dir, filename)),
        _ => None,
    }
}

} // verus!
