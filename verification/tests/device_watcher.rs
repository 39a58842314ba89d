use component_runtime::device_watcher::{
    device_path, is_watched, on_device_opened, on_watch_event, removed_path,
    watch_existing_events, watch_new_events, WatchEvent, WatchFilter, WatchStep,
};

#[test]
fn a_watch_for_added_devices_watches_additions_only() {
    assert_eq!(watch_new_events(WatchFilter::AddedOnly), vec![WatchEvent::AddFile]);
    assert_eq!(
        watch_new_events(WatchFilter::AddedOrExisting),
        vec![WatchEvent::AddFile, WatchEvent::Existing]
    );
    assert_eq!(watch_existing_events(), vec![WatchEvent::Existing]);
}

#[test]
fn watched_events_are_those_in_the_list() {
    let events = watch_new_events(WatchFilter::AddedOrExisting);
    assert!(is_watched(&events, WatchEvent::AddFile));
    assert!(is_watched(&events, WatchEvent::Existing));
    assert!(!is_watched(&events, WatchEvent::RemoveFile));
    assert!(!is_watched(&events, WatchEvent::Idle));
    assert!(!is_watched(&vec![], WatchEvent::AddFile));
}

#[test]
fn a_device_path_is_the_directory_then_the_file() {
    assert_eq!(device_path("/dev/class/bt-hci", "000"), "/dev/class/bt-hci/000");
    assert_eq!(device_path("", "000"), "/000");
}

#[test]
fn a_watched_event_has_the_file_opened() {
    let events = watch_new_events(WatchFilter::AddedOnly);
    assert_eq!(
        on_watch_event(&events, "/dev/test", WatchEvent::AddFile, "000"),
        WatchStep::Open("/dev/test/000".to_string())
    );
    assert_eq!(on_watch_event(&events, "/dev/test", WatchEvent::Existing, "000"), WatchStep::Wait);
    assert_eq!(on_watch_event(&events, "/dev/test", WatchEvent::Idle, "000"), WatchStep::Wait);
    assert_eq!(
        on_watch_event(&watch_existing_events(), "/dev/test", WatchEvent::Existing, "001"),
        WatchStep::Open("/dev/test/001".to_string())
    );
}

#[test]
fn a_device_is_found_where_it_opens_and_sits_below() {
    assert!(on_device_opened(true, true));
    assert!(!on_device_opened(true, false));
    assert!(!on_device_opened(false, true));
    assert!(!on_device_opened(false, false));
}

#[test]
fn only_removals_give_a_removed_path() {
    assert_eq!(
        removed_path("/dev/test", WatchEvent::RemoveFile, "000"),
        Some("/dev/test/000".to_string())
    );
    assert_eq!(removed_path("/dev/test", WatchEvent::AddFile, "000"), None);
    assert_eq!(removed_path("/dev/test", WatchEvent::Existing, "000"), None);
    assert_eq!(removed_path("/dev/test", WatchEvent::Idle, "000"), None);
}
