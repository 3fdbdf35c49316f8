use watchmover::config::{PathConfig, WatcherType};
use watchmover::copy_watcher::{partial_marker_suffix, path_is_marker, CopyWatcher};
use watchmover::detect::{is_in_progress, FsNode};
use watchmover::events::{bridge_filter, ChangeKind, NativeEventKind};
use watchmover::mover::{
    get_title, is_nul_free, mover_step, Mover, MoverAction, MoverEvent, MoverState,
};
use watchmover::paths::FsPath;
use watchmover::registry::PathSet;

fn fsp(parts: &[&str]) -> FsPath {
    FsPath { components: parts.iter().map(|s| s.to_string()).collect() }
}

fn copy_config() -> PathConfig {
    PathConfig {
        source: fsp(&["srv", "downloads"]),
        destination: fsp(&["srv", "library"]),
        place_in_sub: true,
        name: "anime".to_string(),
        watcher_type: WatcherType::Copy,
    }
}

#[test]
fn bridge_filter_keeps_only_wanted_kinds() {
    assert!(bridge_filter(WatcherType::Copy, NativeEventKind::Create) == Some(ChangeKind::Created));
    assert!(bridge_filter(WatcherType::Copy, NativeEventKind::Remove).is_none());
    assert!(bridge_filter(WatcherType::Copy, NativeEventKind::Modify).is_none());
    assert!(bridge_filter(WatcherType::Copy, NativeEventKind::Access).is_none());
    assert!(bridge_filter(WatcherType::Copy, NativeEventKind::Other).is_none());
    assert!(bridge_filter(WatcherType::Sync, NativeEventKind::Create) == Some(ChangeKind::Created));
    assert!(bridge_filter(WatcherType::Sync, NativeEventKind::Remove) == Some(ChangeKind::Removed));
    assert!(bridge_filter(WatcherType::Sync, NativeEventKind::Modify).is_none());
}

#[test]
fn at_most_once_claim_within_one_event() {
    let watcher = CopyWatcher::new(copy_config());
    let mut detected = PathSet::new();
    let paths = vec![
        fsp(&["srv", "downloads", "a.mkv"]),
        fsp(&["srv", "downloads", "a.mkv"]),
        fsp(&["srv", "downloads", "b.mkv.partial"]),
    ];
    let accepted = watcher.claim_new_paths(&mut detected, &paths, partial_marker_suffix());
    assert_eq!(accepted.len(), 1);
    assert!(accepted[0].path_eq(&paths[0]));
}

#[test]
fn at_most_once_claim_across_events() {
    let watcher = CopyWatcher::new(copy_config());
    let mut detected = PathSet::new();
    let first = vec![fsp(&["srv", "downloads", "a.mkv"])];
    let second = vec![
        fsp(&["srv", "downloads", "a.mkv"]),
        fsp(&["srv", "downloads", "c.mkv"]),
    ];
    let accepted_first =
        watcher.claim_new_paths(&mut detected, &first, partial_marker_suffix());
    assert_eq!(accepted_first.len(), 1);
    let accepted_second =
        watcher.claim_new_paths(&mut detected, &second, partial_marker_suffix());
    assert_eq!(accepted_second.len(), 1);
    assert!(accepted_second[0].path_eq(&second[1]));
}

#[test]
fn partial_markers_are_never_claimed() {
    let suffix = partial_marker_suffix();
    assert!(path_is_marker(&fsp(&["d", "movie.mkv.partial"]), suffix));
    assert!(path_is_marker(&fsp(&["d", ".partial"]), suffix));
    assert!(!path_is_marker(&fsp(&["d", "movie.mkv"]), suffix));
    assert!(!path_is_marker(&FsPath::new(), suffix));
}

fn file(name: &str) -> FsNode {
    FsNode::File { name: name.to_string(), size: 1 }
}

fn dir(name: &str, entries: Vec<FsNode>) -> FsNode {
    FsNode::Dir { name: name.to_string(), entries }
}

#[test]
fn plain_file_is_never_in_progress() {
    let suffix = partial_marker_suffix();
    assert!(!is_in_progress(&file("movie.mkv"), suffix));
    assert!(!is_in_progress(&file("movie.mkv.partial"), suffix));
}

#[test]
fn directory_with_direct_marker_is_in_progress() {
    let suffix = partial_marker_suffix();
    let d = dir("season", vec![file("e1.mkv"), file("e2.mkv.partial")]);
    assert!(is_in_progress(&d, suffix));
}

#[test]
fn directory_with_nested_marker_is_in_progress() {
    let suffix = partial_marker_suffix();
    let d = dir(
        "show",
        vec![file("cover.jpg"), dir("season", vec![dir("extras", vec![file("x.partial")])])],
    );
    assert!(is_in_progress(&d, suffix));
}

#[test]
fn marker_named_subdirectory_counts_as_marker() {
    let suffix = partial_marker_suffix();
    let d = dir("show", vec![dir("e1.partial", vec![])]);
    assert!(is_in_progress(&d, suffix));
}

#[test]
fn directory_without_markers_is_complete() {
    let suffix = partial_marker_suffix();
    let d = dir(
        "show",
        vec![file("cover.jpg"), dir("season", vec![file("e1.mkv"), file("e2.mkv")])],
    );
    assert!(!is_in_progress(&d, suffix));
}

#[test]
fn no_race_with_writers_over_probes() {
    let suffix = partial_marker_suffix();
    let busy = dir("show", vec![file("e1.mkv.partial")]);
    let probe = mover_step(
        MoverState::Probing,
        MoverEvent::ProbeResult { in_progress: is_in_progress(&busy, suffix) },
    );
    assert!(probe == (MoverState::Waiting, MoverAction::Sleep));

    let done_writing = dir("show", vec![file("e1.mkv")]);
    let probe = mover_step(
        MoverState::Probing,
        MoverEvent::ProbeResult { in_progress: is_in_progress(&done_writing, suffix) },
    );
    assert!(probe == (MoverState::Copying, MoverAction::Copy));
}

#[test]
fn destination_naming_with_subfolder() {
    let m = Mover {
        destination: fsp(&["srv", "library"]),
        detected_file: fsp(&["srv", "downloads", "Show - 01.mkv"]),
        subfolder: true,
        wait_time_secs: 5,
        title: Some("Show".to_string()),
    };
    let d = m.setup_destination_folder();
    assert_eq!(
        d.components,
        vec![
            "srv".to_string(),
            "library".to_string(),
            "Show".to_string(),
            "Show - 01.mkv".to_string()
        ]
    );
    let again = m.setup_destination_folder();
    assert!(d.path_eq(&again));
}

#[test]
fn destination_naming_without_subfolder() {
    let m = Mover {
        destination: fsp(&["srv", "library"]),
        detected_file: fsp(&["srv", "downloads", "Show - 01.mkv"]),
        subfolder: false,
        wait_time_secs: 5,
        title: Some("Show".to_string()),
    };
    let d = m.setup_destination_folder();
    assert_eq!(
        d.components,
        vec!["srv".to_string(), "library".to_string(), "Show - 01.mkv".to_string()]
    );
    let no_title = Mover { title: None, subfolder: true, ..m };
    let d = no_title.setup_destination_folder();
    assert_eq!(
        d.components,
        vec!["srv".to_string(), "library".to_string(), "Show - 01.mkv".to_string()]
    );
}

#[test]
fn title_extraction_reads_the_file_name() {
    let detected = fsp(&[
        "srv",
        "downloads",
        "[TaigaSubs]_Toradora!_(2008)_-_01v2_-_Tiger_and_Dragon_[1280x720_H.264_FLAC][1234ABCD].mkv",
    ]);
    let title = get_title(&detected);
    assert_eq!(title, Some("Toradora!".to_string()));

    let m = Mover::new(fsp(&["srv", "library"]), detected, true);
    assert_eq!(m.title, Some("Toradora!".to_string()));
    assert_eq!(m.wait_time_secs, 5);
}

#[test]
fn nul_free_guards_the_title_parser() {
    assert!(is_nul_free("Show - 01.mkv"));
    assert!(is_nul_free(""));
    assert!(!is_nul_free("bad\0name.mkv"));
    assert!(!is_nul_free("\0"));
}

#[test]
fn retry_liveness_records_exactly_once() {
    let events = vec![
        MoverEvent::SleepElapsed,
        MoverEvent::ProbeResult { in_progress: true },
        MoverEvent::SleepElapsed,
        MoverEvent::ProbeResult { in_progress: false },
        MoverEvent::CopyResult { ok: false },
        MoverEvent::SleepElapsed,
        MoverEvent::ProbeResult { in_progress: false },
        MoverEvent::CopyResult { ok: true },
    ];
    let mut state = MoverState::Waiting;
    let mut records: usize = 0;
    for event in events {
        let (next, action) = mover_step(state, event);
        if action == MoverAction::RecordMoved {
            records += 1;
        }
        state = next;
    }
    assert!(state == MoverState::Done);
    assert_eq!(records, 1);

    let (next, action) = mover_step(state, MoverEvent::SleepElapsed);
    assert!(next == MoverState::Done);
    assert!(action == MoverAction::Idle);
}
