use watchmover::config::{PathConfig, WatcherType};
use watchmover::paths::FsPath;
use watchmover::sync_watcher::{remove_difference, Fingerprint, SyncWatcher};

fn fsp(parts: &[&str]) -> FsPath {
    FsPath { components: parts.iter().map(|s| s.to_string()).collect() }
}

fn fp(parts: &[&str], size: u64) -> Fingerprint {
    Fingerprint::new(fsp(parts), size)
}

fn mirror_config() -> PathConfig {
    PathConfig {
        source: fsp(&["srv", "src"]),
        destination: fsp(&["srv", "dst"]),
        place_in_sub: false,
        name: "mirror".to_string(),
        watcher_type: WatcherType::Sync,
    }
}

#[test]
fn fingerprints_match_on_path_and_size() {
    assert!(fp(&["a", "b.txt"], 7).matches(&fp(&["a", "b.txt"], 7)));
    assert!(!fp(&["a", "b.txt"], 7).matches(&fp(&["a", "b.txt"], 8)));
    assert!(!fp(&["a", "b.txt"], 7).matches(&fp(&["a", "c.txt"], 7)));
}

fn contains(list: &[Fingerprint], f: &Fingerprint) -> bool {
    list.iter().any(|x| x.matches(f))
}

#[test]
fn reconciliation_deletes_the_asymmetric_remainder() {
    let source = vec![fp(&["a.txt"], 1), fp(&["b", "c.txt"], 2), fp(&["d.txt"], 3)];
    let destination = vec![fp(&["b", "c.txt"], 2), fp(&["d.txt"], 4), fp(&["e.txt"], 5)];

    let destination_only = remove_difference(&destination, &source);
    let source_only = remove_difference(&source, &destination);

    assert_eq!(destination_only.len(), 2);
    assert!(contains(&destination_only, &fp(&["d.txt"], 4)));
    assert!(contains(&destination_only, &fp(&["e.txt"], 5)));

    assert_eq!(source_only.len(), 2);
    assert!(contains(&source_only, &fp(&["a.txt"], 1)));
    assert!(contains(&source_only, &fp(&["d.txt"], 3)));

    // The object present on both sides with a matching fingerprint is in
    // neither deletion set.
    assert!(!contains(&destination_only, &fp(&["b", "c.txt"], 2)));
    assert!(!contains(&source_only, &fp(&["b", "c.txt"], 2)));
}

#[test]
fn reconciliation_converges_to_the_intersection() {
    let source = vec![fp(&["a.txt"], 1), fp(&["b.txt"], 2)];
    let destination = vec![fp(&["b.txt"], 2), fp(&["c.txt"], 3)];

    let destination_only = remove_difference(&destination, &source);
    let source_only = remove_difference(&source, &destination);

    let source_left: Vec<Fingerprint> =
        source.iter().filter(|f| !contains(&source_only, f)).map(|f| f.duplicate()).collect();
    let destination_left: Vec<Fingerprint> = destination
        .iter()
        .filter(|f| !contains(&destination_only, f))
        .map(|f| f.duplicate())
        .collect();

    assert_eq!(source_left.len(), 1);
    assert_eq!(destination_left.len(), 1);
    assert!(source_left[0].matches(&destination_left[0]));
    assert!(source_left[0].matches(&fp(&["b.txt"], 2)));
}

#[test]
fn reconciliation_of_identical_trees_deletes_nothing() {
    let source = vec![fp(&["a.txt"], 1), fp(&["b.txt"], 2)];
    let destination = vec![fp(&["b.txt"], 2), fp(&["a.txt"], 1)];
    assert_eq!(remove_difference(&destination, &source).len(), 0);
    assert_eq!(remove_difference(&source, &destination).len(), 0);
}

#[test]
fn reconciliation_keeps_scan_order() {
    let base = vec![fp(&["a.txt"], 1), fp(&["b.txt"], 2), fp(&["c.txt"], 3)];
    let other = vec![fp(&["b.txt"], 2)];
    let out = remove_difference(&base, &other);
    assert_eq!(out.len(), 2);
    assert!(out[0].matches(&fp(&["a.txt"], 1)));
    assert!(out[1].matches(&fp(&["c.txt"], 3)));
}

#[test]
fn reconciliation_of_empty_trees() {
    let empty: Vec<Fingerprint> = Vec::new();
    let source = vec![fp(&["a.txt"], 1)];
    assert_eq!(remove_difference(&empty, &source).len(), 0);
    let gone = remove_difference(&source, &empty);
    assert_eq!(gone.len(), 1);
    assert!(contains(&gone, &fp(&["a.txt"], 1)));
}

#[test]
fn live_mirror_plans_the_relative_path() {
    let watcher = SyncWatcher::new(mirror_config());
    let created = fsp(&["srv", "src", "a", "b.txt"]);
    let mirrored = watcher.mirror_destination(&created).unwrap();
    assert_eq!(
        mirrored.components,
        vec!["srv".to_string(), "dst".to_string(), "a".to_string(), "b.txt".to_string()]
    );

    // A path outside the source root has no mirrored place.
    let stranger = fsp(&["srv", "other", "b.txt"]);
    assert!(watcher.mirror_destination(&stranger).is_none());
}

#[test]
fn live_mirror_prunes_only_an_empty_parent() {
    let watcher = SyncWatcher::new(mirror_config());
    let removed = fsp(&["srv", "src", "a", "b.txt"]);
    let mirrored = watcher.mirror_destination(&removed).unwrap();
    let parent = mirrored.parent();
    assert_eq!(parent.components, vec!["srv".to_string(), "dst".to_string(), "a".to_string()]);
    assert!(watcher.should_prune_parent(0));
    assert!(!watcher.should_prune_parent(1));
    assert!(!watcher.should_prune_parent(7));
}
