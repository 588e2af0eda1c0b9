use cadsd::history::GeoHistory;
use cadsd::history::HISTORY_CAP;
use cadsd::history::SnapshotHistory;

#[test]
fn undo_restores_the_last_recorded_entry() {
    let mut h = GeoHistory::new();
    assert!(!h.can_undo());
    assert!(!h.can_redo());
    h.push("cone");
    h.push("stretched");
    assert_eq!(h.len(), 2);
    assert_eq!(h.index(), 2);
    assert!(h.can_undo());
    assert!(!h.can_redo());
    let pos = h.undo().unwrap();
    assert_eq!(*h.entry(pos), "stretched");
    assert_eq!(h.index(), 1);
    let pos = h.undo().unwrap();
    assert_eq!(*h.entry(pos), "cone");
    assert_eq!(h.undo(), None);
    assert_eq!(h.index(), 0);
}

#[test]
fn redo_after_undo_restores_the_same_entry() {
    let mut h = GeoHistory::new();
    h.push(1);
    h.push(2);
    h.push(3);
    let undone = h.undo().unwrap();
    let index = h.index();
    let redone = h.redo().unwrap();
    assert_eq!(undone, redone);
    assert_eq!(h.index(), index + 1);
    assert_eq!(h.redo(), None);
}

#[test]
fn recording_drops_what_could_be_redone() {
    let mut h = GeoHistory::new();
    h.push('a');
    h.push('b');
    h.push('c');
    h.undo();
    h.undo();
    assert_eq!(h.index(), 1);
    h.push('d');
    assert_eq!(h.len(), 2);
    assert_eq!(*h.entry(0), 'a');
    assert_eq!(*h.entry(1), 'd');
    assert!(!h.can_redo());
}

#[test]
fn recording_keeps_at_most_fifty_entries() {
    let mut h = GeoHistory::new();
    for i in 0..(HISTORY_CAP + 7) {
        h.push(i);
    }
    assert_eq!(h.len(), HISTORY_CAP);
    assert_eq!(*h.entry(0), 7);
    assert_eq!(*h.entry(HISTORY_CAP - 1), HISTORY_CAP + 6);
    assert_eq!(h.index(), HISTORY_CAP);
}

#[test]
fn a_loaded_history_past_its_end_only_steps_back() {
    let mut h = GeoHistory::from_parts(vec![10, 20], 5);
    assert!(!h.can_redo());
    assert_eq!(h.undo(), None);
    assert_eq!(h.index(), 4);
    h.undo();
    h.undo();
    assert_eq!(h.index(), 2);
    let pos = h.undo().unwrap();
    assert_eq!(*h.entry(pos), 20);
}

#[test]
fn snapshot_undo_restores_the_last_snapshot() {
    let mut h = SnapshotHistory::new();
    h.push("cone");
    h.push("kigali");
    assert_eq!(h.len(), 2);
    assert_eq!(h.index(), 2);
    let pos = h.undo().unwrap();
    assert_eq!(*h.entry(pos), "kigali");
    let pos = h.undo().unwrap();
    assert_eq!(*h.entry(pos), "cone");
    assert_eq!(h.undo(), None);
    assert_eq!(h.index(), 0);
}

#[test]
fn snapshot_redo_moves_to_the_next_snapshot() {
    let mut h = SnapshotHistory::new();
    h.push(1);
    h.push(2);
    h.push(3);
    h.undo();
    h.undo();
    assert_eq!(h.index(), 1);
    let pos = h.redo().unwrap();
    assert_eq!(pos, 2);
    assert_eq!(*h.entry(pos), 3);
    assert_eq!(h.redo(), None);
    assert_eq!(h.index(), 2);
}

#[test]
fn snapshot_redo_right_after_recording_does_nothing() {
    let mut h = SnapshotHistory::new();
    h.push('a');
    h.push('b');
    assert_eq!(h.undo(), Some(1));
    assert_eq!(h.redo(), None);
    assert_eq!(h.index(), 1);
}

#[test]
fn snapshot_recording_drops_later_snapshots_and_keeps_all_others() {
    let mut h = SnapshotHistory::new();
    for i in 0..(HISTORY_CAP + 7) {
        h.push(i);
    }
    assert_eq!(h.len(), HISTORY_CAP + 7);
    h.undo();
    h.undo();
    h.undo();
    h.push(1000);
    assert_eq!(h.len(), HISTORY_CAP + 5);
    assert_eq!(*h.entry(HISTORY_CAP + 4), 1000);
    assert_eq!(h.index(), HISTORY_CAP + 5);
}
