use colorlaunch::surface::{OutputSurface, SurfaceSet};

fn record(output: u32, surface: u32, width: u32, height: u32) -> OutputSurface {
    OutputSurface { output, surface, width, height }
}

#[test]
fn new_set_is_empty() {
    let set = SurfaceSet::new();
    assert!(set.is_empty());
    assert_eq!(set.len(), 0);
    assert_eq!(set.get(0), None);
    assert_eq!(set.lookup(1), None);
}

#[test]
fn connected_surface_starts_without_size() {
    let mut set = SurfaceSet::new();
    assert!(set.connect(7, 70));
    assert_eq!(set.len(), 1);
    assert_eq!(set.lookup(70), Some(record(7, 70, 0, 0)));
}

#[test]
fn connect_then_disconnect_leaves_the_set_empty() {
    let mut set = SurfaceSet::new();
    assert!(set.connect(1, 10));
    assert_eq!(set.disconnect(1), Some(record(1, 10, 0, 0)));
    assert!(set.is_empty());
    assert_eq!(set.lookup(10), None);
}

#[test]
fn configure_records_the_latest_size() {
    let mut set = SurfaceSet::new();
    set.connect(1, 10);
    assert!(set.configure(10, 1920, 1080));
    assert_eq!(set.lookup(10), Some(record(1, 10, 1920, 1080)));
    assert!(set.configure(10, 800, 600));
    assert_eq!(set.lookup(10), Some(record(1, 10, 800, 600)));
}

#[test]
fn configure_of_an_unknown_surface_changes_nothing() {
    let mut set = SurfaceSet::new();
    set.connect(1, 10);
    assert!(!set.configure(11, 640, 480));
    assert_eq!(set.len(), 1);
    assert_eq!(set.lookup(10), Some(record(1, 10, 0, 0)));
}

#[test]
fn configure_touches_one_surface_only() {
    let mut set = SurfaceSet::new();
    set.connect(1, 10);
    set.connect(2, 20);
    set.configure(20, 300, 200);
    assert_eq!(set.lookup(10), Some(record(1, 10, 0, 0)));
    assert_eq!(set.lookup(20), Some(record(2, 20, 300, 200)));
}

#[test]
fn disconnect_of_an_unknown_display_changes_nothing() {
    let mut set = SurfaceSet::new();
    set.connect(1, 10);
    assert_eq!(set.disconnect(2), None);
    assert_eq!(set.len(), 1);
}

#[test]
fn disconnect_moves_the_last_record_into_the_gap() {
    let mut set = SurfaceSet::new();
    set.connect(1, 10);
    set.connect(2, 20);
    set.connect(3, 30);
    assert_eq!(set.disconnect(1), Some(record(1, 10, 0, 0)));
    assert_eq!(set.len(), 2);
    assert_eq!(set.get(0), Some(record(3, 30, 0, 0)));
    assert_eq!(set.get(1), Some(record(2, 20, 0, 0)));
    assert_eq!(set.get(2), None);
}

#[test]
fn disconnect_of_the_last_record_keeps_the_others_in_place() {
    let mut set = SurfaceSet::new();
    set.connect(1, 10);
    set.connect(2, 20);
    assert_eq!(set.disconnect(2), Some(record(2, 20, 0, 0)));
    assert_eq!(set.get(0), Some(record(1, 10, 0, 0)));
    assert_eq!(set.len(), 1);
}

#[test]
fn display_is_recorded_once() {
    let mut set = SurfaceSet::new();
    assert!(set.connect(1, 10));
    assert!(!set.connect(1, 11));
    assert!(!set.connect(2, 10));
    assert_eq!(set.len(), 1);
    assert_eq!(set.lookup(11), None);
}

#[test]
fn close_removes_the_record_of_the_surface() {
    let mut set = SurfaceSet::new();
    set.connect(1, 10);
    set.connect(2, 20);
    set.configure(10, 5, 5);
    assert_eq!(set.close(10), Some(record(1, 10, 5, 5)));
    assert_eq!(set.close(10), None);
    assert_eq!(set.len(), 1);
    assert_eq!(set.get(0), Some(record(2, 20, 0, 0)));
}

#[test]
fn display_can_reconnect_after_disconnect() {
    let mut set = SurfaceSet::new();
    set.connect(1, 10);
    set.configure(10, 100, 100);
    set.disconnect(1);
    assert!(set.connect(1, 12));
    assert_eq!(set.lookup(12), Some(record(1, 12, 0, 0)));
}
