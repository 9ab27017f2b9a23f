use gbfr_logs::window_state::{
    monitor_scan_overflows, position_is_on_a_monitor, restore_plan, snapshot_state, Geometry, MonitorArea, WindowReading,
    WindowStateCache,
};

fn geometry(x: i32, y: i32, w: u32, h: u32) -> Geometry {
    Geometry { x, y, width: w, height: h, maximized: false }
}

fn monitors() -> Vec<MonitorArea> {
    vec![
        MonitorArea { x: 0, y: 0, width: 1920, height: 1080 },
        MonitorArea { x: -1280, y: 0, width: 1280, height: 1024 },
    ]
}

fn reading(label: &str, pos: Option<(i32, i32)>, size: Option<(u32, u32)>) -> WindowReading {
    WindowReading { label: label.to_string(), position: pos, size, maximized: Some(false) }
}

#[test]
fn overlapping_positions_are_on_screen() {
    let m = monitors();
    let g = geometry(100, 100, 800, 600);
    assert!(position_is_on_a_monitor(Some(&m), 100, 100, &g));
    // Negative offset on the monitor left of the primary.
    assert!(position_is_on_a_monitor(Some(&m), -900, 10, &g));
    // Partly off the left edge but still overlapping.
    assert!(position_is_on_a_monitor(Some(&m), -2000, 10, &g));
    // Entirely left of every monitor.
    assert!(!position_is_on_a_monitor(Some(&m), -2080, 10, &g));
    assert!(!position_is_on_a_monitor(Some(&m), 3000, 10, &g));
    assert!(!position_is_on_a_monitor(None, 100, 100, &g));
}

#[test]
fn restore_keeps_position_only_on_screen() {
    let m = monitors();
    let on = restore_plan(&geometry(10, 10, 300, 200), Some(&m));
    assert_eq!(on.position, Some((10, 10)));
    assert_eq!(on.size, Some((300, 200)));
    let off = restore_plan(&Geometry { maximized: true, ..geometry(5000, 10, 300, 200) }, Some(&m));
    assert_eq!(off.position, None);
    assert_eq!(off.size, None);
    assert!(off.maximize);
    let unknown = restore_plan(&geometry(10, 10, 300, 200), None);
    assert_eq!(unknown.position, None);
    assert_eq!(unknown.size, None);
}

#[test]
fn snapshots_skip_unreadable_and_empty_windows() {
    let readings = vec![
        reading("main", Some((1, 2)), Some((800, 600))),
        reading("logs", None, Some((800, 600))),
        reading("hidden", Some((1, 2)), Some((0, 600))),
        WindowReading { label: "overlay".to_string(), position: Some((5, 6)), size: Some((10, 20)), maximized: None },
    ];
    let state = snapshot_state(&readings);
    assert_eq!(state.len(), 2);
    assert_eq!(state[0].label, "main");
    assert_eq!(state[0].geometry, geometry(1, 2, 800, 600));
    assert_eq!(state[1].label, "overlay");
    assert!(!state[1].geometry.maximized);
}

#[test]
fn unchanged_state_is_not_written_twice() {
    let mut cache = WindowStateCache::new();
    let first = snapshot_state(&vec![
        reading("main", Some((1, 2)), Some((800, 600))),
        reading("logs", Some((3, 4)), Some((400, 300))),
    ]);
    assert!(cache.should_write(&first));
    cache.mark_written(first);
    // Same windows in another order: the same map, so nothing to write.
    let same = snapshot_state(&vec![
        reading("logs", Some((3, 4)), Some((400, 300))),
        reading("main", Some((1, 2)), Some((800, 600))),
    ]);
    assert!(!cache.should_write(&same));
    let moved = snapshot_state(&vec![
        reading("logs", Some((3, 5)), Some((400, 300))),
        reading("main", Some((1, 2)), Some((800, 600))),
    ]);
    assert!(cache.should_write(&moved));
    let fewer = snapshot_state(&vec![reading("main", Some((1, 2)), Some((800, 600)))]);
    assert!(cache.should_write(&fewer));
}

#[test]
fn empty_state_is_never_written() {
    let cache = WindowStateCache::new();
    assert!(!cache.should_write(&Vec::new()));
}

#[test]
fn clearing_forces_the_next_write() {
    let mut cache = WindowStateCache::new();
    let state = snapshot_state(&vec![reading("main", Some((1, 2)), Some((800, 600)))]);
    cache.mark_written(state);
    cache.clear();
    let again = snapshot_state(&vec![reading("main", Some((1, 2)), Some((800, 600)))]);
    assert!(cache.should_write(&again));
}

#[test]
fn only_reached_sums_can_overflow() {
    let m = vec![
        MonitorArea { x: 0, y: 0, width: 1920, height: 1080 },
        MonitorArea { x: i32::MAX - 150, y: 0, width: 200, height: 100 },
    ];
    let g = geometry(10, 10, 300, 200);
    // The first monitor overlaps, so the second one's sums are never formed.
    assert!(!monitor_scan_overflows(Some(&m), 10, 10, &g));
    assert!(position_is_on_a_monitor(Some(&m), 10, 10, &g));
    // Off the first monitor, the scan reaches the second, whose right edge
    // overflows.
    assert!(monitor_scan_overflows(Some(&m), i32::MAX - 400, 10, &g));
    // Left of the second monitor, its right edge is never formed.
    assert!(!monitor_scan_overflows(Some(&m), 5000, 10, &g));
    // A window whose own right edge overflows.
    assert!(monitor_scan_overflows(Some(&m), i32::MAX, 0, &g));
    assert!(!monitor_scan_overflows(None, i32::MAX, 0, &g));
}
