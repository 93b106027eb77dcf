use render_core::surface::{select_format, SurfaceController, SurfaceError, SurfaceState, MAX_FRAME_LATENCY};

#[test]
fn prefers_first_srgb_format() {
    assert_eq!(select_format(&vec![false, true, true]), Some(1));
    assert_eq!(select_format(&vec![true, false]), Some(0));
}

#[test]
fn falls_back_to_first_format() {
    assert_eq!(select_format(&vec![false, false, false]), Some(0));
    assert_eq!(select_format(&vec![]), None);
    assert!(matches!(SurfaceController::new(&vec![]), Err(SurfaceError::NoFormats)));
}

#[test]
fn configure_sets_size_vsync_and_latency() {
    let mut s = SurfaceController::new(&vec![false, true]).unwrap();
    assert_eq!(s.state, SurfaceState::Unconfigured);
    assert!(s.needs_configure(800, 600));
    let c = s.configure(800, 600).unwrap();
    assert_eq!((c.format, c.width, c.height, c.vsync, c.max_frame_latency), (1, 800, 600, true, MAX_FRAME_LATENCY));
    assert_eq!(c.max_frame_latency, 2);
    assert!(!s.needs_configure(800, 600));
    assert!(s.needs_configure(801, 600));
}

#[test]
fn last_resize_wins() {
    let mut s = SurfaceController::new(&vec![true]).unwrap();
    for (w, h) in [(100, 100), (640, 480), (1920, 1080), (300, 200)] {
        s.configure(w, h).unwrap();
    }
    match s.state {
        SurfaceState::Configured(c) => assert_eq!((c.width, c.height), (300, 200)),
        _ => panic!("surface not configured"),
    }
}

#[test]
fn torn_down_surface_refuses_configuration() {
    let mut s = SurfaceController::new(&vec![true]).unwrap();
    s.configure(10, 10).unwrap();
    s.tear_down();
    assert_eq!(s.configure(20, 20), Err(SurfaceError::TornDown));
    assert_eq!(s.state, SurfaceState::TornDown);
}
