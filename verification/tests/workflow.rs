use std::cell::RefCell;
use wlsnip::backends::wlr_screencopy::{can_composite, composite_outputs, PlacedCapture};
use wlsnip::encoders::png::can_encode;
use wlsnip::utils::color::convert_to_rgba;
use wlsnip::utils::effects::can_apply_effects;
use wlsnip::utils::geometry::can_crop;
use wlsnip::utils::virtual_pointer::drag_points;
use wlsnip::app::{backend_name, benchmark_iterations, select_backend, upload_link, BackendKind};
use wlsnip::backends::window_capture::{select_toplevel, window_backend_label, Toplevel};
use wlsnip::backends::xdg_portal::{portal_buffer, XdgPortalBackend};
use wlsnip::buffers::{CaptureBuffer, PixelFormat};
use wlsnip::cli::{Cli, ImageFormat};
use wlsnip::error::WlsnipError;
use wlsnip::utils::freeze_overlay::{
    pin_dismissed_by, slurp_outcome, PointerEvent, PointerTracker, SelectionProgress, BTN_LEFT, BTN_RIGHT, KEY_ESC,
};
use wlsnip::utils::geometry::{slurp_args, slurp_selection, Region};
use wlsnip::utils::workspace_capture::{
    can_stitch, detect_compositor, Compositor, TourAction, TourEvent, TourPhase, WorkspaceTour,
};

fn cli() -> Cli {
    Cli {
        command: None,
        output_file: None,
        format: ImageFormat::Png,
        clipboard: None,
        no_clipboard: false,
        stdout: false,
        backend: None,
        jpeg_quality: None,
        no_cursor: false,
        annotate: false,
        delay: 0,
        notify: false,
        selection_color: None,
        shadow: false,
        padding: None,
        upload: false,
        pin: false,
        ignore_apps: None,
        slurp: false,
        bench_auto: None,
    }
}

fn buffer(width: u32, height: u32, fill: u8) -> CaptureBuffer {
    CaptureBuffer {
        width,
        height,
        stride: width * 4,
        format: PixelFormat::Xrgb8888,
        data: vec![fill; (width * height * 4) as usize],
    }
}

#[test]
fn portal_backend_needs_a_session_bus() {
    assert!(XdgPortalBackend::probe(false).is_none());
    let b = XdgPortalBackend::probe(true).unwrap();
    assert_eq!(b.name(), "xdg-desktop-portal");
}

#[test]
fn portal_image_is_packed_abgr() {
    let buf = portal_buffer(2, 1, vec![1, 2, 3, 4, 5, 6, 7, 8]);
    assert_eq!(buf.stride, 8);
    assert_eq!(buf.format, PixelFormat::Abgr8888);
    assert_eq!(buf.data, vec![1, 2, 3, 4, 5, 6, 7, 8]);
    assert_eq!((buf.width, buf.height), (2, 1));
}

fn toplevel(title: &str, app_id: &str) -> Toplevel {
    Toplevel { title: title.to_string(), app_id: app_id.to_string() }
}

#[test]
fn toplevel_selection() {
    let ts = vec![toplevel("Terminal", "foot"), toplevel("Docs - Firefox", "firefox")];
    assert_eq!(select_toplevel(&ts, None).unwrap(), 0);
    assert_eq!(select_toplevel(&ts, Some("FIRE")).unwrap(), 1);
    assert_eq!(select_toplevel(&ts, Some("term")).unwrap(), 0);
    match select_toplevel(&ts, Some("gimp")) {
        Err(WlsnipError::Capture(m)) => assert_eq!(m, "no window matching 'gimp' found"),
        other => panic!("unexpected {other:?}"),
    }
    match select_toplevel(&vec![], None) {
        Err(WlsnipError::Capture(m)) => assert_eq!(m, "no windows found"),
        other => panic!("unexpected {other:?}"),
    }
    assert_eq!(window_backend_label(), "ext-window-capture");
}

#[test]
fn pool_bytes_are_cut_to_the_frame() {
    let pool: Vec<u8> = (0u8..20).collect();
    let buf = CaptureBuffer::from_pool_bytes(&pool, 2, 2, 8, PixelFormat::Argb8888);
    assert_eq!(buf.data, (0u8..16).collect::<Vec<u8>>());
    assert_eq!((buf.width, buf.height, buf.stride), (2, 2, 8));
    assert_eq!(buf.format, PixelFormat::Argb8888);
}

#[test]
fn error_messages() {
    assert_eq!(WlsnipError::NoBackendAvailable.message(), "no supported capture backend available");
    assert_eq!(WlsnipError::Capture("x".into()).message(), "capture failed: x");
    assert_eq!(WlsnipError::Io("disk full".into()).message(), "I/O error: disk full");
    assert_eq!(WlsnipError::RegionSelection("r".into()).message(), "region selection failed: r");
    assert_eq!(WlsnipError::OutputNotFound("DP-1".into()).message(), "output not found: DP-1");
}

#[test]
fn slurp_arguments() {
    let default: Vec<String> = slurp_args(None);
    assert_eq!(default, vec!["-b", "#2E2A1E55", "-c", "#fb751bff", "-s", "#fb751b22", "-w", "2"]);
    let custom = slurp_args(Some("#ff0000ff"));
    assert_eq!(custom[3], "#ff0000ff");
    assert_eq!(custom.len(), 8);
}

#[test]
fn slurp_results() {
    assert_eq!(slurp_selection(true, "1,2 3x4\n").unwrap(), Region { x: 1, y: 2, width: 3, height: 4 });
    match slurp_selection(false, "1,2 3x4") {
        Err(WlsnipError::RegionSelection(m)) => assert_eq!(m, "slurp was cancelled or failed"),
        other => panic!("unexpected {other:?}"),
    }
    // a failed slurp counts as a cancelled selection over the frozen frame
    assert_eq!(slurp_outcome(slurp_selection(false, "")).unwrap(), None);
    let r = Region { x: 0, y: 0, width: 1, height: 1 };
    assert_eq!(slurp_outcome(Ok(r)).unwrap(), Some(r));
    match slurp_outcome(slurp_selection(true, "garbage")) {
        Err(WlsnipError::RegionSelection(m)) => assert_eq!(m, "invalid slurp geometry: \"garbage\""),
        other => panic!("unexpected {other:?}"),
    }
}

#[test]
fn drag_selection() {
    let mut t: PointerTracker<(i32, i32)> = PointerTracker::new();
    t.apply(PointerEvent::Motion { pos: (1, 1) });
    // motion outside our layers is not followed
    assert_eq!(t.current, None);
    t.apply(PointerEvent::Enter { layer: Some(0), pos: (10, 20) });
    assert_eq!(t.current, Some((10, 20)));
    t.apply(PointerEvent::Button { button: BTN_LEFT, pressed: true });
    assert!(t.dragging);
    t.apply(PointerEvent::Motion { pos: (30, 5) });
    match t.progress() {
        SelectionProgress::Dragging { start, end, layer } => {
            assert_eq!((start, end, layer), ((10, 20), (30, 5), 0));
        },
        other => panic!("unexpected {other:?}"),
    }
    // leaving while dragging keeps the drag
    t.apply(PointerEvent::Leave);
    assert_eq!(t.focus, Some(0));
    t.apply(PointerEvent::Button { button: BTN_LEFT, pressed: false });
    match t.progress() {
        SelectionProgress::Selected(a, b) => assert_eq!((a, b), ((10, 20), (30, 5))),
        other => panic!("unexpected {other:?}"),
    }
}

#[test]
fn drag_cancel_and_release_without_focus() {
    let mut t: PointerTracker<u8> = PointerTracker::new();
    assert!(matches!(t.progress(), SelectionProgress::Waiting));
    // a release without a start selects nothing
    t.apply(PointerEvent::Button { button: BTN_LEFT, pressed: false });
    assert!(t.selected.is_none());
    t.apply(PointerEvent::Key { key: KEY_ESC, pressed: false });
    assert!(!t.canceled);
    t.apply(PointerEvent::Key { key: KEY_ESC, pressed: true });
    assert!(matches!(t.progress(), SelectionProgress::Canceled));
    let mut r: PointerTracker<u8> = PointerTracker::new();
    r.apply(PointerEvent::Button { button: BTN_RIGHT, pressed: true });
    assert!(r.canceled);
}

#[test]
fn pin_dismissal() {
    assert!(pin_dismissed_by(&PointerEvent::<u8>::Button { button: 999, pressed: true }));
    assert!(!pin_dismissed_by(&PointerEvent::<u8>::Button { button: BTN_LEFT, pressed: false }));
    assert!(pin_dismissed_by(&PointerEvent::<u8>::Key { key: KEY_ESC, pressed: true }));
    assert!(!pin_dismissed_by(&PointerEvent::<u8>::Key { key: 2, pressed: true }));
    assert!(!pin_dismissed_by(&PointerEvent::Motion { pos: 3u8 }));
}

#[test]
fn compositor_detection() {
    assert_eq!(detect_compositor(true, true, true), Compositor::Hyprland);
    assert_eq!(detect_compositor(false, true, true), Compositor::Sway);
    assert_eq!(detect_compositor(false, false, true), Compositor::MangoWm);
    assert_eq!(detect_compositor(false, false, false), Compositor::Unknown);
}

#[test]
fn stitch_check() {
    assert!(can_stitch(&vec![]));
    assert!(can_stitch(&vec![buffer(1, 1, 0)]));
    assert!(can_stitch(&vec![buffer(2, 3, 0), buffer(4, 1, 0)]));
    let mut short = buffer(2, 2, 0);
    short.data.truncate(10);
    assert!(!can_stitch(&vec![buffer(1, 1, 0), short]));
    // too wide for a u32 stride
    let wide = CaptureBuffer { width: 0x3000_0000, height: 0, stride: 0, format: PixelFormat::Xrgb8888, data: vec![] };
    assert!(!can_stitch(&vec![wide.clone(), wide]));
}

fn run_tour(tour: &mut WorkspaceTour, switch_ok: &[bool], capture_ok: &[bool]) -> Vec<String> {
    let mut log = Vec::new();
    let (mut s, mut c) = (0, 0);
    loop {
        match tour.action() {
            TourAction::SwitchTo(w) => {
                log.push(format!("switch {w}"));
                tour.record(TourEvent::Switched(switch_ok[s]));
                s += 1;
            },
            TourAction::Capture => {
                log.push("capture".to_string());
                let b = if capture_ok[c] { Some(buffer(1, 1, c as u8 + 1)) } else { None };
                tour.record(TourEvent::Captured(b));
                c += 1;
            },
            TourAction::Restore(w) => {
                log.push(format!("restore {w}"));
                tour.record(TourEvent::Restored);
            },
            TourAction::Finish => break,
        }
    }
    log
}

#[test]
fn workspace_tour_visits_every_workspace_and_returns() {
    let mut tour = WorkspaceTour::new("2".into(), vec!["1".into(), "2".into(), "3".into()]);
    let log = run_tour(&mut tour, &[true, false, true], &[true, true]);
    assert_eq!(log, vec!["switch 1", "capture", "switch 2", "switch 3", "capture", "restore 2"]);
    assert_eq!(tour.phase, TourPhase::Done);
    let out = tour.finish().unwrap();
    assert_eq!((out.width, out.height), (2, 1));
    assert_eq!(out.data, vec![1, 1, 1, 1, 2, 2, 2, 2]);
}

#[test]
fn workspace_tour_without_captures_fails() {
    let mut tour = WorkspaceTour::new("1".into(), vec![]);
    let log = run_tour(&mut tour, &[], &[]);
    assert_eq!(log, vec!["restore 1"]);
    match tour.finish() {
        Err(WlsnipError::Capture(m)) => assert_eq!(m, "Failed to capture any workspaces"),
        other => panic!("unexpected {other:?}"),
    }
    // an event that does not answer the action changes nothing
    let mut t = WorkspaceTour::new("1".into(), vec!["a".into()]);
    t.record(TourEvent::Restored);
    assert_eq!(t.phase, TourPhase::Visit(0));
}

#[test]
fn app_helpers() {
    assert_eq!(backend_name(BackendKind::Wlr), "wlr-screencopy-unstable-v1");
    assert_eq!(backend_name(BackendKind::Ext), "ext-image-copy-capture-v1");
    assert_eq!(backend_name(BackendKind::Portal), "xdg-desktop-portal");
    assert_eq!(backend_name(BackendKind::Window), "ext-window-capture");
    let mut c = cli();
    assert_eq!(benchmark_iterations(&c), None);
    c.bench_auto = Some(None);
    assert_eq!(benchmark_iterations(&c), Some(10));
    c.bench_auto = Some(Some(3));
    assert_eq!(benchmark_iterations(&c), Some(3));
    assert_eq!(upload_link(Some("https://i.imgur.com/x.png".into())).unwrap(), "https://i.imgur.com/x.png");
    match upload_link(None) {
        Err(WlsnipError::Capture(m)) => assert_eq!(m, "Upload failed: No link in response"),
        other => panic!("unexpected {other:?}"),
    }
}

#[test]
fn crop_effects_and_png_checks() {
    let b = buffer(10, 10, 0);
    assert!(can_crop(&b, &Region { x: 2, y: 2, width: 5, height: 5 }));
    // outside the buffer: crop reports the error itself
    assert!(can_crop(&b, &Region { x: 8, y: 8, width: 5, height: 5 }));
    // the bounds test itself would overflow
    assert!(!can_crop(&b, &Region { x: i32::MAX, y: 0, width: u32::MAX, height: 1 }));
    let mut short = buffer(10, 10, 0);
    short.data.truncate(100);
    assert!(!can_crop(&short, &Region { x: 0, y: 0, width: 10, height: 10 }));
    assert!(can_apply_effects(&b, 0, false));
    assert!(can_apply_effects(&b, 4, true));
    assert!(!can_apply_effects(&b, u32::MAX, false));
    assert!(!can_apply_effects(&short, 1, false));
    assert!(can_encode(&b));
    let zero_stride = CaptureBuffer { stride: 0, ..buffer(1, 1, 0) };
    assert!(!can_encode(&zero_stride));
    let abgr = CaptureBuffer { stride: 0, format: PixelFormat::Abgr8888, width: 0, height: 0, data: vec![] };
    assert!(can_encode(&abgr));
}

#[test]
fn composite_check() {
    let items = vec![
        PlacedCapture { x: 0, y: 0, buffer: buffer(2, 2, 1) },
        PlacedCapture { x: 2, y: 0, buffer: buffer(2, 2, 2) },
    ];
    assert!(can_composite(&items));
    assert!(can_composite(&vec![]));
    let far = vec![
        PlacedCapture { x: i32::MIN, y: 0, buffer: buffer(1, 1, 1) },
        PlacedCapture { x: i32::MAX - 1, y: 0, buffer: buffer(1, 1, 2) },
    ];
    assert!(!can_composite(&far));
    let out = composite_outputs(items).unwrap();
    assert_eq!((out.width, out.height, out.stride), (4, 2, 16));
}

#[test]
fn slurp_text_reads_back() {
    for r in [
        Region { x: -1920, y: 0, width: 1, height: u32::MAX },
        Region { x: i32::MIN, y: i32::MAX, width: 0, height: 7 },
    ] {
        let text = format!("{},{} {}x{}\n", r.x, r.y, r.width, r.height);
        assert_eq!(Region::from_slurp(&text).unwrap(), r);
    }
}

#[test]
fn argb_conversion_keeps_row_padding_and_undoes_itself() {
    let mut b = CaptureBuffer {
        width: 2,
        height: 2,
        stride: 12,
        format: PixelFormat::Argb8888,
        data: (0u8..24).collect(),
    };
    let before = b.data.clone();
    convert_to_rgba(&mut b);
    assert_eq!(&b.data[0..4], &[2, 1, 0, 3]);
    // the padding bytes of each row stay
    assert_eq!(&b.data[8..12], &[8, 9, 10, 11]);
    convert_to_rgba(&mut b);
    assert_eq!(b.data, before);
}

#[test]
fn drag_path() {
    let pts = drag_points(100, 200, 300, 100, 4);
    assert_eq!(pts, vec![(150, 200), (200, 200), (250, 200), (300, 200)]);
    let pts = drag_points(0, 0, 10, 10, 3);
    assert_eq!(pts, vec![(3, 3), (6, 6), (10, 10)]);
}

#[test]
fn backend_selection_stops_at_the_first_available() {
    let c = cli();
    let probed = RefCell::new(Vec::new());
    let chosen = select_backend(&c, |k| {
        probed.borrow_mut().push(k);
        if k == BackendKind::Ext { Some(k) } else { None }
    });
    assert_eq!(chosen.unwrap(), BackendKind::Ext);
    assert_eq!(*probed.borrow(), vec![BackendKind::Wlr, BackendKind::Ext]);
    match select_backend(&c, |_| None::<u8>) {
        Err(WlsnipError::NoBackendAvailable) => {},
        other => panic!("unexpected {other:?}"),
    }
    let mut forced = cli();
    forced.backend = Some(wlsnip::cli::BackendChoice::Portal);
    forced.command = Some(wlsnip::cli::Command::Window { query: None });
    let seen = RefCell::new(Vec::new());
    let _ = select_backend(&forced, |k| {
        seen.borrow_mut().push(k);
        None::<u8>
    });
    assert_eq!(*seen.borrow(), vec![BackendKind::Window, BackendKind::Portal]);
}

#[test]
fn composite_of_a_single_output_is_its_image() {
    let b = CaptureBuffer { width: 2, height: 2, stride: 8, format: PixelFormat::Argb8888, data: (0u8..16).collect() };
    let out = composite_outputs(vec![PlacedCapture { x: -100, y: 50, buffer: b.clone() }]).unwrap();
    assert_eq!((out.width, out.height, out.stride, out.format), (2, 2, 8, PixelFormat::Argb8888));
    assert_eq!(out.data, b.data);
}

#[test]
fn escape_cancels_even_after_a_finished_drag() {
    let mut t: PointerTracker<u8> = PointerTracker::new();
    t.apply(PointerEvent::Enter { layer: Some(1), pos: 3 });
    t.apply(PointerEvent::Button { button: BTN_LEFT, pressed: true });
    t.apply(PointerEvent::Motion { pos: 9 });
    t.apply(PointerEvent::Button { button: BTN_LEFT, pressed: false });
    assert!(matches!(t.progress(), SelectionProgress::Selected(3, 9)));
    t.apply(PointerEvent::Key { key: KEY_ESC, pressed: true });
    assert!(matches!(t.progress(), SelectionProgress::Canceled));
    // and nothing brings the selection back
    t.apply(PointerEvent::Button { button: BTN_LEFT, pressed: false });
    assert!(matches!(t.progress(), SelectionProgress::Canceled));
}
