use wlsnip::app::{
    backend_probe_order, captures_all_workspaces, default_file_name, file_extension, mime_type, plan_outputs,
    resolve_capture_params, resolve_settings, uses_freeze_overlay, BackendKind, CaptureParams,
};
use wlsnip::backends::wlr_screencopy::{composite_outputs, PlacedCapture};
use wlsnip::backends::{
    copy_step, find_output, frame_buffer_request, session_step, CopyStep, FrameEvent,
    FrameState, SessionConstraints, SessionEvent, SessionStep,
};
use wlsnip::backends::xdg_portal::portal_uri_to_path;
use wlsnip::buffers::{CaptureBuffer, PixelFormat};
use wlsnip::cli::{BackendChoice, Cli, Command, ImageFormat};
use wlsnip::config::Config;
use wlsnip::error::WlsnipError;
use wlsnip::utils::freeze_overlay::{button_action, key_cancels, render_selection, ButtonAction, Selection};

fn cli() -> Cli {
    Cli {
        command: None,
        output_file: None,
        format: ImageFormat::Png,
        clipboard: None,
        no_clipboard: false,
        stdout: false,
        backend: None,
        jpeg_quality: None,
        no_cursor: false,
        annotate: false,
        delay: 0,
        notify: false,
        selection_color: None,
        shadow: false,
        padding: None,
        upload: false,
        pin: false,
        ignore_apps: Some(vec!["nautilus".to_string()]),
        slurp: false,
        bench_auto: None,
    }
}

#[test]
fn settings_defaults_and_precedence() {
    let s = resolve_settings(&cli(), &Config::default()).unwrap();
    assert_eq!((s.padding, s.shadow, s.clipboard, s.no_cursor, s.jpeg_quality), (0, false, true, false, 90));
    assert_eq!(s.ignore_apps, Some(vec!["nautilus".to_string()]));

    let mut c = cli();
    c.padding = Some(4);
    c.clipboard = Some(false);
    let mut config = Config::default();
    config.padding = Some(9);
    config.jpeg_quality = Some(70);
    config.shadow = Some(true);
    config.clipboard = Some(true);
    config.selection_color = Some("#ff0000ff".to_string());
    let s = resolve_settings(&c, &config).unwrap();
    assert_eq!((s.padding, s.shadow, s.clipboard, s.jpeg_quality), (4, true, false, 70));
    assert_eq!(s.selection_color.as_deref(), Some("#ff0000ff"));

    let mut c = cli();
    c.no_clipboard = true;
    c.clipboard = Some(true);
    assert!(!resolve_settings(&c, &Config::default()).unwrap().clipboard);
}

#[test]
fn upload_needs_permission() {
    let mut c = cli();
    c.upload = true;
    match resolve_settings(&c, &Config::default()) {
        Err(WlsnipError::Capture(m)) => {
            assert_eq!(m, "Upload is not enabled in ~/.config/wlsnip/config.toml (set allow_upload = true)")
        }
        other => panic!("unexpected {other:?}"),
    }
    let mut config = Config::default();
    config.allow_upload = true;
    assert!(resolve_settings(&c, &config).is_ok());
}

#[test]
fn probe_orders() {
    let mut c = cli();
    assert_eq!(backend_probe_order(&c), vec![BackendKind::Wlr, BackendKind::Ext, BackendKind::Portal]);
    c.backend = Some(BackendChoice::Ext);
    assert_eq!(backend_probe_order(&c), vec![BackendKind::Ext]);
    c.command = Some(Command::Window { query: None });
    assert_eq!(backend_probe_order(&c), vec![BackendKind::Window, BackendKind::Ext]);
    c.backend = None;
    assert_eq!(
        backend_probe_order(&c),
        vec![BackendKind::Window, BackendKind::Wlr, BackendKind::Ext, BackendKind::Portal]
    );
}

#[test]
fn capture_parameters() {
    match resolve_capture_params(&Command::Output { name: "DP-1".into() }, "wlr-screencopy-unstable-v1") {
        CaptureParams::Ready { output_name: Some(n), region: None } => assert_eq!(n, "DP-1"),
        other => panic!("unexpected {other:?}"),
    }
    let w = Command::Window { query: Some("kitty".into()) };
    assert!(matches!(resolve_capture_params(&w, "ext-window-capture"), CaptureParams::Ready { output_name: None, region: None }));
    match resolve_capture_params(&w, "wlr-screencopy-unstable-v1") {
        CaptureParams::ResolveWindow { query } => assert_eq!(query.as_deref(), Some("kitty")),
        other => panic!("unexpected {other:?}"),
    }
    assert!(matches!(resolve_capture_params(&Command::Region, "x"), CaptureParams::Ready { output_name: None, region: None }));
    assert!(captures_all_workspaces(&Command::Output { name: "all".into() }));
    assert!(!captures_all_workspaces(&Command::Output { name: "All".into() }));
    assert!(uses_freeze_overlay(&Command::Region, "wlr-screencopy-unstable-v1"));
    assert!(!uses_freeze_overlay(&Command::Region, "xdg-desktop-portal"));
    assert!(!uses_freeze_overlay(&Command::Full, "wlr-screencopy-unstable-v1"));
}

#[test]
fn output_plan_and_names() {
    let c = cli();
    let s = resolve_settings(&c, &Config::default()).unwrap();
    let p = plan_outputs(&c, &s);
    assert!(p.write_default_file && p.copy_to_clipboard && !p.write_file && !p.upload);
    let mut c2 = cli();
    c2.stdout = true;
    assert!(!plan_outputs(&c2, &s).write_default_file);
    assert_eq!(mime_type(ImageFormat::Jpeg), "image/jpeg");
    assert_eq!(file_extension(ImageFormat::Jpeg), "jpg");
    assert_eq!(default_file_name(1748541600, ImageFormat::Webp), "wlsnip-1748541600.webp");
    assert_eq!(default_file_name(0, ImageFormat::Png), "wlsnip-0.png");
}

#[test]
fn portal_paths() {
    assert_eq!(portal_uri_to_path("file:///tmp/shot.png"), "/tmp/shot.png");
    assert_eq!(portal_uri_to_path("/tmp/x.png"), "/tmp/x.png");
    assert_eq!(portal_uri_to_path("file:/"), "file:/");
}

#[test]
fn output_lookup() {
    let names = vec!["eDP-1".to_string(), "DP-1".to_string(), "DP-1".to_string()];
    assert_eq!(find_output(&names, Some("DP-1")).unwrap(), 1);
    assert_eq!(find_output(&names, None).unwrap(), 0);
    match find_output(&names, Some("HDMI-A-1")) {
        Err(WlsnipError::OutputNotFound(n)) => assert_eq!(n, "HDMI-A-1"),
        other => panic!("unexpected {other:?}"),
    }
    match find_output(&Vec::new(), None) {
        Err(WlsnipError::Capture(m)) => assert_eq!(m, "no outputs found"),
        other => panic!("unexpected {other:?}"),
    }
}

#[test]
fn session_negotiation() {
    let mut c = SessionConstraints::new();
    assert_eq!(session_step(&c), SessionStep::Wait);
    c.apply(SessionEvent::ShmFormat { code: 1 });
    c.apply(SessionEvent::ShmFormat { code: 0 });
    c.apply(SessionEvent::BufferSize { width: 10, height: 20 });
    assert_eq!(session_step(&c), SessionStep::Wait);
    c.apply(SessionEvent::Done);
    assert_eq!(session_step(&c), SessionStep::Allocate { width: 10, height: 20, shm_format: 1 });
    c.apply(SessionEvent::Stopped);
    assert_eq!(session_step(&c), SessionStep::Stopped);
    let mut d = SessionConstraints::new();
    d.apply(SessionEvent::Done);
    assert_eq!(session_step(&d), SessionStep::MissingSize);
}

#[test]
fn frame_copy() {
    let mut f = FrameState::new();
    assert_eq!(frame_buffer_request(&f), Err(Some(0)));
    f.apply(FrameEvent::Buffer { shm_format: 1, width: 3, height: 2, stride: 12 });
    assert_eq!(frame_buffer_request(&f), Ok((1, 3, 2, 12)));
    assert_eq!(copy_step(&f), CopyStep::Wait);
    f.apply(FrameEvent::Failed);
    assert_eq!(frame_buffer_request(&f), Err(None));
    assert_eq!(copy_step(&f), CopyStep::Failed);
    f.apply(FrameEvent::Ready);
    assert_eq!(copy_step(&f), CopyStep::Ready);
}

#[test]
fn compositing_outputs_at_their_positions() {
    let a = CaptureBuffer { width: 1, height: 1, stride: 4, format: PixelFormat::Xrgb8888, data: vec![1, 1, 1, 1] };
    let b = CaptureBuffer { width: 1, height: 2, stride: 4, format: PixelFormat::Argb8888, data: vec![2, 2, 2, 2, 3, 3, 3, 3] };
    let c = composite_outputs(vec![
        PlacedCapture { x: 100, y: 50, buffer: a },
        PlacedCapture { x: 102, y: 49, buffer: b },
    ])
    .unwrap();
    assert_eq!((c.width, c.height, c.stride, c.format), (3, 2, 12, PixelFormat::Xrgb8888));
    assert_eq!(c.data, vec![0, 0, 0, 0, 0, 0, 0, 0, 2, 2, 2, 2, 1, 1, 1, 1, 0, 0, 0, 0, 3, 3, 3, 3]);
    match composite_outputs(Vec::new()) {
        Err(WlsnipError::Capture(m)) => assert_eq!(m, "Failed to capture any outputs"),
        other => panic!("unexpected {other:?}"),
    }
}

#[test]
fn later_outputs_cover_earlier_ones() {
    let a = CaptureBuffer { width: 2, height: 1, stride: 8, format: PixelFormat::Xrgb8888, data: vec![1; 8] };
    let b = CaptureBuffer { width: 1, height: 1, stride: 4, format: PixelFormat::Xrgb8888, data: vec![2; 4] };
    let c = composite_outputs(vec![PlacedCapture { x: 0, y: 0, buffer: a }, PlacedCapture { x: 1, y: 0, buffer: b }]).unwrap();
    assert_eq!(c.data, vec![1, 1, 1, 1, 2, 2, 2, 2]);
}

#[test]
fn selection_buttons_and_keys() {
    assert_eq!(button_action(272, true), ButtonAction::StartDrag);
    assert_eq!(button_action(272, false), ButtonAction::FinishDrag);
    assert_eq!(button_action(273, true), ButtonAction::Cancel);
    assert_eq!(button_action(273, false), ButtonAction::Ignore);
    assert!(key_cancels(1, true));
    assert!(!key_cancels(1, false));
    assert!(!key_cancels(2, true));
}

#[test]
fn selection_overlay_dims_borders_and_labels() {
    // 40 x 30 image, 4 bytes per pixel, every byte 0x80
    let (w, h) = (40usize, 30usize);
    let base = vec![0x80u8; w * h * 4];
    let frame = render_selection(&base, w, h, (w * 4) as u32, Selection { min_x: 5, min_y: 5, max_x: 10, max_y: 7 });
    let px = |x: usize, y: usize| -> [u8; 4] {
        let o = (y * w + x) * 4;
        [frame[o], frame[o + 1], frame[o + 2], frame[o + 3]]
    };
    // inside the selection: untouched
    assert_eq!(px(6, 6), [0x80; 4]);
    // outside: halved
    assert_eq!(px(0, 0), [0x40; 4]);
    // border: red 0x00FF0000 little-endian
    assert_eq!(px(4, 6), [0, 0, 0xFF, 0]);
    assert_eq!(px(10, 5), [0, 0, 0xFF, 0]);
    assert_eq!(px(7, 4), [0, 0, 0xFF, 0]);
    assert_eq!(px(7, 7), [0, 0, 0xFF, 0]);
    // the corner outside the border is only dimmed
    assert_eq!(px(4, 4), [0x40; 4]);
    // the "5x2" label (48 pixels wide) does not fit right of the selection
    // and not left of it either, so it starts at (0, 11): row 0 of the
    // glyph of '5' is 0x3F, bits 0 to 5 lit, bits 6 and 7 dark
    assert_eq!(px(0, 11), [0xFF, 0xFF, 0xFF, 0]);
    assert_eq!(px(1, 12), [0xFF, 0xFF, 0xFF, 0]);
    assert_eq!(px(14, 11), [0x40; 4]);
    assert_eq!(frame.len(), base.len());
}

#[test]
fn selection_overlay_leaves_odd_sized_data() {
    let base = vec![7u8; 10];
    let frame = render_selection(&base, 1, 1, 4, Selection { min_x: 0, min_y: 0, max_x: 0, max_y: 0 });
    assert_eq!(frame, base);
}
