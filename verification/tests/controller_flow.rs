//! The controller's plans and the session scenarios: restore at startup,
//! the debounced restyle, the reset action, and the drag-resize bridge.

use window_chrome::chrome::{Bounds, WindowModel};
use window_chrome::codec::encode_geometry;
use window_chrome::controller::{
    ChromeAction, ChromeEvent, ChromeSession, load_saved, plan, run_plan, settle_plan,
    settle_restyle, step,
};
use window_chrome::geometry::WindowGeometry;
use window_chrome::interact::resize_command;

fn window_at(x: i32, y: i32, width: i32, height: i32) -> WindowModel {
    WindowModel {
        bounds: Bounds { x, y, width, height },
        style: 0x10CF_0000,
        exstyle: 0x0000_0100,
        resizable: true,
        shadow: true,
        decorations: true,
        min_size: None,
        transparent: false,
        title_empty: false,
        brush_null: false,
        frame_extended: false,
        nc_rendering_policy: None,
        corner_preference: None,
        border_color: None,
        region: None,
        children: Vec::new(),
    }
}

fn session_with(window: WindowModel, saved: Option<Vec<u8>>) -> ChromeSession {
    ChromeSession {
        window,
        saved,
        screen_width: 1920,
        screen_height: 1080,
        restyle_scheduled: false,
        exited: false,
    }
}

#[test]
fn the_creation_plan_restores_size_then_position() {
    let loaded = Some(WindowGeometry { x: 100, y: 100, width: Some(360), height: Some(382) });
    let acts = plan(&ChromeEvent::Created(loaded));
    assert_eq!(
        acts,
        vec![
            ChromeAction::SetSizePhysical(360, 382),
            ChromeAction::SetPosition(100, 100),
            ChromeAction::ApplyStyle,
            ChromeAction::SanitizeChildren,
            ChromeAction::ApplyClip,
        ],
    );
}

#[test]
fn the_creation_plan_skips_a_zero_size() {
    let loaded = Some(WindowGeometry { x: 7, y: 9, width: Some(0), height: Some(382) });
    let acts = plan(&ChromeEvent::Created(loaded));
    assert_eq!(
        acts,
        vec![
            ChromeAction::SetPosition(7, 9),
            ChromeAction::ApplyStyle,
            ChromeAction::SanitizeChildren,
            ChromeAction::ApplyClip,
        ],
    );
}

#[test]
fn the_creation_plan_without_a_record_only_styles() {
    let acts = plan(&ChromeEvent::Created(None));
    assert_eq!(
        acts,
        vec![
            ChromeAction::ApplyStyle,
            ChromeAction::SanitizeChildren,
            ChromeAction::ApplyClip,
        ],
    );
}

#[test]
fn the_event_plans_match_the_controller_design() {
    assert_eq!(
        plan(&ChromeEvent::Resized),
        vec![ChromeAction::SaveGeometry, ChromeAction::ScheduleRestyle],
    );
    assert_eq!(plan(&ChromeEvent::Moved), vec![ChromeAction::SaveGeometry]);
    assert_eq!(
        plan(&ChromeEvent::CloseRequested),
        vec![ChromeAction::SaveGeometry, ChromeAction::Exit],
    );
    assert_eq!(
        plan(&ChromeEvent::ResetRequested),
        vec![
            ChromeAction::ClearSaved,
            ChromeAction::SetSizeDefault,
            ChromeAction::Center,
            ChromeAction::ApplyStyle,
            ChromeAction::ApplyClip,
            ChromeAction::SaveGeometry,
        ],
    );
    assert_eq!(plan(&ChromeEvent::ShownFromHidden), vec![ChromeAction::ApplyStyle]);
    assert_eq!(settle_plan(), vec![ChromeAction::ApplyStyle, ChromeAction::ApplyClip]);
}

#[test]
fn loading_without_a_state_file_restores_nothing() {
    let s = session_with(window_at(0, 0, 300, 300), None);
    assert_eq!(load_saved(&s), None);
    let garbled = session_with(window_at(0, 0, 300, 300), Some(b"{\"x\":1".to_vec()));
    assert_eq!(load_saved(&garbled), None);
}

#[test]
fn a_save_loads_back_exactly() {
    let mut s = session_with(window_at(100, 100, 360, 382), None);
    step(&mut s, &ChromeAction::SaveGeometry);
    assert_eq!(
        load_saved(&s),
        Some(WindowGeometry { x: 100, y: 100, width: Some(360), height: Some(382) }),
    );
}

#[test]
fn a_restart_restores_the_saved_geometry() {
    // First run: the window sits at 100,100 at 360x382 and the process
    // closes, persisting the geometry.
    let mut first = session_with(window_at(100, 100, 360, 382), None);
    let close = plan(&ChromeEvent::CloseRequested);
    run_plan(&mut first, &close);
    assert!(first.exited);
    let file = first.saved.clone();
    assert_eq!(
        file,
        Some(b"{\"x\":100,\"y\":100,\"width\":360,\"height\":382}".to_vec()),
    );

    // Second run: a fresh window, the store loads the same record, and the
    // creation plan restores it before anything is shown.
    let mut second = session_with(window_at(0, 0, 300, 300), file);
    let loaded = load_saved(&second);
    assert_eq!(
        loaded,
        Some(WindowGeometry { x: 100, y: 100, width: Some(360), height: Some(382) }),
    );
    let acts = plan(&ChromeEvent::Created(loaded));
    run_plan(&mut second, &acts);
    assert_eq!(second.window.bounds, Bounds { x: 100, y: 100, width: 360, height: 382 });
    assert!(second.window.region.is_some());
    assert!(!second.exited);
}

#[test]
fn overlapping_resize_events_settle_into_one_pass() {
    // Two resize events fire inside the debounce window; each saves and
    // schedules, the schedules collapse, and one settle pass produces the
    // final styled, clipped state.
    let mut s = session_with(window_at(100, 100, 360, 382), None);
    let resized = plan(&ChromeEvent::Resized);
    run_plan(&mut s, &resized);
    run_plan(&mut s, &resized);
    assert!(s.restyle_scheduled);
    settle_restyle(&mut s);
    assert!(!s.restyle_scheduled);
    let settled_once = s.window.clone();

    // A stale pass firing afterwards converges to the same state.
    s.restyle_scheduled = true;
    settle_restyle(&mut s);
    assert_eq!(s.window, settled_once);
    assert_eq!(s.window.style, 0x9000_0000);
    assert!(s.window.region.is_some());
}

#[test]
fn an_invalid_resize_edge_is_a_successful_no_op() {
    assert_eq!(resize_command(&b"xyz".to_vec()), None);
    assert_eq!(resize_command(&Vec::new()), None);
    // With no command to post, the bridge touches nothing.
    let before = session_with(window_at(100, 100, 360, 382), None);
    let mut s = session_with(window_at(100, 100, 360, 382), None);
    if let Some(_command) = resize_command(&b"xyz".to_vec()) {
        let acts = plan(&ChromeEvent::Resized);
        run_plan(&mut s, &acts);
    }
    assert_eq!(s, before);
}

#[test]
fn the_eight_edges_map_to_their_commands() {
    assert_eq!(resize_command(&b"w".to_vec()), Some(0xF001));
    assert_eq!(resize_command(&b"e".to_vec()), Some(0xF002));
    assert_eq!(resize_command(&b"n".to_vec()), Some(0xF003));
    assert_eq!(resize_command(&b"nw".to_vec()), Some(0xF004));
    assert_eq!(resize_command(&b"ne".to_vec()), Some(0xF005));
    assert_eq!(resize_command(&b"s".to_vec()), Some(0xF006));
    assert_eq!(resize_command(&b"sw".to_vec()), Some(0xF007));
    assert_eq!(resize_command(&b"se".to_vec()), Some(0xF008));
    assert_eq!(resize_command(&b"W".to_vec()), None);
}

#[test]
fn a_reset_rewrites_the_record_with_the_centered_default() {
    // The window was dragged to 500,500 and its position persisted.
    let mut s = session_with(window_at(500, 500, 360, 382), None);
    let moved = plan(&ChromeEvent::Moved);
    run_plan(&mut s, &moved);
    let stale = s.saved.clone();
    assert_eq!(
        stale,
        Some(b"{\"x\":500,\"y\":500,\"width\":360,\"height\":382}".to_vec()),
    );

    // The reset action recenters at the default size on the 1920x1080
    // screen and rewrites the record; the stale one is gone.
    let reset = plan(&ChromeEvent::ResetRequested);
    run_plan(&mut s, &reset);
    assert_eq!(s.window.bounds, Bounds { x: 780, y: 349, width: 360, height: 382 });
    let expected = encode_geometry(
        &WindowGeometry { x: 780, y: 349, width: Some(360), height: Some(382) },
    );
    assert_eq!(s.saved, Some(expected));
    assert_ne!(s.saved, stale);
}
