use render::cx::{Area, Cx, CxPlatform, CxWindow, CxWindowState, DrawListArea, MouseCursor};
use render::event_loop::{
    dispatch, find_render_window, loop_state, paint_phases, CocoaLoopState, EventDispatch, LoopEvent, PaintPhases,
    RepaintStep,
};

fn cx() -> Cx<u8> {
    Cx::new(CxPlatform::new())
}

fn window(state: CxWindowState, dirty: bool, root: Option<usize>) -> CxWindow {
    CxWindow { window_state: state, paint_dirty: dirty, root_draw_list_id: root }
}

#[test]
fn dispatch_routes_events() {
    assert_eq!(dispatch(&LoopEvent::Paint), EventDispatch::Paint);
    assert_eq!(dispatch(&LoopEvent::Empty), EventDispatch::Skip);
    assert_eq!(dispatch(&LoopEvent::WindowGeomChange { window_id: 4 }), EventDispatch::GeomChange { window_id: 4 });
    assert_eq!(dispatch(&LoopEvent::FingerDown { digit: 0 }), EventDispatch::Handler);
    assert_eq!(dispatch(&LoopEvent::WindowClosed), EventDispatch::Handler);
}

#[test]
fn find_render_window_takes_first_match() {
    assert_eq!(find_render_window(&vec![3, 1, 1], 1), Some(1));
    assert_eq!(find_render_window(&vec![3, 1, 1], 3), Some(0));
    assert_eq!(find_render_window(&vec![3, 1, 1], 2), None);
    assert_eq!(find_render_window(&vec![], 0), None);
}

#[test]
fn loop_blocks_only_when_idle() {
    assert_eq!(loop_state(0, 0, 0, 0, false), CocoaLoopState::Block);
    assert_eq!(loop_state(1, 0, 0, 0, false), CocoaLoopState::Poll);
    assert_eq!(loop_state(0, 2, 0, 0, false), CocoaLoopState::Poll);
    assert_eq!(loop_state(0, 0, 3, 0, false), CocoaLoopState::Poll);
    assert_eq!(loop_state(0, 0, 0, 1, false), CocoaLoopState::Poll);
    assert_eq!(loop_state(0, 0, 0, 0, true), CocoaLoopState::Poll);
}

#[test]
fn pre_event_clears_cursors_and_sets_panic_flags() {
    let mut c = cx();
    c.hover_mouse_cursor = Some(MouseCursor::Hand);
    c.down_mouse_cursor = Some(MouseCursor::Crosshair);
    c.pre_event(&LoopEvent::FingerHover);
    assert_eq!(c.hover_mouse_cursor, None);
    assert_eq!(c.down_mouse_cursor, Some(MouseCursor::Crosshair));
    c.pre_event(&LoopEvent::FingerUp { digit: 0 });
    assert_eq!(c.down_mouse_cursor, None);
    c.pre_event(&LoopEvent::KeyDown { print_screen: false, control: true });
    assert!(!c.panic_now && !c.panic_redraw);
    c.pre_event(&LoopEvent::KeyDown { print_screen: true, control: true });
    assert!(c.panic_redraw && !c.panic_now);
    c.pre_event(&LoopEvent::KeyDown { print_screen: true, control: false });
    assert!(c.panic_now);
}

#[test]
fn post_event_releases_finger_and_ends_on_close() {
    let mut c = cx();
    let a = Area::DrawList(DrawListArea { draw_list_id: 1, redraw_id: 5 });
    c.captured_fingers = vec![a, a];
    assert!(!c.post_event(&LoopEvent::FingerUp { digit: 1 }));
    assert_eq!(c.captured_fingers, vec![a, Area::Empty]);
    assert!(!c.post_event(&LoopEvent::KeyUp));
    assert!(c.post_event(&LoopEvent::WindowClosed));
    assert_eq!(c.captured_fingers, vec![a, Area::Empty]);
}

#[test]
fn paint_cursor_prefers_down_then_hover() {
    let mut c = cx();
    assert_eq!(c.paint_cursor(), MouseCursor::Default);
    c.hover_mouse_cursor = Some(MouseCursor::Hand);
    assert_eq!(c.paint_cursor(), MouseCursor::Hand);
    c.down_mouse_cursor = Some(MouseCursor::Crosshair);
    assert_eq!(c.paint_cursor(), MouseCursor::Crosshair);
}

#[test]
fn windows_settle_once() {
    let mut c = cx();
    c.windows = vec![
        window(CxWindowState::Create, false, None),
        window(CxWindowState::Created, false, None),
        window(CxWindowState::Destroy, false, None),
        window(CxWindowState::Create, true, Some(2)),
        window(CxWindowState::Destroyed, false, None),
    ];
    let created = c.advance_window_states();
    assert_eq!(created, vec![0, 3]);
    let states: Vec<CxWindowState> = c.windows.iter().map(|w| w.window_state).collect();
    assert_eq!(
        states,
        vec![
            CxWindowState::Created,
            CxWindowState::Created,
            CxWindowState::Destroyed,
            CxWindowState::Created,
            CxWindowState::Destroyed
        ]
    );
    assert!(c.windows[3].paint_dirty);
    assert!(c.advance_window_states().is_empty());
}

#[test]
fn repaint_gives_vsync_to_last_dirty_window() {
    let mut c = cx();
    c.windows = vec![
        window(CxWindowState::Created, true, Some(0)),
        window(CxWindowState::Created, false, Some(1)),
        window(CxWindowState::Created, true, None),
    ];
    let ids = vec![0, 1, 2];
    let mut remaining = c.count_windows_need_repaint(&ids);
    assert_eq!(remaining, 2);
    let a = c.repaint_decision(0, false, remaining).unwrap();
    assert_eq!(a, RepaintStep { remaining: 1, vsync: false, buffer_count: 2, root_draw_list_id: Some(0) });
    remaining = a.remaining;
    assert!(!c.finish_repaint(0, false));
    assert!(!c.windows[0].paint_dirty);
    assert_eq!(c.repaint_decision(1, false, remaining), None);
    let b = c.repaint_decision(2, true, remaining).unwrap();
    assert_eq!(b, RepaintStep { remaining: 0, vsync: true, buffer_count: 3, root_draw_list_id: None });
    assert!(c.finish_repaint(2, true));
    assert!(c.windows[2].paint_dirty);
    assert_eq!(c.count_windows_need_repaint(&ids), 1);
}

#[test]
fn count_with_no_render_windows_is_zero() {
    let c = cx();
    assert_eq!(c.count_windows_need_repaint(&vec![]), 0);
}

#[test]
fn paint_phases_follow_pending_work() {
    assert_eq!(paint_phases(0, 0, 0, 0), PaintPhases { animate: false, frame: false, draw: false });
    assert_eq!(paint_phases(2, 0, 0, 0), PaintPhases { animate: true, frame: false, draw: false });
    assert_eq!(paint_phases(0, 1, 0, 0), PaintPhases { animate: false, frame: true, draw: false });
    assert_eq!(paint_phases(0, 0, 1, 0), PaintPhases { animate: false, frame: false, draw: true });
    assert_eq!(paint_phases(0, 0, 0, 3), PaintPhases { animate: false, frame: false, draw: true });
}
