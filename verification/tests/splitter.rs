use render::cx::MouseCursor;
use render::splitter::{HoverState, Orientation, Splitter, SplitterEvent, SplitterHit, SplitterState};

#[test]
fn style_starts_at_rest() {
    let s = Splitter::style();
    assert_eq!(s.orientation, Orientation::Horizontal);
    assert_eq!(s.anim_state, SplitterState::Default);
    assert!(!s.is_moving);
}

#[test]
fn drag_with_mouse_reports_moving_then_moved() {
    let mut s = Splitter::style();
    let r = s.handle_splitter(SplitterHit::FingerDown);
    assert_eq!(r.event, SplitterEvent::Moving);
    assert_eq!(r.anim_state, Some(SplitterState::Moving));
    assert_eq!(r.down_cursor, Some(MouseCursor::Crosshair));
    assert!(s.is_moving);
    let r = s.handle_splitter(SplitterHit::FingerUp { is_over: true, is_touch: false });
    assert_eq!(r.event, SplitterEvent::Moved);
    assert_eq!(r.anim_state, Some(SplitterState::Over));
    assert!(!s.is_moving);
    assert_eq!(s.anim_state, SplitterState::Over);
}

#[test]
fn drag_with_touch_ends_default() {
    let mut s = Splitter::style();
    s.handle_splitter(SplitterHit::FingerDown);
    let r = s.handle_splitter(SplitterHit::FingerUp { is_over: true, is_touch: true });
    assert_eq!(r.event, SplitterEvent::Moved);
    assert_eq!(r.anim_state, Some(SplitterState::Default));
}

#[test]
fn release_outside_reports_nothing() {
    let mut s = Splitter::style();
    s.handle_splitter(SplitterHit::FingerDown);
    let r = s.handle_splitter(SplitterHit::FingerUp { is_over: false, is_touch: false });
    assert_eq!(r.event, SplitterEvent::Idle);
    assert_eq!(r.anim_state, Some(SplitterState::Default));
    assert!(!s.is_moving);
}

#[test]
fn hover_in_out_and_while_moving() {
    let mut s = Splitter::style();
    let r = s.handle_splitter(SplitterHit::FingerHover { hover_state: HoverState::In });
    assert_eq!(r.hover_cursor, Some(MouseCursor::Hand));
    assert_eq!(r.anim_state, Some(SplitterState::Over));
    let r = s.handle_splitter(SplitterHit::FingerHover { hover_state: HoverState::Over });
    assert_eq!(r.anim_state, None);
    assert_eq!(r.hover_cursor, Some(MouseCursor::Hand));
    let r = s.handle_splitter(SplitterHit::FingerHover { hover_state: HoverState::Out });
    assert_eq!(r.anim_state, Some(SplitterState::Default));
    s.handle_splitter(SplitterHit::FingerDown);
    let r = s.handle_splitter(SplitterHit::FingerHover { hover_state: HoverState::In });
    assert_eq!(r.anim_state, Some(SplitterState::Moving));
    assert_eq!(r.event, SplitterEvent::Idle);
    assert!(s.is_moving);
}

#[test]
fn animate_and_other_events() {
    let mut s = Splitter::style();
    let r = s.handle_splitter(SplitterHit::Animate);
    assert!(r.animate);
    assert_eq!(r.event, SplitterEvent::Idle);
    assert_eq!(s, Splitter::style());
    let r = s.handle_splitter(SplitterHit::Other);
    assert!(!r.animate);
    assert_eq!(r.anim_state, None);
    assert_eq!(s, Splitter::style());
}

#[test]
fn layout_calls_change_nothing() {
    let mut s = Splitter::style();
    s.begin_splitter(Orientation::Vertical);
    s.mid_splitter();
    s.end_splitter();
    assert_eq!(s, Splitter::style());
}
