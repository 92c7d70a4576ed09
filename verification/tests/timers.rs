use render::cx::{Cx, CxPlatform, Timer, TimerRequest};

fn cx() -> Cx<u8> {
    Cx::new(CxPlatform::new())
}

#[test]
fn timer_ids_increase_and_queue_in_order() {
    let mut c = cx();
    let a = c.start_timer(true);
    let b = c.start_timer(false);
    assert_eq!(a.timer_id, 1);
    assert_eq!(b.timer_id, 2);
    assert_eq!(c.timer_id, 2);
    assert_eq!(
        c.platform.start_timer,
        vec![TimerRequest { timer_id: 1, repeats: true }, TimerRequest { timer_id: 2, repeats: false }]
    );
    assert!(c.platform.stop_timer.is_empty());
}

#[test]
fn stop_timer_is_idempotent() {
    let mut c = cx();
    let mut t = c.start_timer(true);
    c.stop_timer(&mut t);
    assert_eq!(t.timer_id, 0);
    assert_eq!(c.platform.stop_timer, vec![1]);
    c.stop_timer(&mut t);
    assert_eq!(t.timer_id, 0);
    assert_eq!(c.platform.stop_timer, vec![1]);
}

#[test]
fn stopping_a_never_started_handle_queues_nothing() {
    let mut c = cx();
    let mut t = Timer { timer_id: 0 };
    c.stop_timer(&mut t);
    assert!(c.platform.stop_timer.is_empty());
}

#[test]
fn drained_requests_come_last_first() {
    let mut c = cx();
    let mut a = c.start_timer(false);
    let _b = c.start_timer(true);
    let mut d = c.start_timer(false);
    c.stop_timer(&mut a);
    c.stop_timer(&mut d);
    let started = c.platform.take_start_timers();
    assert_eq!(started.iter().map(|r| r.timer_id).collect::<Vec<_>>(), vec![3, 2, 1]);
    assert!(c.platform.start_timer.is_empty());
    assert!(c.platform.take_start_timers().is_empty());
    let stopped = c.platform.take_stop_timers();
    assert_eq!(stopped, vec![3, 1]);
    assert!(c.platform.stop_timer.is_empty());
    assert!(c.platform.take_stop_timers().is_empty());
}

#[test]
fn hide_text_ime_changes_nothing() {
    let mut c = cx();
    c.start_timer(true);
    c.hide_text_ime();
    assert_eq!(c.timer_id, 1);
    assert_eq!(c.platform.start_timer.len(), 1);
}
