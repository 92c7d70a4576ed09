//! The splitter widget's interaction state machine: how dragging and
//! hovering change whether it is being moved, how it looks, which cursor it
//! asks for and what it reports to its owner.
use vstd::prelude::*;
use crate::cx::MouseCursor;

verus! {

/// How the splitter looks.
#[derive(Clone, Copy, PartialEq, Eq, Structural, Debug)]
pub enum SplitterState {
    Default,
    Over,
    Moving,
}

/// What a splitter reports to its owner after an event.
#[derive(Clone, Copy, PartialEq, Eq, Structural, Debug)]
pub enum SplitterEvent {
    Idle,
    Moving,
    Moved,
}

/// The direction the splitter divides in.
#[derive(Clone, Copy, PartialEq, Eq, Structural, Debug)]
pub enum Orientation {
    Horizontal,
    Vertical,
}

/// How a hovering finger relates to the splitter's area.
#[derive(Clone, Copy, PartialEq, Eq, Structural, Debug)]
pub enum HoverState {
    In,
    Over,
    Out,
}

/// An event as it hits the splitter's area.
#[derive(Clone, Copy, PartialEq, Eq, Structural, Debug)]
pub enum SplitterHit {
    /// An animation frame.
    Animate,
    FingerDown,
    FingerHover { hover_state: HoverState },
    FingerUp { is_over: bool, is_touch: bool },
    /// Anything else, or an event that missed the area.
    Other,
}

/// What the splitter asks of its surroundings after an event.
#[derive(Clone, Copy, PartialEq, Eq, Structural, Debug)]
pub struct SplitterResponse {
    pub event: SplitterEvent,
    /// The look to animate to, if it changes.
    pub anim_state: Option<SplitterState>,
    /// The cursor to show while the finger is down.
    pub down_cursor: Option<MouseCursor>,
    /// The cursor to show while hovering.
    pub hover_cursor: Option<MouseCursor>,
    /// Advance the background color animation to the frame's time.
    pub animate: bool,
}

/// The interaction state of a splitter.
#[derive(Clone, Copy, PartialEq, Eq, Structural, Debug)]
pub struct Splitter {
    pub orientation: Orientation,
    pub anim_state: SplitterState,
    pub is_moving: bool,
}

pub open spec fn response(
    event: SplitterEvent,
    anim_state: Option<SplitterState>,
    down_cursor: Option<MouseCursor>,
    hover_cursor: Option<MouseCursor>,
    animate: bool,
) -> SplitterResponse {
    SplitterResponse { event, anim_state, down_cursor, hover_cursor, animate }
}

/// One event's effect on a splitter.
/// - An animation frame advances the color animation.
/// - A finger down starts a move: the splitter looks and reports Moving and
///   asks for the crosshair cursor.
/// - Hovering asks for the hand cursor; entering looks Moving while a move
///   goes on and Over otherwise, leaving looks Default.
/// - A finger up ends the move; over the area it reports Moved and looks
///   Over for a mouse and Default for touch; elsewhere it looks Default.
pub open spec fn splitter_step(s: Splitter, hit: SplitterHit) -> (Splitter, SplitterResponse) {
    let look = |st: SplitterState| Splitter { anim_state: st, ..s };
    match hit {
        SplitterHit::Animate => (s, response(SplitterEvent::Idle, None, None, None, true)),
        SplitterHit::FingerDown => (
            Splitter { is_moving: true, anim_state: SplitterState::Moving, ..s },
            response(SplitterEvent::Moving, Some(SplitterState::Moving), Some(MouseCursor::Crosshair), None, false),
        ),
        SplitterHit::FingerHover { hover_state } => match hover_state {
            HoverState::In => {
                let st = if s.is_moving { SplitterState::Moving } else { SplitterState::Over };
                (look(st), response(SplitterEvent::Idle, Some(st), None, Some(MouseCursor::Hand), false))
            },
            HoverState::Out => (
                look(SplitterState::Default),
                response(SplitterEvent::Idle, Some(SplitterState::Default), None, Some(MouseCursor::Hand), false),
            ),
            HoverState::Over => (s, response(SplitterEvent::Idle, None, None, Some(MouseCursor::Hand), false)),
        },
        SplitterHit::FingerUp { is_over, is_touch } => {
            let st = if is_over && !is_touch { SplitterState::Over } else { SplitterState::Default };
            (
                Splitter { is_moving: false, anim_state: st, ..s },
                response(if is_over { SplitterEvent::Moved } else { SplitterEvent::Idle }, Some(st), None, None, false),
            )
        },
        SplitterHit::Other => (s, response(SplitterEvent::Idle, None, None, None, false)),
    }
}

impl Splitter {
    /// A horizontal splitter at rest.
    pub fn style() -> (s: Splitter)
        ensures
            s == (Splitter { orientation: Orientation::Horizontal, anim_state: SplitterState::Default, is_moving: false }),
    {
        Splitter { orientation: Orientation::Horizontal, anim_state: SplitterState::Default, is_moving: false }
    }

    /// Handles an event that hit the splitter's area.
    pub fn handle_splitter(&mut self, hit: SplitterHit) -> (r: SplitterResponse)
        ensures
            (*final(self), r) == splitter_step(*old(self), hit),
    {
        let mut r = SplitterResponse {
            event: SplitterEvent::Idle,
            anim_state: None,
            down_cursor: None,
            hover_cursor: None,
            animate: false,
        };
        match hit {
            SplitterHit::Animate => {
                r.animate = true;
            },
            SplitterHit::FingerDown => {
                r.event = SplitterEvent::Moving;
                self.is_moving = true;
                self.anim_state = SplitterState::Moving;
                r.anim_state = Some(SplitterState::Moving);
                r.down_cursor = Some(MouseCursor::Crosshair);
            },
            SplitterHit::FingerHover { hover_state } => {
                r.hover_cursor = Some(MouseCursor::Hand);
                match hover_state {
                    HoverState::In => {
                        let st = if self.is_moving { SplitterState::Moving } else { SplitterState::Over };
                        self.anim_state = st;
                        r.anim_state = Some(st);
                    },
                    HoverState::Out => {
                        self.anim_state = SplitterState::Default;
                        r.anim_state = Some(SplitterState::Default);
                    },
                    HoverState::Over => {},
                }
            },
            SplitterHit::FingerUp { is_over, is_touch } => {
                self.is_moving = false;
                let st = if is_over {
                    if !is_touch { SplitterState::Over } else { SplitterState::Default }
                } else {
                    SplitterState::Default
                };
                self.anim_state = st;
                r.anim_state = Some(st);
                if is_over {
                    r.event = SplitterEvent::Moved;
                }
            },
            SplitterHit::Other => {},
        }
        r
    }

    /// Starts laying out the splitter; there is nothing to do yet.
    pub fn begin_splitter(&mut self, orientation: Orientation)
        ensures
            *final(self) == *old(self),
    {
    }

    /// Lays out the middle of the splitter; there is nothing to do yet.
    pub fn mid_splitter(&mut self)
        ensures
            *final(self) == *old(self),
    {
    }

    /// Ends laying out the splitter; there is nothing to do yet.
    pub fn end_splitter(&mut self)
        ensures
            *final(self) == *old(self),
    {
    }
}

/// What each event does to a splitter in any state, said out directly:
/// - a finger down starts a move, looks and reports Moving, and asks for
///   the crosshair while down;
/// - hovering asks for the hand cursor and never changes whether it moves;
///   entering looks Moving during a move and Over otherwise; leaving always
///   looks Default; hovering over changes no look;
/// - a finger up ends the move, reports Moved exactly when it ends over the
///   splitter, and looks Over exactly when it ends over it with a mouse,
///   Default otherwise;
/// - an animation frame only advances the animation, and anything else
///   changes and asks for nothing.
pub proof fn lemma_splitter_events(s: Splitter, hit: SplitterHit)
    ensures
        ({
            let (s1, r) = splitter_step(s, hit);
            &&& s1.orientation == s.orientation
            &&& (hit == SplitterHit::FingerDown ==> {
                &&& s1.is_moving
                &&& s1.anim_state == SplitterState::Moving
                &&& r.anim_state == Some(SplitterState::Moving)
                &&& r.event == SplitterEvent::Moving
                &&& r.down_cursor == Some(MouseCursor::Crosshair)
                &&& r.hover_cursor is None
                &&& !r.animate
            })
            &&& (hit is FingerHover ==> {
                &&& s1.is_moving == s.is_moving
                &&& r.event == SplitterEvent::Idle
                &&& r.hover_cursor == Some(MouseCursor::Hand)
                &&& r.down_cursor is None
                &&& !r.animate
            })
            &&& (hit == SplitterHit::FingerHover { hover_state: HoverState::In } ==> {
                let want = if s.is_moving { SplitterState::Moving } else { SplitterState::Over };
                &&& s1.anim_state == want
                &&& r.anim_state == Some(want)
            })
            &&& (hit == SplitterHit::FingerHover { hover_state: HoverState::Out } ==> {
                &&& s1.anim_state == SplitterState::Default
                &&& r.anim_state == Some(SplitterState::Default)
            })
            &&& (hit == SplitterHit::FingerHover { hover_state: HoverState::Over } ==> {
                &&& s1.anim_state == s.anim_state
                &&& r.anim_state is None
            })
            &&& (forall|is_over: bool, is_touch: bool| hit == (SplitterHit::FingerUp { is_over, is_touch }) ==> {
                let want = if is_over && !is_touch { SplitterState::Over } else { SplitterState::Default };
                &&& !s1.is_moving
                &&& s1.anim_state == want
                &&& r.anim_state == Some(want)
                &&& (r.event == SplitterEvent::Moved) == is_over
                &&& (r.event == SplitterEvent::Idle) == !is_over
                &&& r.down_cursor is None
                &&& r.hover_cursor is None
                &&& !r.animate
            })
            &&& (hit == SplitterHit::Animate ==> s1 == s && r.animate && r.event == SplitterEvent::Idle
                && r.anim_state is None && r.down_cursor is None && r.hover_cursor is None)
            &&& (hit == SplitterHit::Other ==> s1 == s && !r.animate && r.event == SplitterEvent::Idle
                && r.anim_state is None && r.down_cursor is None && r.hover_cursor is None)
        }),
{
}

/// A drag: pressing and then releasing over the splitter reports Moving,
/// then Moved, and leaves the splitter not moving, whatever state it
/// started in.
pub proof fn lemma_drag_reports_moving_then_moved(s: Splitter, is_touch: bool)
    ensures
        ({
            let (s1, r1) = splitter_step(s, SplitterHit::FingerDown);
            let (s2, r2) = splitter_step(s1, SplitterHit::FingerUp { is_over: true, is_touch });
            &&& r1.event == SplitterEvent::Moving
            &&& s1.is_moving
            &&& r2.event == SplitterEvent::Moved
            &&& !s2.is_moving
        }),
{
}

/// Only a finger going down or up changes whether the splitter is moving,
/// and only those report anything: down reports Moving, up reports Moved
/// exactly when it ends over the splitter.
pub proof fn lemma_moving_follows_finger(s: Splitter, hit: SplitterHit)
    ensures
        ({
            let (s1, r) = splitter_step(s, hit);
            &&& (hit == SplitterHit::FingerDown ==> s1.is_moving && r.event == SplitterEvent::Moving)
            &&& (hit is FingerUp ==> !s1.is_moving && (r.event == SplitterEvent::Moved) == hit->is_over)
            &&& (hit != SplitterHit::FingerDown && !(hit is FingerUp) ==>
                    s1.is_moving == s.is_moving && r.event == SplitterEvent::Idle)
            &&& s1.orientation == s.orientation
        }),
{
}

/// A finger re-entering the splitter during a move keeps the moving look.
pub proof fn lemma_hover_in_while_moving(s: Splitter)
    requires
        s.is_moving,
    ensures
        splitter_step(s, SplitterHit::FingerHover { hover_state: HoverState::In }).0.anim_state == SplitterState::Moving,
        splitter_step(s, SplitterHit::FingerHover { hover_state: HoverState::In }).1.anim_state == Some(SplitterState::Moving),
{
}

} // verus!
