//! Platform-independent state and decisions of a GPU-driven UI renderer:
//! triple-buffered uniform buffers, texture bookkeeping, draw-list traversal,
//! timers, the event loop's per-event and per-frame decisions, and the
//! splitter widget's interaction state machine.
use vstd::prelude::*;

pub mod metal_buffer;
pub mod texture;
pub mod cx;
pub mod draw;
pub mod draw_laws;
pub mod timer;
pub mod event_loop;
pub mod splitter;

verus! {
} // verus!
