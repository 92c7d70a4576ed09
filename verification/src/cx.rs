//! The renderer context: the state that drawing, timers and the event loop
//! read and change.
use vstd::prelude::*;
use crate::texture::Texture2D;

verus! {

/// The mouse cursor shapes a window can show.
#[derive(Clone, Copy, PartialEq, Eq, Structural, Debug)]
pub enum MouseCursor {
    Hidden,
    Default,
    Crosshair,
    Hand,
    Arrow,
    Move,
    Text,
    Wait,
    Help,
    NotAllowed,
    NResize,
    NeResize,
    EResize,
    SeResize,
    SResize,
    SwResize,
    WResize,
    NwResize,
    NsResize,
    NeswResize,
    EwResize,
    NwseResize,
    ColResize,
    RowResize,
}

/// A range of instances inside one draw call.
#[derive(Clone, Copy, PartialEq, Eq, Structural, Debug)]
pub struct InstanceArea {
    pub draw_list_id: usize,
    pub draw_call_id: usize,
    pub instance_offset: usize,
    pub instance_count: usize,
    pub redraw_id: u64,
}

/// A whole draw list.
#[derive(Clone, Copy, PartialEq, Eq, Structural, Debug)]
pub struct DrawListArea {
    pub draw_list_id: usize,
    pub redraw_id: u64,
}

/// A region of drawn output that events and redraws refer to.
#[derive(Clone, Copy, PartialEq, Eq, Structural, Debug)]
pub enum Area {
    Empty,
    All,
    Instance(InstanceArea),
    DrawList(DrawListArea),
}

/// A handle to a started timer; id 0 means stopped.
#[derive(Clone, Copy, PartialEq, Eq, Structural, Debug)]
pub struct Timer {
    pub timer_id: u64,
}

/// A request to the platform to start a timer. Its interval stays with the
/// caller, keyed by `timer_id`.
#[derive(Clone, Copy, PartialEq, Eq, Structural, Debug)]
pub struct TimerRequest {
    pub timer_id: u64,
    pub repeats: bool,
}

/// Requests that wait for the platform's next paint.
pub struct CxPlatform {
    pub post_id: u64,
    pub start_timer: Vec<TimerRequest>,
    pub stop_timer: Vec<u64>,
    pub text_clipboard_response: Option<String>,
}

/// The life cycle of a window: asked for, open, asked to close, closed.
#[derive(Clone, Copy, PartialEq, Eq, Structural, Debug)]
pub enum CxWindowState {
    Create,
    Created,
    Destroy,
    Destroyed,
}

/// A window as the context sees it.
pub struct CxWindow {
    pub window_state: CxWindowState,
    pub paint_dirty: bool,
    pub root_draw_list_id: Option<usize>,
}

/// A shader's geometry: the triangle indices that each instance draws.
pub struct Shader {
    pub geometry_indices: Vec<u32>,
}

/// A compiled shader: how many values make up one instance.
pub struct CompiledShader {
    pub instance_slots: usize,
}

/// One draw call of a draw list: either a reference to a nested draw list
/// (`sub_list_id != 0`) or a batch of instances drawn with one shader.
pub struct DrawCall {
    pub sub_list_id: usize,
    pub shader_id: usize,
    pub instance_len: usize,
    pub instance_dirty: bool,
    pub uniforms_dirty: bool,
    pub textures_2d: Vec<u32>,
}

/// A draw list: its draw calls, of which the first `draw_calls_len` are live.
pub struct DrawList {
    pub draw_calls: Vec<DrawCall>,
    pub draw_calls_len: usize,
}

/// The renderer context.
pub struct Cx<T> {
    pub timer_id: u64,
    pub platform: CxPlatform,
    pub windows: Vec<CxWindow>,
    pub draw_lists: Vec<DrawList>,
    pub shaders: Vec<Shader>,
    pub compiled_shaders: Vec<CompiledShader>,
    pub textures_2d: Vec<Texture2D<T>>,
    pub down_mouse_cursor: Option<MouseCursor>,
    pub hover_mouse_cursor: Option<MouseCursor>,
    pub captured_fingers: Vec<Area>,
    pub panic_now: bool,
    pub panic_redraw: bool,
}

impl<T> Cx<T> {
    /// A context with no windows, draw lists, shaders, textures or captured
    /// fingers, no cursor set and no timer handed out yet.
    pub fn new(platform: CxPlatform) -> (cx: Self)
        ensures
            cx.timer_id == 0,
            cx.platform == platform,
            cx.windows@.len() == 0,
            cx.draw_lists@.len() == 0,
            cx.shaders@.len() == 0,
            cx.compiled_shaders@.len() == 0,
            cx.textures_2d@.len() == 0,
            cx.down_mouse_cursor is None,
            cx.hover_mouse_cursor is None,
            cx.captured_fingers@.len() == 0,
            !cx.panic_now,
            !cx.panic_redraw,
    {
        Cx {
            timer_id: 0,
            platform,
            windows: Vec::new(),
            draw_lists: Vec::new(),
            shaders: Vec::new(),
            compiled_shaders: Vec::new(),
            textures_2d: Vec::new(),
            down_mouse_cursor: None,
            hover_mouse_cursor: None,
            captured_fingers: Vec::new(),
            panic_now: false,
            panic_redraw: false,
        }
    }
}

} // verus!
