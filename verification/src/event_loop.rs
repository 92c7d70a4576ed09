//! The decisions of the platform event loop: what each event changes before
//! and after the application sees it, what a paint does to windows, cursor
//! and repaints, and whether the loop may block waiting for input.
use vstd::prelude::*;
use crate::cx::{Area, Cx, CxWindow, CxWindowState, MouseCursor};

verus! {

/// What the event loop reads of an incoming event.
#[derive(Clone, Copy, PartialEq, Eq, Structural, Debug)]
pub enum LoopEvent {
    Empty,
    Construct,
    Paint,
    AppFocusLost,
    FingerDown { digit: usize },
    FingerHover,
    FingerUp { digit: usize },
    KeyDown { print_screen: bool, control: bool },
    KeyUp,
    WindowGeomChange { window_id: usize },
    WindowCloseRequested,
    WindowClosed,
    Other,
}

/// How the loop treats an event once its preprocessing is done.
#[derive(Clone, Copy, PartialEq, Eq, Structural, Debug)]
pub enum EventDispatch {
    /// A window's geometry changed: update that window, then the application.
    GeomChange { window_id: usize },
    /// Run the frame: animations, drawing, window creation, repaints.
    Paint,
    /// Nothing to do.
    Skip,
    /// Hand the event to the application.
    Handler,
}

/// Whether the platform loop may sleep until the next input.
#[derive(Clone, Copy, PartialEq, Eq, Structural, Debug)]
pub enum CocoaLoopState {
    Block,
    Poll,
}

/// What to do for one render window during a paint.
#[derive(Clone, Copy, PartialEq, Eq, Structural, Debug)]
pub struct RepaintStep {
    /// Dirty windows still to repaint after this one.
    pub remaining: usize,
    /// Only the last repainted window waits for vertical sync.
    pub vsync: bool,
    /// Drawables in flight: three in fullscreen, two otherwise.
    pub buffer_count: u64,
    /// The draw list to draw into the window, if it has one.
    pub root_draw_list_id: Option<usize>,
}

/// Which application phases a paint runs before it repaints windows.
#[derive(Clone, Copy, PartialEq, Eq, Structural, Debug)]
pub struct PaintPhases {
    /// Advance the playing animations to the current time.
    pub animate: bool,
    /// Call the frame callbacks with the current time.
    pub frame: bool,
    /// Redraw the areas that asked for it.
    pub draw: bool,
}

/// The phases of a paint: animations only while some play, frame callbacks
/// only while some are pending, drawing only while some area waits for a
/// redraw.
pub fn paint_phases(
    playing_anim_areas: usize,
    frame_callbacks: usize,
    redraw_child_areas: usize,
    redraw_parent_areas: usize,
) -> (p: PaintPhases)
    ensures
        p.animate == (playing_anim_areas != 0),
        p.frame == (frame_callbacks != 0),
        p.draw == (redraw_child_areas > 0 || redraw_parent_areas > 0),
{
    PaintPhases {
        animate: playing_anim_areas != 0,
        frame: frame_callbacks != 0,
        draw: redraw_child_areas > 0 || redraw_parent_areas > 0,
    }
}

/// The state a window settles in at a paint.
pub open spec fn settled(s: CxWindowState) -> CxWindowState {
    match s {
        CxWindowState::Create => CxWindowState::Created,
        CxWindowState::Destroy => CxWindowState::Destroyed,
        CxWindowState::Created => CxWindowState::Created,
        CxWindowState::Destroyed => CxWindowState::Destroyed,
    }
}

/// The indices `< k` of the windows that are waiting to be created.
pub open spec fn creating(ws: Seq<CxWindow>, k: int) -> Seq<usize>
    decreases k,
{
    if k <= 0 {
        Seq::empty()
    } else {
        let rest = creating(ws, k - 1);
        if ws[k - 1].window_state == CxWindowState::Create { rest.push((k - 1) as usize) } else { rest }
    }
}

/// How many of `ids` name windows that need a repaint.
pub open spec fn dirty_count(ws: Seq<CxWindow>, ids: Seq<usize>) -> nat
    decreases ids.len(),
{
    if ids.len() == 0 {
        0
    } else {
        dirty_count(ws, ids.drop_last()) + if ws[ids.last() as int].paint_dirty { 1nat } else { 0nat }
    }
}

/// The cursor a paint shows: the one set while a finger is down, else the
/// one set while hovering, else the default arrow.
pub open spec fn chosen_cursor(down: Option<MouseCursor>, hover: Option<MouseCursor>) -> MouseCursor {
    match down {
        Some(c) => c,
        None => match hover {
            Some(c) => c,
            None => MouseCursor::Default,
        },
    }
}

/// The cursor set while a finger is down wins, whatever the hover cursor;
/// without it the hover cursor is shown; without either, the default arrow.
pub proof fn lemma_cursor_priority(down: Option<MouseCursor>, hover: Option<MouseCursor>)
    ensures
        forall|c: MouseCursor| down == Some(c) ==> chosen_cursor(down, hover) == c,
        forall|h: MouseCursor| down is None && hover == Some(h) ==> chosen_cursor(down, hover) == h,
        down is None && hover is None ==> chosen_cursor(down, hover) == MouseCursor::Default,
{
}

/// Where an event goes after preprocessing.
pub fn dispatch(event: &LoopEvent) -> (d: EventDispatch)
    ensures
        d == match *event {
            LoopEvent::WindowGeomChange { window_id } => EventDispatch::GeomChange { window_id },
            LoopEvent::Paint => EventDispatch::Paint,
            LoopEvent::Empty => EventDispatch::Skip,
            _ => EventDispatch::Handler,
        },
{
    match event {
        LoopEvent::WindowGeomChange { window_id } => EventDispatch::GeomChange { window_id: *window_id },
        LoopEvent::Paint => EventDispatch::Paint,
        LoopEvent::Empty => EventDispatch::Skip,
        _ => EventDispatch::Handler,
    }
}

/// The position of the first render window showing window `window_id`.
pub fn find_render_window(render_window_ids: &Vec<usize>, window_id: usize) -> (r: Option<usize>)
    ensures
        match r {
            Some(k) => k < render_window_ids@.len() && render_window_ids@[k as int] == window_id
                && forall|j: int| 0 <= j < k ==> render_window_ids@[j] != window_id,
            None => forall|j: int| 0 <= j < render_window_ids@.len() ==> render_window_ids@[j] != window_id,
        },
{
    let mut k: usize = 0;
    while k < render_window_ids.len()
        invariant
            k <= render_window_ids@.len(),
            forall|j: int| 0 <= j < k ==> render_window_ids@[j] != window_id,
        decreases render_window_ids@.len() - k,
    {
        if render_window_ids[k] == window_id {
            return Some(k);
        }
        k += 1;
    }
    None
}

/// Whether the loop may sleep: only when no animation plays, no area waits
/// for a redraw, no frame callback is pending and no window needs another
/// paint.
pub fn loop_state(
    playing_anim_areas: usize,
    redraw_parent_areas: usize,
    redraw_child_areas: usize,
    frame_callbacks: usize,
    paint_dirty: bool,
) -> (s: CocoaLoopState)
    ensures
        (s == CocoaLoopState::Block) <==> (playing_anim_areas == 0 && redraw_parent_areas == 0
            && redraw_child_areas == 0 && frame_callbacks == 0 && !paint_dirty),
        s == CocoaLoopState::Block || s == CocoaLoopState::Poll,
{
    if playing_anim_areas == 0 && redraw_parent_areas == 0 && redraw_child_areas == 0 && frame_callbacks == 0
        && !paint_dirty {
        CocoaLoopState::Block
    } else {
        CocoaLoopState::Poll
    }
}

/// Settling is idempotent: a settled window stays as it is at the next
/// paint, and is neither waiting to be created nor to be destroyed.
pub proof fn lemma_settled_is_final(st: CxWindowState)
    ensures
        settled(settled(st)) == settled(st),
        settled(st) == CxWindowState::Created || settled(st) == CxWindowState::Destroyed,
{
}

/// At a paint a window asked for is created, a window asked to close is
/// destroyed, and an open or closed window stays as it is.
pub proof fn lemma_settled_states()
    ensures
        settled(CxWindowState::Create) == CxWindowState::Created,
        settled(CxWindowState::Destroy) == CxWindowState::Destroyed,
        settled(CxWindowState::Created) == CxWindowState::Created,
        settled(CxWindowState::Destroyed) == CxWindowState::Destroyed,
{
}

/// The windows a paint creates are exactly those waiting to be created, in
/// increasing order.
pub proof fn lemma_creating_exact(ws: Seq<CxWindow>, k: int)
    requires
        0 <= k <= ws.len(),
        k <= usize::MAX + 1,
    ensures
        forall|j: int| 0 <= j < k ==> (creating(ws, k).contains(j as usize)
            <==> (#[trigger] ws[j]).window_state == CxWindowState::Create),
        forall|a: int, b: int| 0 <= a < b < creating(ws, k).len() ==> creating(ws, k)[a] < creating(ws, k)[b],
        forall|a: int| 0 <= a < creating(ws, k).len() ==> creating(ws, k)[a] < k,
    decreases k,
{
    if k > 0 {
        lemma_creating_exact(ws, k - 1);
        let rest = creating(ws, k - 1);
        let r = creating(ws, k);
        assert forall|j: int| 0 <= j < k implies (r.contains(j as usize)
            <==> (#[trigger] ws[j]).window_state == CxWindowState::Create) by {
            if ws[k - 1].window_state == CxWindowState::Create {
                assert(r == rest.push((k - 1) as usize));
                if j < k - 1 {
                    if r.contains(j as usize) {
                        let q = choose|q: int| 0 <= q < r.len() && r[q] == j as usize;
                        if q < rest.len() {
                            assert(rest[q] == r[q]);
                        }
                    }
                    if rest.contains(j as usize) {
                        let q = choose|q: int| 0 <= q < rest.len() && rest[q] == j as usize;
                        assert(r[q] == rest[q]);
                    }
                } else {
                    assert(r[r.len() - 1] == j as usize);
                }
            } else {
                if j == k - 1 && r.contains(j as usize) {
                    let q = choose|q: int| 0 <= q < r.len() && r[q] == j as usize;
                    assert(rest[q] < k - 1);
                }
            }
        }
    }
}

/// A paint after a paint creates no window: once every window is settled,
/// none waits to be created.
pub proof fn lemma_settled_windows_create_nothing(ws: Seq<CxWindow>, k: int)
    requires
        forall|j: int| 0 <= j < ws.len() ==>
            (#[trigger] ws[j]).window_state == CxWindowState::Created || ws[j].window_state == CxWindowState::Destroyed,
        k <= ws.len(),
    ensures
        creating(ws, k) == Seq::<usize>::empty(),
    decreases k,
{
    if k > 0 {
        lemma_settled_windows_create_nothing(ws, k - 1);
    }
}

/// Counting dirty windows over two runs of render windows adds up.
pub proof fn lemma_dirty_count_concat(ws: Seq<CxWindow>, a: Seq<usize>, b: Seq<usize>)
    ensures
        dirty_count(ws, a + b) == dirty_count(ws, a) + dirty_count(ws, b),
    decreases b.len(),
{
    if b.len() == 0 {
        assert(a + b =~= a);
    } else {
        lemma_dirty_count_concat(ws, a, b.drop_last());
        assert((a + b).drop_last() =~= a + b.drop_last());
    }
}

/// No dirty window is counted exactly when none of the render windows shows
/// a window that needs a repaint.
pub proof fn lemma_dirty_count_zero(ws: Seq<CxWindow>, ids: Seq<usize>)
    ensures
        (dirty_count(ws, ids) == 0) <==> forall|j: int| 0 <= j < ids.len() ==> !ws[#[trigger] ids[j] as int].paint_dirty,
    decreases ids.len(),
{
    if ids.len() > 0 {
        lemma_dirty_count_zero(ws, ids.drop_last());
        if dirty_count(ws, ids) == 0 {
            assert forall|j: int| 0 <= j < ids.len() implies !ws[#[trigger] ids[j] as int].paint_dirty by {
                if j < ids.len() - 1 {
                    assert(ids.drop_last()[j] == ids[j]);
                }
            }
        } else if forall|j: int| 0 <= j < ids.len() ==> !ws[#[trigger] ids[j] as int].paint_dirty {
            assert forall|j: int| 0 <= j < ids.drop_last().len() implies !ws[#[trigger] ids.drop_last()[j] as int].paint_dirty by {
                assert(ids.drop_last()[j] == ids[j]);
            }
            assert(!ws[ids[ids.len() - 1] as int].paint_dirty);
        }
    }
}

/// During a paint that starts with the count of dirty render windows and
/// takes one off at each dirty one, the count left before render window `k`
/// is the number of dirty ones from `k` on; so only the last dirty render
/// window waits for vertical sync.
pub proof fn lemma_vsync_only_last(ws: Seq<CxWindow>, ids: Seq<usize>, k: int)
    requires
        0 <= k < ids.len(),
        ws[ids[k] as int].paint_dirty,
    ensures
        dirty_count(ws, ids) == dirty_count(ws, ids.subrange(0, k)) + dirty_count(ws, ids.subrange(k, ids.len() as int)),
        (dirty_count(ws, ids.subrange(k, ids.len() as int)) == 1) <==>
            forall|j: int| k < j < ids.len() ==> !ws[#[trigger] ids[j] as int].paint_dirty,
{
    let pre = ids.subrange(0, k);
    let suf = ids.subrange(k, ids.len() as int);
    let tail = ids.subrange(k + 1, ids.len() as int);
    assert(pre + suf =~= ids);
    lemma_dirty_count_concat(ws, pre, suf);
    assert(seq![ids[k]] + tail =~= suf);
    lemma_dirty_count_concat(ws, seq![ids[k]], tail);
    assert(seq![ids[k]].drop_last() =~= Seq::<usize>::empty());
    assert(dirty_count(ws, Seq::<usize>::empty()) == 0);
    assert(seq![ids[k]].last() == ids[k]);
    assert(dirty_count(ws, seq![ids[k]]) == 1);
    lemma_dirty_count_zero(ws, tail);
    if forall|j: int| k < j < ids.len() ==> !ws[#[trigger] ids[j] as int].paint_dirty {
        assert forall|j: int| 0 <= j < tail.len() implies !ws[#[trigger] tail[j] as int].paint_dirty by {
            assert(tail[j] == ids[j + k + 1]);
        }
    }
    if dirty_count(ws, tail) == 0 {
        assert forall|j: int| k < j < ids.len() implies !ws[#[trigger] ids[j] as int].paint_dirty by {
            assert(tail[j - k - 1] == ids[j]);
        }
    }
}

impl<T> Cx<T> {
    /// What the loop does to the context before the application sees an
    /// event: hovering clears the hover cursor, lifting a finger clears the
    /// cursor set while it was down, and the print-screen key asks for a
    /// diagnostic dump (of the next redraw with control held, at once
    /// otherwise).
    pub fn pre_event(&mut self, event: &LoopEvent)
        ensures
            *final(self) == match *event {
                LoopEvent::FingerHover => Cx { hover_mouse_cursor: None, ..*old(self) },
                LoopEvent::FingerUp { .. } => Cx { down_mouse_cursor: None, ..*old(self) },
                LoopEvent::KeyDown { print_screen, control } =>
                    if print_screen && control { Cx { panic_redraw: true, ..*old(self) } }
                    else if print_screen { Cx { panic_now: true, ..*old(self) } }
                    else { *old(self) },
                _ => *old(self),
            },
    {
        match event {
            LoopEvent::FingerHover => {
                self.hover_mouse_cursor = None;
            },
            LoopEvent::FingerUp { .. } => {
                self.down_mouse_cursor = None;
            },
            LoopEvent::KeyDown { print_screen, control } => {
                if *print_screen {
                    if *control {
                        self.panic_redraw = true;
                    } else {
                        self.panic_now = true;
                    }
                }
            },
            _ => {},
        }
    }

    /// What the loop does after the application handled an event: a lifted
    /// finger releases whatever area captured it. Returns whether the loop
    /// must end (a window was closed).
    pub fn post_event(&mut self, event: &LoopEvent) -> (terminate: bool)
        requires
            match *event {
                LoopEvent::FingerUp { digit } => digit < old(self).captured_fingers@.len(),
                _ => true,
            },
        ensures
            terminate == (*event == LoopEvent::WindowClosed),
            match *event {
                LoopEvent::FingerUp { digit } =>
                    final(self).captured_fingers@ == old(self).captured_fingers@.update(digit as int, Area::Empty)
                    && *final(self) == (Cx { captured_fingers: final(self).captured_fingers, ..*old(self) }),
                _ => *final(self) == *old(self),
            },
    {
        match event {
            LoopEvent::FingerUp { digit } => {
                self.captured_fingers.set(*digit, Area::Empty);
                false
            },
            LoopEvent::WindowClosed => true,
            _ => false,
        }
    }

    /// The cursor to show at a paint.
    pub fn paint_cursor(&self) -> (c: MouseCursor)
        ensures
            c == chosen_cursor(self.down_mouse_cursor, self.hover_mouse_cursor),
            self.down_mouse_cursor is Some ==> c == self.down_mouse_cursor->0,
            self.down_mouse_cursor is None && self.hover_mouse_cursor is Some ==> c == self.hover_mouse_cursor->0,
            self.down_mouse_cursor is None && self.hover_mouse_cursor is None ==> c == MouseCursor::Default,
    {
        match self.down_mouse_cursor {
            Some(c) => c,
            None => match self.hover_mouse_cursor {
                Some(c) => c,
                None => MouseCursor::Default,
            },
        }
    }

    /// Settles every window's state at a paint: a window waiting to be
    /// created is created, one waiting to be destroyed is destroyed. Returns
    /// the indices of the windows to create, in order.
    pub fn advance_window_states(&mut self) -> (created: Vec<usize>)
        ensures
            created@ == creating(old(self).windows@, old(self).windows@.len() as int),
            final(self).windows@.len() == old(self).windows@.len(),
            forall|k: int| 0 <= k < final(self).windows@.len() ==>
                #[trigger] final(self).windows@[k] == (CxWindow {
                    window_state: settled(old(self).windows@[k].window_state),
                    ..old(self).windows@[k]
                }),
            *final(self) == (Cx { windows: final(self).windows, ..*old(self) }),
    {
        let mut created: Vec<usize> = Vec::new();
        let mut k: usize = 0;
        while k < self.windows.len()
            invariant
                k <= self.windows@.len(),
                self.windows@.len() == old(self).windows@.len(),
                created@ == creating(old(self).windows@, k as int),
                forall|j: int| 0 <= j < k ==>
                    #[trigger] self.windows@[j] == (CxWindow {
                        window_state: settled(old(self).windows@[j].window_state),
                        ..old(self).windows@[j]
                    }),
                forall|j: int| k <= j < self.windows@.len() ==> #[trigger] self.windows@[j] == old(self).windows@[j],
                *self == (Cx { windows: self.windows, ..*old(self) }),
            decreases self.windows@.len() - k,
        {
            let next = match self.windows[k].window_state {
                CxWindowState::Create => {
                    created.push(k);
                    CxWindowState::Created
                },
                CxWindowState::Destroy => CxWindowState::Destroyed,
                CxWindowState::Created => CxWindowState::Created,
                CxWindowState::Destroyed => CxWindowState::Destroyed,
            };
            self.windows[k].window_state = next;
            k += 1;
        }
        created
    }

    /// How many render windows show a window that needs a repaint.
    pub fn count_windows_need_repaint(&self, render_window_ids: &Vec<usize>) -> (n: usize)
        requires
            forall|j: int| 0 <= j < render_window_ids@.len() ==> #[trigger] render_window_ids@[j] < self.windows@.len(),
        ensures
            n == dirty_count(self.windows@, render_window_ids@),
    {
        let mut n: usize = 0;
        let mut k: usize = 0;
        while k < render_window_ids.len()
            invariant
                k <= render_window_ids@.len(),
                forall|j: int| 0 <= j < render_window_ids@.len() ==> #[trigger] render_window_ids@[j] < self.windows@.len(),
                n == dirty_count(self.windows@, render_window_ids@.subrange(0, k as int)),
                n <= k,
            decreases render_window_ids@.len() - k,
        {
            assert(render_window_ids@.subrange(0, k + 1).drop_last() =~= render_window_ids@.subrange(0, k as int));
            if self.windows[render_window_ids[k]].paint_dirty {
                n += 1;
            }
            k += 1;
        }
        assert(render_window_ids@.subrange(0, k as int) =~= render_window_ids@);
        n
    }

    /// What a paint does for the render window showing window `window_id`,
    /// with `remaining` dirty windows not yet repainted: nothing if the
    /// window is clean; otherwise one fewer remains, vertical sync is waited
    /// for only if none remains, and fullscreen windows get three drawables.
    pub fn repaint_decision(&self, window_id: usize, is_fullscreen: bool, remaining: usize) -> (r: Option<RepaintStep>)
        requires
            window_id < self.windows@.len(),
            self.windows@[window_id as int].paint_dirty ==> remaining > 0,
        ensures
            !self.windows@[window_id as int].paint_dirty ==> r is None,
            self.windows@[window_id as int].paint_dirty ==> r == Some(RepaintStep {
                remaining: (remaining - 1) as usize,
                vsync: remaining == 1,
                buffer_count: if is_fullscreen { 3u64 } else { 2u64 },
                root_draw_list_id: self.windows@[window_id as int].root_draw_list_id,
            }),
    {
        if self.windows[window_id].paint_dirty {
            let left = remaining - 1;
            Some(RepaintStep {
                remaining: left,
                vsync: left == 0,
                buffer_count: if is_fullscreen { 3 } else { 2 },
                root_draw_list_id: self.windows[window_id].root_draw_list_id,
            })
        } else {
            None
        }
    }

    /// After repainting window `window_id`: if its drawable had to be
    /// resized it needs another paint, otherwise it is clean. Returns whether
    /// it needs another paint.
    pub fn finish_repaint(&mut self, window_id: usize, resized: bool) -> (again: bool)
        requires
            window_id < old(self).windows@.len(),
        ensures
            again == resized,
            final(self).windows@ == old(self).windows@.update(window_id as int,
                CxWindow { paint_dirty: resized, ..old(self).windows@[window_id as int] }),
            *final(self) == (Cx { windows: final(self).windows, ..*old(self) }),
    {
        self.windows[window_id].paint_dirty = resized;
        resized
    }
}

} // verus!
