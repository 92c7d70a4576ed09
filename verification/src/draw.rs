//! Traversal of the draw-list tree for one frame: which draw calls are drawn,
//! in what order, and which instance buffers and textures must be uploaded
//! to the device first.
use vstd::prelude::*;
use crate::cx::{CompiledShader, Cx, DrawCall, DrawList, Shader};
use crate::texture::Texture2D;
use crate::draw_laws::{
    flags_after_exact, instance_uploads_exact, lemma_frame_steps_describe_calls, lemma_frame_uploads_exact, steps_describe_calls,
    steps_in_range, texture_uploads_exact,
};

verus! {

/// What the traversal reads and changes of a draw call.
pub struct DrawCallView {
    pub sub_list_id: usize,
    pub shader_id: usize,
    pub instance_len: usize,
    pub instance_dirty: bool,
    pub uniforms_dirty: bool,
    pub textures_2d: Seq<u32>,
}

/// A draw list as the traversal sees it.
pub struct DrawListView {
    pub draw_calls: Seq<DrawCallView>,
    pub draw_calls_len: usize,
}

impl View for DrawCall {
    type V = DrawCallView;

    open spec fn view(&self) -> DrawCallView {
        DrawCallView {
            sub_list_id: self.sub_list_id,
            shader_id: self.shader_id,
            instance_len: self.instance_len,
            instance_dirty: self.instance_dirty,
            uniforms_dirty: self.uniforms_dirty,
            textures_2d: self.textures_2d@,
        }
    }
}

impl View for DrawList {
    type V = DrawListView;

    open spec fn view(&self) -> DrawListView {
        DrawListView {
            draw_calls: self.draw_calls@.map_values(|c: DrawCall| c@),
            draw_calls_len: self.draw_calls_len,
        }
    }
}

/// What the traversal reads but never changes: per shader the number of
/// geometry indices and the number of values per instance, and how many
/// textures there are.
pub struct DrawContext {
    pub index_counts: Seq<usize>,
    pub instance_slots: Seq<usize>,
    pub texture_count: nat,
}

/// What the traversal changes: the draw lists and the textures' dirty flags.
pub struct DrawState {
    pub lists: Seq<DrawListView>,
    pub tex_dirty: Seq<bool>,
}

/// One draw call to submit to the device, in submission order.
pub struct DrawStep {
    pub draw_list_id: usize,
    pub draw_call_id: usize,
    pub shader_id: usize,
    /// The instance data changed since the last upload and must be uploaded.
    pub update_instances: bool,
    pub instance_count: u64,
    pub index_count: u64,
    /// The textures to bind, in slot order.
    pub textures_2d: Vec<u32>,
    /// For each bound texture, whether it must be uploaded first.
    pub upload_textures: Vec<bool>,
}

pub struct DrawStepView {
    pub draw_list_id: usize,
    pub draw_call_id: usize,
    pub shader_id: usize,
    pub update_instances: bool,
    pub instance_count: u64,
    pub index_count: u64,
    pub textures_2d: Seq<u32>,
    pub upload_textures: Seq<bool>,
}

impl View for DrawStep {
    type V = DrawStepView;

    open spec fn view(&self) -> DrawStepView {
        DrawStepView {
            draw_list_id: self.draw_list_id,
            draw_call_id: self.draw_call_id,
            shader_id: self.shader_id,
            update_instances: self.update_instances,
            instance_count: self.instance_count,
            index_count: self.index_count,
            textures_2d: self.textures_2d@,
            upload_textures: self.upload_textures@,
        }
    }
}

pub open spec fn steps_view(steps: Seq<DrawStep>) -> Seq<DrawStepView> {
    steps.map_values(|s: DrawStep| s@)
}

/// A drawn (non-nested) call can be drawn: its shader exists, has a
/// nonzero instance size, and every texture it binds exists.
pub open spec fn leaf_ok(ctx: DrawContext, c: DrawCallView) -> bool {
    &&& c.shader_id < ctx.index_counts.len()
    &&& c.shader_id < ctx.instance_slots.len()
    &&& ctx.instance_slots[c.shader_id as int] > 0
    &&& forall|k: int| 0 <= k < c.textures_2d.len() ==> (#[trigger] c.textures_2d[k]) < ctx.texture_count
}

/// Drawing list `l` finishes, nesting at most `fuel` lists deep, without an
/// index out of range: the list and its live calls exist, every nested list
/// can be drawn within `fuel - 1`, and every drawn call can be drawn.
pub open spec fn exec_ok(ctx: DrawContext, lists: Seq<DrawListView>, l: usize, fuel: nat) -> bool
    decreases fuel,
{
    &&& fuel > 0
    &&& l < lists.len()
    &&& lists[l as int].draw_calls_len <= lists[l as int].draw_calls.len()
    &&& forall|i: int| 0 <= i < lists[l as int].draw_calls_len ==>
        if (#[trigger] lists[l as int].draw_calls[i]).sub_list_id != 0 {
            exec_ok(ctx, lists, lists[l as int].draw_calls[i].sub_list_id, (fuel - 1) as nat)
        } else {
            leaf_ok(ctx, lists[l as int].draw_calls[i])
        }
}

/// Visiting the textures `ts[j..]` of a drawn call: each dirty texture is
/// marked for upload (and is clean from then on). Returns the upload marks
/// and the new dirty flags.
pub open spec fn tex_run(dirty: Seq<bool>, ts: Seq<u32>, j: nat) -> (Seq<bool>, Seq<bool>)
    decreases ts.len() - j,
{
    if j >= ts.len() {
        (Seq::empty(), dirty)
    } else {
        let t = ts[j as int] as int;
        let up = dirty[t];
        let d2 = if up { dirty.update(t, false) } else { dirty };
        let rest = tex_run(d2, ts, j + 1);
        (seq![up] + rest.0, rest.1)
    }
}

/// Drawing call `i` of list `l`, which draws instances: the step it submits,
/// and the state after it (the call's instance and uniform data are clean,
/// and so are the textures it uploaded).
pub open spec fn leaf_spec(ctx: DrawContext, s: DrawState, l: usize, i: nat) -> (DrawStepView, DrawState) {
    let c = s.lists[l as int].draw_calls[i as int];
    let tr = tex_run(s.tex_dirty, c.textures_2d, 0);
    let step = DrawStepView {
        draw_list_id: l,
        draw_call_id: i as usize,
        shader_id: c.shader_id,
        update_instances: c.instance_dirty,
        instance_count: (c.instance_len / ctx.instance_slots[c.shader_id as int]) as u64,
        index_count: ctx.index_counts[c.shader_id as int] as u64,
        textures_2d: c.textures_2d,
        upload_textures: tr.0,
    };
    let c2 = DrawCallView { instance_dirty: false, uniforms_dirty: false, ..c };
    let list2 = DrawListView { draw_calls: s.lists[l as int].draw_calls.update(i as int, c2), ..s.lists[l as int] };
    (step, DrawState { lists: s.lists.update(l as int, list2), tex_dirty: tr.1 })
}

/// Drawing calls `i..n` of list `l` in order, descending into each nested
/// list (with one less unit of `fuel`) before going on: the steps submitted
/// and the state after.
pub open spec fn run_calls(ctx: DrawContext, s: DrawState, l: usize, i: nat, n: nat, fuel: nat) -> (Seq<DrawStepView>, DrawState)
    decreases fuel, n - i,
{
    if fuel == 0 || i >= n {
        (Seq::empty(), s)
    } else {
        let c = s.lists[l as int].draw_calls[i as int];
        if c.sub_list_id != 0 {
            let a = run_calls(ctx, s, c.sub_list_id, 0, s.lists[c.sub_list_id as int].draw_calls_len as nat, (fuel - 1) as nat);
            let b = run_calls(ctx, a.1, l, i + 1, n, fuel);
            (a.0 + b.0, b.1)
        } else {
            let a = leaf_spec(ctx, s, l, i);
            let b = run_calls(ctx, a.1, l, i + 1, n, fuel);
            (seq![a.0] + b.0, b.1)
        }
    }
}

/// Drawing list `l` from the start.
pub open spec fn run_list(ctx: DrawContext, s: DrawState, l: usize, fuel: nat) -> (Seq<DrawStepView>, DrawState) {
    run_calls(ctx, s, l, 0, s.lists[l as int].draw_calls_len as nat, fuel)
}

/// When a list can be drawn, said out in full: within `fuel`, list `l`
/// exists, its live calls exist, every nested list can be drawn within
/// `fuel - 1`, and every call that draws has an existing shader, an existing
/// compiled shader with a nonzero instance size, and existing textures.
/// How many instances a call holds, and whether any data is dirty, plays no
/// part.
pub proof fn lemma_exec_ok_iff(ctx: DrawContext, lists: Seq<DrawListView>, l: usize, fuel: nat)
    ensures
        exec_ok(ctx, lists, l, fuel) <==> {
            &&& fuel > 0
            &&& l < lists.len()
            &&& lists[l as int].draw_calls_len <= lists[l as int].draw_calls.len()
            &&& forall|i: int| 0 <= i < lists[l as int].draw_calls_len ==> {
                let c = #[trigger] lists[l as int].draw_calls[i];
                &&& c.sub_list_id != 0 ==> exec_ok(ctx, lists, c.sub_list_id, (fuel - 1) as nat)
                &&& c.sub_list_id == 0 ==> {
                    &&& c.shader_id < ctx.index_counts.len()
                    &&& c.shader_id < ctx.instance_slots.len()
                    &&& ctx.instance_slots[c.shader_id as int] > 0
                    &&& forall|k: int| 0 <= k < c.textures_2d.len() ==> (#[trigger] c.textures_2d[k]) < ctx.texture_count
                }
            }
        },
{
}

/// Whether a call can be drawn does not depend on how many instances it
/// holds or on its dirty flags.
pub proof fn lemma_leaf_ok_ignores_instances(ctx: DrawContext, c: DrawCallView, instance_len: usize, instance_dirty: bool, uniforms_dirty: bool)
    ensures
        leaf_ok(ctx, c) == leaf_ok(ctx, DrawCallView { instance_len, instance_dirty, uniforms_dirty, ..c }),
        leaf_ok(ctx, c) <==> {
            &&& c.shader_id < ctx.index_counts.len()
            &&& c.shader_id < ctx.instance_slots.len()
            &&& ctx.instance_slots[c.shader_id as int] > 0
            &&& forall|k: int| 0 <= k < c.textures_2d.len() ==> (#[trigger] c.textures_2d[k]) < ctx.texture_count
        },
{
    let c2 = DrawCallView { instance_len, instance_dirty, uniforms_dirty, ..c };
    assert(c2.textures_2d == c.textures_2d);
    assert(c2.shader_id == c.shader_id);
}

/// Two draw-list sets of the same shape: they differ at most in dirty flags.
pub open spec fn same_shape(a: Seq<DrawListView>, b: Seq<DrawListView>) -> bool {
    &&& a.len() == b.len()
    &&& forall|l: int| 0 <= l < a.len() ==> {
        &&& (#[trigger] a[l]).draw_calls_len == b[l].draw_calls_len
        &&& a[l].draw_calls.len() == b[l].draw_calls.len()
        &&& forall|i: int| 0 <= i < a[l].draw_calls.len() ==> {
            &&& (#[trigger] a[l].draw_calls[i]).sub_list_id == b[l].draw_calls[i].sub_list_id
            &&& a[l].draw_calls[i].shader_id == b[l].draw_calls[i].shader_id
            &&& a[l].draw_calls[i].instance_len == b[l].draw_calls[i].instance_len
            &&& a[l].draw_calls[i].textures_2d == b[l].draw_calls[i].textures_2d
        }
    }
}

/// Whether a list can be drawn depends on the lists' shape only.
pub proof fn lemma_exec_ok_shape(ctx: DrawContext, a: Seq<DrawListView>, b: Seq<DrawListView>, l: usize, fuel: nat)
    requires
        exec_ok(ctx, a, l, fuel),
        same_shape(a, b),
    ensures
        exec_ok(ctx, b, l, fuel),
    decreases fuel,
{
    assert(a[l as int].draw_calls_len == b[l as int].draw_calls_len);
    assert forall|i: int| 0 <= i < b[l as int].draw_calls_len implies
        if (#[trigger] b[l as int].draw_calls[i]).sub_list_id != 0 {
            exec_ok(ctx, b, b[l as int].draw_calls[i].sub_list_id, (fuel - 1) as nat)
        } else {
            leaf_ok(ctx, b[l as int].draw_calls[i])
        }
    by {
        assert(a[l as int].draw_calls[i].sub_list_id == b[l as int].draw_calls[i].sub_list_id);
        if a[l as int].draw_calls[i].sub_list_id != 0 {
            lemma_exec_ok_shape(ctx, a, b, a[l as int].draw_calls[i].sub_list_id, (fuel - 1) as nat);
        }
    }
}

/// `a` is `b` with at most some dirty flags cleared.
pub open spec fn cleaner(a: DrawState, b: DrawState) -> bool {
    &&& same_shape(a.lists, b.lists)
    &&& a.tex_dirty.len() == b.tex_dirty.len()
    &&& forall|l: int, i: int| 0 <= l < a.lists.len() && 0 <= i < a.lists[l].draw_calls.len() ==> {
        &&& ((#[trigger] a.lists[l].draw_calls[i]).instance_dirty ==> b.lists[l].draw_calls[i].instance_dirty)
        &&& (a.lists[l].draw_calls[i].uniforms_dirty ==> b.lists[l].draw_calls[i].uniforms_dirty)
    }
    &&& forall|t: int| 0 <= t < a.tex_dirty.len() ==> (#[trigger] a.tex_dirty[t] ==> b.tex_dirty[t])
}

/// Every call that drawing calls `i..n` of list `l` would draw is clean,
/// and so is every texture it binds.
pub open spec fn reach_clean(s: DrawState, l: usize, i: nat, n: nat, fuel: nat) -> bool
    decreases fuel, n - i,
{
    if fuel == 0 || i >= n {
        true
    } else {
        let c = s.lists[l as int].draw_calls[i as int];
        &&& if c.sub_list_id != 0 {
            reach_clean(s, c.sub_list_id, 0, s.lists[c.sub_list_id as int].draw_calls_len as nat, (fuel - 1) as nat)
        } else {
            &&& !c.instance_dirty
            &&& !c.uniforms_dirty
            &&& forall|k: int| 0 <= k < c.textures_2d.len() ==> !s.tex_dirty[#[trigger] c.textures_2d[k] as int]
        }
        &&& reach_clean(s, l, i + 1, n, fuel)
    }
}

/// No step uploads instance data or a texture.
pub open spec fn no_uploads(steps: Seq<DrawStepView>) -> bool {
    forall|k: int| 0 <= k < steps.len() ==> {
        &&& !(#[trigger] steps[k]).update_instances
        &&& forall|m: int| 0 <= m < steps[k].upload_textures.len() ==> !steps[k].upload_textures[m]
    }
}

/// The premises shared by the lemmas below: list `l` can be drawn within
/// `fuel`, `n` is its number of live calls, and the textures the context
/// knows of are the ones whose dirty flags the state holds.
pub open spec fn run_ready(ctx: DrawContext, s: DrawState, l: usize, i: nat, n: nat, fuel: nat) -> bool {
    &&& exec_ok(ctx, s.lists, l, fuel)
    &&& i <= n
    &&& n == s.lists[l as int].draw_calls_len
    &&& ctx.texture_count == s.tex_dirty.len()
}

proof fn lemma_tex_run_cleaner(dirty: Seq<bool>, ts: Seq<u32>, j: nat)
    requires
        forall|k: int| j <= k < ts.len() ==> (#[trigger] ts[k]) < dirty.len(),
    ensures
        tex_run(dirty, ts, j).1.len() == dirty.len(),
        forall|t: int| 0 <= t < dirty.len() ==> (#[trigger] tex_run(dirty, ts, j).1[t] ==> dirty[t]),
        forall|k: int| j <= k < ts.len() ==> !tex_run(dirty, ts, j).1[#[trigger] ts[k] as int],
        tex_run(dirty, ts, j).0.len() == if j <= ts.len() { ts.len() - j } else { 0 },
    decreases ts.len() - j,
{
    if j < ts.len() {
        let t = ts[j as int] as int;
        let d2 = if dirty[t] { dirty.update(t, false) } else { dirty };
        lemma_tex_run_cleaner(d2, ts, j + 1);
    }
}

proof fn lemma_tex_run_clean(dirty: Seq<bool>, ts: Seq<u32>, j: nat)
    requires
        forall|k: int| j <= k < ts.len() ==> (#[trigger] ts[k]) < dirty.len(),
        forall|k: int| j <= k < ts.len() ==> !dirty[#[trigger] ts[k] as int],
    ensures
        tex_run(dirty, ts, j).1 == dirty,
        forall|m: int| 0 <= m < tex_run(dirty, ts, j).0.len() ==> !tex_run(dirty, ts, j).0[m],
    decreases ts.len() - j,
{
    if j < ts.len() {
        lemma_tex_run_clean(dirty, ts, j + 1);
        let rest = tex_run(dirty, ts, j + 1);
        assert forall|m: int| 0 <= m < tex_run(dirty, ts, j).0.len() implies !tex_run(dirty, ts, j).0[m] by {
            if m > 0 {
                assert(tex_run(dirty, ts, j).0[m] == rest.0[m - 1]);
            }
        }
    }
}

proof fn lemma_cleaner_trans(a: DrawState, b: DrawState, c: DrawState)
    requires
        cleaner(a, b),
        cleaner(b, c),
    ensures
        cleaner(a, c),
{
    assert forall|l: int, i: int| 0 <= l < a.lists.len() && 0 <= i < a.lists[l].draw_calls.len() implies {
        &&& ((#[trigger] a.lists[l].draw_calls[i]).instance_dirty ==> c.lists[l].draw_calls[i].instance_dirty)
        &&& (a.lists[l].draw_calls[i].uniforms_dirty ==> c.lists[l].draw_calls[i].uniforms_dirty)
    } by {
        assert(b.lists[l].draw_calls[i].instance_dirty == b.lists[l].draw_calls[i].instance_dirty);
    }
    assert forall|t: int| 0 <= t < a.tex_dirty.len() && #[trigger] a.tex_dirty[t] implies c.tex_dirty[t] by {
        assert(b.tex_dirty[t] == b.tex_dirty[t]);
    }
}

pub(crate) proof fn lemma_leaf_cleaner(ctx: DrawContext, s: DrawState, l: usize, i: nat)
    requires
        l < s.lists.len(),
        i < s.lists[l as int].draw_calls.len(),
        leaf_ok(ctx, s.lists[l as int].draw_calls[i as int]),
        ctx.texture_count == s.tex_dirty.len(),
    ensures
        cleaner(leaf_spec(ctx, s, l, i).1, s),
        forall|k: int| 0 <= k < s.lists[l as int].draw_calls[i as int].textures_2d.len() ==>
            !leaf_spec(ctx, s, l, i).1.tex_dirty[#[trigger] s.lists[l as int].draw_calls[i as int].textures_2d[k] as int],
        !leaf_spec(ctx, s, l, i).1.lists[l as int].draw_calls[i as int].instance_dirty,
        !leaf_spec(ctx, s, l, i).1.lists[l as int].draw_calls[i as int].uniforms_dirty,
{
    let c = s.lists[l as int].draw_calls[i as int];
    lemma_tex_run_cleaner(s.tex_dirty, c.textures_2d, 0);
    let s2 = leaf_spec(ctx, s, l, i).1;
    assert forall|ll: int, ii: int| 0 <= ll < s2.lists.len() && 0 <= ii < s2.lists[ll].draw_calls.len() implies {
        &&& ((#[trigger] s2.lists[ll].draw_calls[ii]).instance_dirty ==> s.lists[ll].draw_calls[ii].instance_dirty)
        &&& (s2.lists[ll].draw_calls[ii].uniforms_dirty ==> s.lists[ll].draw_calls[ii].uniforms_dirty)
    } by {
        if ll == l && ii == i {
        } else if ll == l {
            assert(s2.lists[ll].draw_calls[ii] == s.lists[ll].draw_calls[ii]);
        }
    }
    assert(same_shape(s2.lists, s.lists)) by {
        assert forall|ll: int| 0 <= ll < s2.lists.len() implies {
            &&& (#[trigger] s2.lists[ll]).draw_calls_len == s.lists[ll].draw_calls_len
            &&& s2.lists[ll].draw_calls.len() == s.lists[ll].draw_calls.len()
            &&& forall|ii: int| 0 <= ii < s2.lists[ll].draw_calls.len() ==> {
                &&& (#[trigger] s2.lists[ll].draw_calls[ii]).sub_list_id == s.lists[ll].draw_calls[ii].sub_list_id
                &&& s2.lists[ll].draw_calls[ii].shader_id == s.lists[ll].draw_calls[ii].shader_id
                &&& s2.lists[ll].draw_calls[ii].instance_len == s.lists[ll].draw_calls[ii].instance_len
                &&& s2.lists[ll].draw_calls[ii].textures_2d == s.lists[ll].draw_calls[ii].textures_2d
            }
        } by {
            if ll == l {
                assert forall|ii: int| 0 <= ii < s2.lists[ll].draw_calls.len() implies {
                    &&& (#[trigger] s2.lists[ll].draw_calls[ii]).sub_list_id == s.lists[ll].draw_calls[ii].sub_list_id
                    &&& s2.lists[ll].draw_calls[ii].shader_id == s.lists[ll].draw_calls[ii].shader_id
                    &&& s2.lists[ll].draw_calls[ii].instance_len == s.lists[ll].draw_calls[ii].instance_len
                    &&& s2.lists[ll].draw_calls[ii].textures_2d == s.lists[ll].draw_calls[ii].textures_2d
                } by {
                    if ii != i {
                        assert(s2.lists[ll].draw_calls[ii] == s.lists[ll].draw_calls[ii]);
                    }
                }
            }
        }
    }
}

/// Drawing only ever clears dirty flags, and keeps the lists' shape.
pub proof fn lemma_run_cleaner(ctx: DrawContext, s: DrawState, l: usize, i: nat, n: nat, fuel: nat)
    requires
        run_ready(ctx, s, l, i, n, fuel),
    ensures
        cleaner(run_calls(ctx, s, l, i, n, fuel).1, s),
    decreases fuel, n - i,
{
    if i >= n {
        assert(same_shape(s.lists, s.lists));
    } else {
        let c = s.lists[l as int].draw_calls[i as int];
        if c.sub_list_id != 0 {
            let a = run_calls(ctx, s, c.sub_list_id, 0, s.lists[c.sub_list_id as int].draw_calls_len as nat, (fuel - 1) as nat);
            lemma_run_cleaner(ctx, s, c.sub_list_id, 0, s.lists[c.sub_list_id as int].draw_calls_len as nat, (fuel - 1) as nat);
            lemma_exec_ok_shape(ctx, s.lists, a.1.lists, l, fuel);
            assert(a.1.lists[l as int].draw_calls_len == s.lists[l as int].draw_calls_len);
            lemma_run_cleaner(ctx, a.1, l, i + 1, n, fuel);
            lemma_cleaner_trans(run_calls(ctx, a.1, l, i + 1, n, fuel).1, a.1, s);
        } else {
            let a = leaf_spec(ctx, s, l, i);
            lemma_leaf_cleaner(ctx, s, l, i);
            lemma_exec_ok_shape(ctx, s.lists, a.1.lists, l, fuel);
            assert(a.1.lists[l as int].draw_calls_len == s.lists[l as int].draw_calls_len);
            lemma_run_cleaner(ctx, a.1, l, i + 1, n, fuel);
            lemma_cleaner_trans(run_calls(ctx, a.1, l, i + 1, n, fuel).1, a.1, s);
        }
    }
}


proof fn lemma_reach_clean_cleaner(ctx: DrawContext, s: DrawState, s2: DrawState, l: usize, i: nat, n: nat, fuel: nat)
    requires
        run_ready(ctx, s, l, i, n, fuel),
        reach_clean(s, l, i, n, fuel),
        cleaner(s2, s),
    ensures
        reach_clean(s2, l, i, n, fuel),
    decreases fuel, n - i,
{
    if i < n {
        let c = s.lists[l as int].draw_calls[i as int];
        let c2 = s2.lists[l as int].draw_calls[i as int];
        assert(c2.sub_list_id == c.sub_list_id);
        if c.sub_list_id != 0 {
            let ns = s.lists[c.sub_list_id as int].draw_calls_len as nat;
            assert(exec_ok(ctx, s.lists, c.sub_list_id, (fuel - 1) as nat));
            assert(s2.lists[c.sub_list_id as int].draw_calls_len == s.lists[c.sub_list_id as int].draw_calls_len);
            lemma_reach_clean_cleaner(ctx, s, s2, c.sub_list_id, 0, ns, (fuel - 1) as nat);
        } else {
            assert(c2.textures_2d == c.textures_2d);
            assert forall|k: int| 0 <= k < c2.textures_2d.len() implies !s2.tex_dirty[#[trigger] c2.textures_2d[k] as int] by {
                assert(!s.tex_dirty[c.textures_2d[k] as int]);
            }
        }
        lemma_reach_clean_cleaner(ctx, s, s2, l, i + 1, n, fuel);
    }
}

proof fn lemma_run_reach_clean(ctx: DrawContext, s: DrawState, l: usize, i: nat, n: nat, fuel: nat)
    requires
        run_ready(ctx, s, l, i, n, fuel),
    ensures
        reach_clean(run_calls(ctx, s, l, i, n, fuel).1, l, i, n, fuel),
    decreases fuel, n - i,
{
    if i < n {
        let c = s.lists[l as int].draw_calls[i as int];
        if c.sub_list_id != 0 {
            let ns = s.lists[c.sub_list_id as int].draw_calls_len as nat;
            let a = run_calls(ctx, s, c.sub_list_id, 0, ns, (fuel - 1) as nat);
            lemma_run_reach_clean(ctx, s, c.sub_list_id, 0, ns, (fuel - 1) as nat);
            lemma_run_cleaner(ctx, s, c.sub_list_id, 0, ns, (fuel - 1) as nat);
            lemma_exec_ok_shape(ctx, s.lists, a.1.lists, l, fuel);
            lemma_exec_ok_shape(ctx, s.lists, a.1.lists, c.sub_list_id, (fuel - 1) as nat);
            assert(a.1.lists[l as int].draw_calls_len == s.lists[l as int].draw_calls_len);
            assert(a.1.lists[c.sub_list_id as int].draw_calls_len == s.lists[c.sub_list_id as int].draw_calls_len);
            let b = run_calls(ctx, a.1, l, i + 1, n, fuel);
            lemma_run_reach_clean(ctx, a.1, l, i + 1, n, fuel);
            lemma_run_cleaner(ctx, a.1, l, i + 1, n, fuel);
            lemma_reach_clean_cleaner(ctx, a.1, b.1, c.sub_list_id, 0, ns, (fuel - 1) as nat);
            assert(b.1.lists[l as int].draw_calls[i as int].sub_list_id == c.sub_list_id);
            assert(b.1.lists[c.sub_list_id as int].draw_calls_len == s.lists[c.sub_list_id as int].draw_calls_len);
        } else {
            let a = leaf_spec(ctx, s, l, i);
            lemma_leaf_cleaner(ctx, s, l, i);
            lemma_exec_ok_shape(ctx, s.lists, a.1.lists, l, fuel);
            assert(a.1.lists[l as int].draw_calls_len == s.lists[l as int].draw_calls_len);
            let b = run_calls(ctx, a.1, l, i + 1, n, fuel);
            lemma_run_reach_clean(ctx, a.1, l, i + 1, n, fuel);
            lemma_run_cleaner(ctx, a.1, l, i + 1, n, fuel);
            let cb = b.1.lists[l as int].draw_calls[i as int];
            let ca = a.1.lists[l as int].draw_calls[i as int];
            assert(cb.sub_list_id == 0);
            assert(!cb.instance_dirty && !cb.uniforms_dirty);
            assert(cb.textures_2d == c.textures_2d);
            assert forall|k: int| 0 <= k < cb.textures_2d.len() implies !b.1.tex_dirty[#[trigger] cb.textures_2d[k] as int] by {
                assert(!a.1.tex_dirty[c.textures_2d[k] as int]);
            }
        }
    }
}

proof fn lemma_clean_run_identity(ctx: DrawContext, s: DrawState, l: usize, i: nat, n: nat, fuel: nat)
    requires
        run_ready(ctx, s, l, i, n, fuel),
        reach_clean(s, l, i, n, fuel),
    ensures
        run_calls(ctx, s, l, i, n, fuel).1 == s,
        no_uploads(run_calls(ctx, s, l, i, n, fuel).0),
    decreases fuel, n - i,
{
    if i < n {
        let c = s.lists[l as int].draw_calls[i as int];
        if c.sub_list_id != 0 {
            let ns = s.lists[c.sub_list_id as int].draw_calls_len as nat;
            let a = run_calls(ctx, s, c.sub_list_id, 0, ns, (fuel - 1) as nat);
            lemma_clean_run_identity(ctx, s, c.sub_list_id, 0, ns, (fuel - 1) as nat);
            lemma_clean_run_identity(ctx, s, l, i + 1, n, fuel);
            let b = run_calls(ctx, a.1, l, i + 1, n, fuel);
            assert(no_uploads(a.0 + b.0)) by {
                assert forall|k: int| 0 <= k < (a.0 + b.0).len() implies {
                    &&& !(#[trigger] (a.0 + b.0)[k]).update_instances
                    &&& forall|m: int| 0 <= m < (a.0 + b.0)[k].upload_textures.len() ==> !(a.0 + b.0)[k].upload_textures[m]
                } by {
                    if k < a.0.len() {
                        assert((a.0 + b.0)[k] == a.0[k]);
                    } else {
                        assert((a.0 + b.0)[k] == b.0[k - a.0.len()]);
                    }
                }
            }
        } else {
            lemma_tex_run_clean(s.tex_dirty, c.textures_2d, 0);
            let a = leaf_spec(ctx, s, l, i);
            let c2 = DrawCallView { instance_dirty: false, uniforms_dirty: false, ..c };
            assert(c2 == c);
            assert(s.lists[l as int].draw_calls.update(i as int, c2) =~= s.lists[l as int].draw_calls);
            assert(s.lists.update(l as int, s.lists[l as int]) =~= s.lists);
            assert(a.1 == s);
            lemma_clean_run_identity(ctx, s, l, i + 1, n, fuel);
            let b = run_calls(ctx, a.1, l, i + 1, n, fuel);
            assert(no_uploads(seq![a.0] + b.0)) by {
                assert forall|k: int| 0 <= k < (seq![a.0] + b.0).len() implies {
                    &&& !(#[trigger] (seq![a.0] + b.0)[k]).update_instances
                    &&& forall|m: int| 0 <= m < (seq![a.0] + b.0)[k].upload_textures.len() ==> !(seq![a.0] + b.0)[k].upload_textures[m]
                } by {
                    if k == 0 {
                        assert((seq![a.0] + b.0)[k] == a.0);
                    } else {
                        assert((seq![a.0] + b.0)[k] == b.0[k - 1]);
                    }
                }
            }
        }
    }
}

proof fn lemma_exec_ok_more_fuel(ctx: DrawContext, lists: Seq<DrawListView>, l: usize, f1: nat, f2: nat)
    requires
        exec_ok(ctx, lists, l, f1),
        f1 <= f2,
    ensures
        exec_ok(ctx, lists, l, f2),
    decreases f1,
{
    assert forall|i: int| 0 <= i < lists[l as int].draw_calls_len implies
        if (#[trigger] lists[l as int].draw_calls[i]).sub_list_id != 0 {
            exec_ok(ctx, lists, lists[l as int].draw_calls[i].sub_list_id, (f2 - 1) as nat)
        } else {
            leaf_ok(ctx, lists[l as int].draw_calls[i])
        }
    by {
        if lists[l as int].draw_calls[i].sub_list_id != 0 {
            lemma_exec_ok_more_fuel(ctx, lists, lists[l as int].draw_calls[i].sub_list_id, (f1 - 1) as nat, (f2 - 1) as nat);
        }
    }
}

proof fn lemma_run_more_fuel(ctx: DrawContext, s: DrawState, l: usize, i: nat, n: nat, f1: nat, f2: nat)
    requires
        run_ready(ctx, s, l, i, n, f1),
        f1 <= f2,
    ensures
        run_calls(ctx, s, l, i, n, f1) == run_calls(ctx, s, l, i, n, f2),
    decreases f1, n - i,
{
    if i < n {
        let c = s.lists[l as int].draw_calls[i as int];
        if c.sub_list_id != 0 {
            let ns = s.lists[c.sub_list_id as int].draw_calls_len as nat;
            lemma_run_more_fuel(ctx, s, c.sub_list_id, 0, ns, (f1 - 1) as nat, (f2 - 1) as nat);
            let a = run_calls(ctx, s, c.sub_list_id, 0, ns, (f1 - 1) as nat);
            lemma_run_cleaner(ctx, s, c.sub_list_id, 0, ns, (f1 - 1) as nat);
            lemma_exec_ok_shape(ctx, s.lists, a.1.lists, l, f1);
            assert(a.1.lists[l as int].draw_calls_len == s.lists[l as int].draw_calls_len);
            lemma_run_more_fuel(ctx, a.1, l, i + 1, n, f1, f2);
        } else {
            let a = leaf_spec(ctx, s, l, i);
            lemma_leaf_cleaner(ctx, s, l, i);
            lemma_exec_ok_shape(ctx, s.lists, a.1.lists, l, f1);
            assert(a.1.lists[l as int].draw_calls_len == s.lists[l as int].draw_calls_len);
            lemma_run_more_fuel(ctx, a.1, l, i + 1, n, f1, f2);
        }
    }
}

/// Drawing does not depend on the nesting depth allowed, as long as the
/// list can be drawn within it.
pub proof fn lemma_draw_depth_irrelevant(ctx: DrawContext, s: DrawState, l: usize, f1: nat, f2: nat)
    requires
        exec_ok(ctx, s.lists, l, f1),
        exec_ok(ctx, s.lists, l, f2),
        ctx.texture_count == s.tex_dirty.len(),
    ensures
        run_list(ctx, s, l, f1) == run_list(ctx, s, l, f2),
{
    let n = s.lists[l as int].draw_calls_len as nat;
    if f1 <= f2 {
        lemma_run_more_fuel(ctx, s, l, 0, n, f1, f2);
    } else {
        lemma_run_more_fuel(ctx, s, l, 0, n, f2, f1);
    }
}

/// Drawing a list a second time with nothing changed in between uploads
/// no instance data and no texture, and leaves the context as the first
/// drawing left it: every draw call drawn and every texture bound is clean
/// after a drawing.
pub proof fn lemma_redraw_uploads_nothing(ctx: DrawContext, s: DrawState, l: usize, f1: nat, f2: nat)
    requires
        exec_ok(ctx, s.lists, l, f1),
        exec_ok(ctx, run_list(ctx, s, l, f1).1.lists, l, f2),
        ctx.texture_count == s.tex_dirty.len(),
    ensures
        no_uploads(run_list(ctx, run_list(ctx, s, l, f1).1, l, f2).0),
        run_list(ctx, run_list(ctx, s, l, f1).1, l, f2).1 == run_list(ctx, s, l, f1).1,
{
    let n = s.lists[l as int].draw_calls_len as nat;
    let r1 = run_list(ctx, s, l, f1);
    lemma_run_reach_clean(ctx, s, l, 0, n, f1);
    lemma_run_cleaner(ctx, s, l, 0, n, f1);
    lemma_exec_ok_shape(ctx, s.lists, r1.1.lists, l, f1);
    assert(r1.1.lists[l as int].draw_calls_len == s.lists[l as int].draw_calls_len);
    lemma_clean_run_identity(ctx, r1.1, l, 0, n, f1);
    lemma_draw_depth_irrelevant(ctx, r1.1, l, f1, f2);
}

impl<T> Cx<T> {
    /// What drawing reads of the context but never changes.
    pub open spec fn draw_context(self) -> DrawContext {
        DrawContext {
            index_counts: self.shaders@.map_values(|s: Shader| s.geometry_indices.len()),
            instance_slots: self.compiled_shaders@.map_values(|c: CompiledShader| c.instance_slots),
            texture_count: self.textures_2d@.len(),
        }
    }

    /// What drawing changes of the context.
    pub open spec fn draw_state(self) -> DrawState {
        DrawState {
            lists: self.draw_lists@.map_values(|d: DrawList| d@),
            tex_dirty: self.textures_2d@.map_values(|t: Texture2D<T>| t.dirty),
        }
    }

    /// `new` differs from `old` at most in its draw lists and in its
    /// textures' dirty flags.
    pub open spec fn draw_frame(old: Cx<T>, new: Cx<T>) -> bool {
        &&& new == (Cx { draw_lists: new.draw_lists, textures_2d: new.textures_2d, ..old })
        &&& new.textures_2d@.len() == old.textures_2d@.len()
        &&& forall|j: int| 0 <= j < new.textures_2d@.len() ==>
            #[trigger] new.textures_2d@[j] == (Texture2D { dirty: new.textures_2d@[j].dirty, ..old.textures_2d@[j] })
    }

    fn exec_leaf(&mut self, l: usize, i: usize, steps: &mut Vec<DrawStep>)
        requires
            l < old(self).draw_lists@.len(),
            i < old(self).draw_lists@[l as int].draw_calls@.len(),
            leaf_ok(old(self).draw_context(), old(self).draw_state().lists[l as int].draw_calls[i as int]),
        ensures
            ({
                let r = leaf_spec(old(self).draw_context(), old(self).draw_state(), l, i as nat);
                &&& steps_view(final(steps)@) == steps_view(old(steps)@).push(r.0)
                &&& final(self).draw_state() == r.1
            }),
            Self::draw_frame(*old(self), *final(self)),
            same_shape(old(self).draw_state().lists, final(self).draw_state().lists),
    {
        let ghost ctx = self.draw_context();
        let ghost s0 = self.draw_state();
        let ghost c = s0.lists[l as int].draw_calls[i as int];
        let call = &self.draw_lists[l].draw_calls[i];
        let shader_id = call.shader_id;
        let update_instances = call.instance_dirty;
        let instance_len = call.instance_len;
        let textures = call.textures_2d.clone();
        assert(textures@ =~= c.textures_2d);
        assert(ctx.instance_slots[shader_id as int] == self.compiled_shaders@[shader_id as int].instance_slots);
        let slots = self.compiled_shaders[shader_id].instance_slots;
        let instance_count = (instance_len / slots) as u64;
        assert(ctx.index_counts[shader_id as int] == self.shaders@[shader_id as int].geometry_indices.len());
        let index_count = self.shaders[shader_id].geometry_indices.len() as u64;
        let mut upload: Vec<bool> = Vec::new();
        let mut j: usize = 0;
        while j < textures.len()
            invariant
                j <= textures@.len(),
                textures@ == c.textures_2d,
                forall|k: int| 0 <= k < textures@.len() ==> (#[trigger] textures@[k]) < self.textures_2d@.len(),
                self.textures_2d@.len() == old(self).textures_2d@.len(),
                *self == (Cx { textures_2d: self.textures_2d, ..*old(self) }),
                forall|k: int| 0 <= k < self.textures_2d@.len() ==>
                    #[trigger] self.textures_2d@[k] == (Texture2D { dirty: self.textures_2d@[k].dirty, ..old(self).textures_2d@[k] }),
                tex_run(s0.tex_dirty, c.textures_2d, 0).0 == upload@ + tex_run(self.draw_state().tex_dirty, c.textures_2d, j as nat).0,
                tex_run(s0.tex_dirty, c.textures_2d, 0).1 == tex_run(self.draw_state().tex_dirty, c.textures_2d, j as nat).1,
            decreases textures@.len() - j,
        {
            let ghost dcur = self.draw_state().tex_dirty;
            let t = textures[j] as usize;
            let d = self.textures_2d[t].dirty;
            upload.push(d);
            if d {
                self.textures_2d[t].dirty = false;
                assert(self.draw_state().tex_dirty =~= dcur.update(t as int, false));
            } else {
                assert(self.draw_state().tex_dirty =~= dcur);
            }
            assert(upload@ + tex_run(self.draw_state().tex_dirty, c.textures_2d, (j + 1) as nat).0
                =~= upload@.drop_last() + tex_run(dcur, c.textures_2d, j as nat).0);
            j += 1;
        }
        assert(tex_run(self.draw_state().tex_dirty, c.textures_2d, j as nat).0 =~= Seq::<bool>::empty());
        assert(upload@ =~= tex_run(s0.tex_dirty, c.textures_2d, 0).0);
        self.draw_lists[l].draw_calls[i].instance_dirty = false;
        self.draw_lists[l].draw_calls[i].uniforms_dirty = false;
        let step = DrawStep {
            draw_list_id: l,
            draw_call_id: i,
            shader_id,
            update_instances,
            instance_count,
            index_count,
            textures_2d: textures,
            upload_textures: upload,
        };
        let ghost old_steps = steps@;
        steps.push(step);
        proof {
            let r = leaf_spec(ctx, s0, l, i as nat);
            assert(steps_view(steps@) =~= steps_view(old_steps).push(r.0));
            let l2 = self.draw_lists@[l as int]@;
            assert(l2.draw_calls =~= s0.lists[l as int].draw_calls.update(i as int, DrawCallView { instance_dirty: false, uniforms_dirty: false, ..c }));
            assert(self.draw_state().lists =~= r.1.lists);
            assert(self.draw_state().tex_dirty =~= r.1.tex_dirty);
        }
    }

    fn exec_list_rec(&mut self, l: usize, steps: &mut Vec<DrawStep>, Ghost(fuel): Ghost<nat>)
        requires
            exec_ok(old(self).draw_context(), old(self).draw_state().lists, l, fuel),
        ensures
            ({
                let r = run_list(old(self).draw_context(), old(self).draw_state(), l, fuel);
                &&& steps_view(final(steps)@) == steps_view(old(steps)@) + r.0
                &&& final(self).draw_state() == r.1
            }),
            Self::draw_frame(*old(self), *final(self)),
            same_shape(old(self).draw_state().lists, final(self).draw_state().lists),
        decreases fuel,
    {
        let ghost ctx = self.draw_context();
        let ghost s0 = self.draw_state();
        let ghost steps0 = steps@;
        assert(s0.lists[l as int] == self.draw_lists@[l as int]@);
        let n = self.draw_lists[l].draw_calls_len;
        let mut i: usize = 0;
        while i < n
            invariant
                i <= n,
                n == s0.lists[l as int].draw_calls_len,
                ctx == old(self).draw_context(),
                s0 == old(self).draw_state(),
                ctx == self.draw_context(),
                exec_ok(ctx, s0.lists, l, fuel),
                exec_ok(ctx, self.draw_state().lists, l, fuel),
                Self::draw_frame(*old(self), *self),
                same_shape(s0.lists, self.draw_state().lists),
                steps_view(steps0) + run_calls(ctx, s0, l, 0, n as nat, fuel).0
                    == steps_view(steps@) + run_calls(ctx, self.draw_state(), l, i as nat, n as nat, fuel).0,
                run_calls(ctx, s0, l, 0, n as nat, fuel).1 == run_calls(ctx, self.draw_state(), l, i as nat, n as nat, fuel).1,
            decreases n - i,
        {
            let ghost scur = self.draw_state();
            let ghost steps_cur = steps@;
            assert(scur.lists[l as int] == self.draw_lists@[l as int]@);
            assert(scur.lists[l as int].draw_calls[i as int] == self.draw_lists@[l as int].draw_calls@[i as int]@);
            let sub = self.draw_lists[l].draw_calls[i].sub_list_id;
            if sub != 0 {
                self.exec_list_rec(sub, steps, Ghost((fuel - 1) as nat));
                proof {
                    lemma_exec_ok_shape(ctx, scur.lists, self.draw_state().lists, l, fuel);
                    assert(steps_view(steps@) + run_calls(ctx, self.draw_state(), l, (i + 1) as nat, n as nat, fuel).0
                        =~= steps_view(steps_cur) + run_calls(ctx, scur, l, i as nat, n as nat, fuel).0);
                }
            } else {
                self.exec_leaf(l, i, steps);
                proof {
                    lemma_exec_ok_shape(ctx, scur.lists, self.draw_state().lists, l, fuel);
                    assert(steps_view(steps@) + run_calls(ctx, self.draw_state(), l, (i + 1) as nat, n as nat, fuel).0
                        =~= steps_view(steps_cur) + run_calls(ctx, scur, l, i as nat, n as nat, fuel).0);
                }
            }
            i += 1;
        }
        assert(steps_view(steps@) =~= steps_view(steps@) + run_calls(ctx, self.draw_state(), l, i as nat, n as nat, fuel).0);
    }

    /// Drawing list `id` finishes, at some nesting depth, with every index in
    /// range.
    pub open spec fn draw_list_drawable(self, id: usize) -> bool {
        exists|fuel: nat| exec_ok(self.draw_context(), self.draw_state().lists, id, fuel)
    }

    /// A nesting depth within which list `id` can be drawn.
    pub open spec fn draw_depth(self, id: usize) -> nat {
        choose|fuel: nat| exec_ok(self.draw_context(), self.draw_state().lists, id, fuel)
    }

    /// Walks draw list `draw_list_id` as one frame draws it: its live draw
    /// calls in order, each nested list where a call refers to one, and for
    /// each call that draws instances a step saying what to submit. Marks
    /// the instance and uniform data of every drawn call clean, and every
    /// bound texture that was dirty clean (its step asks for its upload).
    pub fn exec_draw_list(&mut self, draw_list_id: usize) -> (steps: Vec<DrawStep>)
        requires
            old(self).draw_list_drawable(draw_list_id),
        ensures
            forall|fuel: nat| exec_ok(old(self).draw_context(), old(self).draw_state().lists, draw_list_id, fuel) ==> {
                let r = run_list(old(self).draw_context(), old(self).draw_state(), draw_list_id, fuel);
                &&& steps_view(steps@) == r.0
                &&& final(self).draw_state() == r.1
            },
            Self::draw_frame(*old(self), *final(self)),
            steps_in_range(old(self).draw_state(), steps_view(steps@)),
            instance_uploads_exact(old(self).draw_state(), steps_view(steps@)),
            texture_uploads_exact(old(self).draw_state(), steps_view(steps@)),
            flags_after_exact(old(self).draw_state(), steps_view(steps@), final(self).draw_state()),
            steps_describe_calls(old(self).draw_context(), old(self).draw_state(), steps_view(steps@)),
    {
        let mut steps: Vec<DrawStep> = Vec::new();
        let ghost fuel = self.draw_depth(draw_list_id);
        let ghost ctx = self.draw_context();
        let ghost s0 = self.draw_state();
        self.exec_list_rec(draw_list_id, &mut steps, Ghost(fuel));
        assert(steps_view(steps@) =~= steps_view(Seq::<DrawStep>::empty()) + run_list(ctx, s0, draw_list_id, fuel).0);
        assert forall|f: nat| exec_ok(ctx, s0.lists, draw_list_id, f) implies {
            let r = run_list(ctx, s0, draw_list_id, f);
            &&& steps_view(steps@) == r.0
            &&& self.draw_state() == r.1
        } by {
            lemma_draw_depth_irrelevant(ctx, s0, draw_list_id, fuel, f);
        }
        proof {
            lemma_frame_uploads_exact(ctx, s0, draw_list_id, fuel);
            lemma_frame_steps_describe_calls(ctx, s0, draw_list_id, fuel);
        }
        steps
    }

    /// Whether draw list `draw_list_id` can be drawn nesting at most
    /// `max_depth` lists deep.
    pub fn draw_list_ok(&self, draw_list_id: usize, max_depth: usize) -> (ok: bool)
        ensures
            ok == exec_ok(self.draw_context(), self.draw_state().lists, draw_list_id, max_depth as nat),
            ok ==> self.draw_list_drawable(draw_list_id),
        decreases max_depth,
    {
        let ghost ctx = self.draw_context();
        let ghost lists = self.draw_state().lists;
        if max_depth == 0 || draw_list_id >= self.draw_lists.len() {
            return false;
        }
        assert(lists[draw_list_id as int] == self.draw_lists@[draw_list_id as int]@);
        let list = &self.draw_lists[draw_list_id];
        let n = list.draw_calls_len;
        if n > list.draw_calls.len() {
            return false;
        }
        let mut i: usize = 0;
        while i < n
            invariant
                i <= n,
                n <= list.draw_calls@.len(),
                n == list.draw_calls_len,
                draw_list_id < lists.len(),
                *list == self.draw_lists@[draw_list_id as int],
                lists[draw_list_id as int] == list@,
                ctx == self.draw_context(),
                lists == self.draw_state().lists,
                max_depth > 0,
                forall|k: int| 0 <= k < i ==>
                    if (#[trigger] lists[draw_list_id as int].draw_calls[k]).sub_list_id != 0 {
                        exec_ok(ctx, lists, lists[draw_list_id as int].draw_calls[k].sub_list_id, (max_depth - 1) as nat)
                    } else {
                        leaf_ok(ctx, lists[draw_list_id as int].draw_calls[k])
                    },
            decreases n - i,
        {
            let call = &list.draw_calls[i];
            assert(lists[draw_list_id as int].draw_calls[i as int] == call@);
            if call.sub_list_id != 0 {
                if !self.draw_list_ok(call.sub_list_id, max_depth - 1) {
                    assert(!exec_ok(ctx, lists, lists[draw_list_id as int].draw_calls[i as int].sub_list_id, (max_depth - 1) as nat));
                    return false;
                }
            } else {
                let sid = call.shader_id;
                if sid >= self.shaders.len() || sid >= self.compiled_shaders.len() {
                    assert(!leaf_ok(ctx, lists[draw_list_id as int].draw_calls[i as int]));
                    assert(!exec_ok(ctx, lists, draw_list_id, max_depth as nat));
                    return false;
                }
                if self.compiled_shaders[sid].instance_slots == 0 {
                    assert(ctx.instance_slots[sid as int] == 0);
                    assert(!leaf_ok(ctx, lists[draw_list_id as int].draw_calls[i as int]));
                    assert(!exec_ok(ctx, lists, draw_list_id, max_depth as nat));
                    return false;
                }
                let mut j: usize = 0;
                while j < call.textures_2d.len()
                    invariant
                        j <= call.textures_2d@.len(),
                        lists[draw_list_id as int].draw_calls[i as int] == call@,
                        ctx.texture_count == self.textures_2d@.len(),
                        ctx == self.draw_context(),
                        lists == self.draw_state().lists,
                        max_depth > 0,
                        draw_list_id < lists.len(),
                        lists[draw_list_id as int].draw_calls_len <= lists[draw_list_id as int].draw_calls.len(),
                        lists[draw_list_id as int].draw_calls[i as int].sub_list_id == 0,
                        i < lists[draw_list_id as int].draw_calls_len,
                        forall|k: int| 0 <= k < j ==> (#[trigger] call.textures_2d@[k]) < self.textures_2d@.len(),
                    decreases call.textures_2d@.len() - j,
                {
                    if call.textures_2d[j] as usize >= self.textures_2d.len() {
                        assert(lists[draw_list_id as int].draw_calls[i as int].textures_2d[j as int] >= ctx.texture_count);
                        assert(!leaf_ok(ctx, lists[draw_list_id as int].draw_calls[i as int]));
                        assert(!exec_ok(ctx, lists, draw_list_id, max_depth as nat));
                        return false;
                    }
                    j += 1;
                }
                assert(ctx.instance_slots[sid as int] == self.compiled_shaders@[sid as int].instance_slots);
            }
            i += 1;
        }
        true
    }
}

} // verus!