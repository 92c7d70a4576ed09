//! What a frame uploads, stated against the state before the frame: a drawn
//! call's instance data is uploaded exactly at its first drawing in the
//! frame if it had changed, a bound texture exactly at its first binding in
//! the frame if it was dirty, and only what was drawn or bound ends clean.
use vstd::prelude::*;
use crate::draw::{
    exec_ok, lemma_exec_ok_shape, lemma_leaf_cleaner, lemma_run_cleaner, leaf_ok, leaf_spec, run_calls, run_list, run_ready,
    same_shape, tex_run, DrawContext, DrawListView, DrawState, DrawStepView,
};

verus! {

/// Some step of `steps` draws call `c` of list `l`.
pub open spec fn visited(steps: Seq<DrawStepView>, l: int, c: int) -> bool {
    exists|j: int| 0 <= j < steps.len() && (#[trigger] steps[j]).draw_list_id as int == l && steps[j].draw_call_id as int == c
}

/// Texture `t` occurs in `ts`.
pub open spec fn bound_within(ts: Seq<u32>, t: int) -> bool {
    exists|m: int| 0 <= m < ts.len() && (#[trigger] ts[m]) as int == t
}

/// Some step of `steps` binds texture `t`.
pub open spec fn bound_in(steps: Seq<DrawStepView>, t: int) -> bool {
    exists|j: int| 0 <= j < steps.len() && bound_within((#[trigger] steps[j]).textures_2d, t)
}

/// Each step of `steps` draws an existing call of `s` whose textures exist,
/// with an upload mark per bound texture.
pub open spec fn steps_in_range(s: DrawState, steps: Seq<DrawStepView>) -> bool {
    forall|k: int| 0 <= k < steps.len() ==> {
        let st = #[trigger] steps[k];
        &&& st.draw_list_id < s.lists.len()
        &&& st.draw_call_id < s.lists[st.draw_list_id as int].draw_calls.len()
        &&& st.upload_textures.len() == st.textures_2d.len()
        &&& forall|m: int| 0 <= m < st.textures_2d.len() ==> (#[trigger] st.textures_2d[m]) < s.tex_dirty.len()
    }
}

/// A step uploads a call's instance data exactly when the call was dirty
/// before the frame and no earlier step drew it.
pub open spec fn instance_uploads_exact(s: DrawState, steps: Seq<DrawStepView>) -> bool {
    forall|k: int| 0 <= k < steps.len() ==>
        (#[trigger] steps[k]).update_instances == (
            s.lists[steps[k].draw_list_id as int].draw_calls[steps[k].draw_call_id as int].instance_dirty
            && !visited(steps.take(k), steps[k].draw_list_id as int, steps[k].draw_call_id as int))
}

/// A step uploads its `m`-th texture exactly when that texture was dirty
/// before the frame and neither an earlier step nor an earlier slot of this
/// step bound it.
pub open spec fn texture_uploads_exact(s: DrawState, steps: Seq<DrawStepView>) -> bool {
    forall|k: int, m: int| 0 <= k < steps.len() && 0 <= m < steps[k].textures_2d.len() ==>
        (#[trigger] steps[k].upload_textures[m]) == (
            s.tex_dirty[steps[k].textures_2d[m] as int]
            && !bound_in(steps.take(k), steps[k].textures_2d[m] as int)
            && !bound_within(steps[k].textures_2d.take(m), steps[k].textures_2d[m] as int))
}

/// After the frame, a call is dirty exactly when it was dirty before and
/// was not drawn; a texture is dirty exactly when it was dirty before and
/// was not bound.
pub open spec fn flags_after_exact(s: DrawState, steps: Seq<DrawStepView>, s2: DrawState) -> bool {
    &&& forall|l: int, c: int| 0 <= l < s.lists.len() && 0 <= c < s.lists[l].draw_calls.len() ==> {
        &&& (#[trigger] s2.lists[l].draw_calls[c]).instance_dirty
            == (s.lists[l].draw_calls[c].instance_dirty && !visited(steps, l, c))
        &&& s2.lists[l].draw_calls[c].uniforms_dirty
            == (s.lists[l].draw_calls[c].uniforms_dirty && !visited(steps, l, c))
    }
    &&& forall|t: int| 0 <= t < s.tex_dirty.len() ==>
        (#[trigger] s2.tex_dirty[t]) == (s.tex_dirty[t] && !bound_in(steps, t))
}

pub open spec fn frame_exact(s: DrawState, steps: Seq<DrawStepView>, s2: DrawState) -> bool {
    &&& same_shape(s.lists, s2.lists)
    &&& s.tex_dirty.len() == s2.tex_dirty.len()
    &&& steps_in_range(s, steps)
    &&& instance_uploads_exact(s, steps)
    &&& texture_uploads_exact(s, steps)
    &&& flags_after_exact(s, steps, s2)
}

proof fn lemma_tex_run_exact(d: Seq<bool>, ts: Seq<u32>, j: nat)
    requires
        j <= ts.len(),
        forall|k: int| j <= k < ts.len() ==> (#[trigger] ts[k]) < d.len(),
    ensures
        tex_run(d, ts, j).0.len() == ts.len() - j,
        tex_run(d, ts, j).1.len() == d.len(),
        forall|m: int| 0 <= m < ts.len() - j ==>
            #[trigger] tex_run(d, ts, j).0[m] == (d[ts[j + m] as int]
                && forall|p: int| j <= p < j + m ==> #[trigger] ts[p] != ts[j + m]),
        forall|t: int| 0 <= t < d.len() ==>
            #[trigger] tex_run(d, ts, j).1[t] == (d[t] && forall|p: int| j <= p < ts.len() ==> #[trigger] ts[p] as int != t),
    decreases ts.len() - j,
{
    if j < ts.len() {
        let t0 = ts[j as int] as int;
        let d2 = if d[t0] { d.update(t0, false) } else { d };
        assert forall|t: int| 0 <= t < d.len() implies #[trigger] d2[t] == (d[t] && t != t0) by {}
        lemma_tex_run_exact(d2, ts, j + 1);
        let r = tex_run(d, ts, j);
        let rest = tex_run(d2, ts, j + 1);
        assert forall|m: int| 0 <= m < ts.len() - j implies
            #[trigger] r.0[m] == (d[ts[j + m] as int] && forall|p: int| j <= p < j + m ==> #[trigger] ts[p] != ts[j + m])
        by {
            if m > 0 {
                assert(r.0[m] == rest.0[m - 1]);
                assert(d2[ts[j + m] as int] == (d[ts[j + m] as int] && ts[j + m] as int != t0));
                if (forall|p: int| j + 1 <= p < j + 1 + (m - 1) ==> #[trigger] ts[p] != ts[j + 1 + (m - 1)]) && ts[j + m] as int != t0 {
                    assert forall|p: int| j <= p < j + m implies #[trigger] ts[p] != ts[j + m] by {
                        if p > j {
                            assert(j + 1 <= p < j + 1 + (m - 1));
                        }
                    }
                }
            }
        }
        assert forall|t: int| 0 <= t < d.len() implies
            #[trigger] r.1[t] == (d[t] && forall|p: int| j <= p < ts.len() ==> #[trigger] ts[p] as int != t)
        by {
            assert(r.1[t] == rest.1[t]);
            if d[t] && t != t0 && (forall|p: int| j + 1 <= p < ts.len() ==> #[trigger] ts[p] as int != t) {
                assert forall|p: int| j <= p < ts.len() implies #[trigger] ts[p] as int != t by {}
            }
        }
    }
}

proof fn lemma_same_shape_trans(a: Seq<DrawListView>, b: Seq<DrawListView>, c: Seq<DrawListView>)
    requires
        same_shape(a, b),
        same_shape(b, c),
    ensures
        same_shape(a, c),
{
    assert forall|l: int| 0 <= l < a.len() implies {
        &&& (#[trigger] a[l]).draw_calls_len == c[l].draw_calls_len
        &&& a[l].draw_calls.len() == c[l].draw_calls.len()
        &&& forall|i: int| 0 <= i < a[l].draw_calls.len() ==> {
            &&& (#[trigger] a[l].draw_calls[i]).sub_list_id == c[l].draw_calls[i].sub_list_id
            &&& a[l].draw_calls[i].shader_id == c[l].draw_calls[i].shader_id
            &&& a[l].draw_calls[i].instance_len == c[l].draw_calls[i].instance_len
            &&& a[l].draw_calls[i].textures_2d == c[l].draw_calls[i].textures_2d
        }
    } by {
        assert(b[l].draw_calls_len == b[l].draw_calls_len);
        assert forall|i: int| 0 <= i < a[l].draw_calls.len() implies {
            &&& (#[trigger] a[l].draw_calls[i]).sub_list_id == c[l].draw_calls[i].sub_list_id
            &&& a[l].draw_calls[i].shader_id == c[l].draw_calls[i].shader_id
            &&& a[l].draw_calls[i].instance_len == c[l].draw_calls[i].instance_len
            &&& a[l].draw_calls[i].textures_2d == c[l].draw_calls[i].textures_2d
        } by {
            assert(b[l].draw_calls[i] == b[l].draw_calls[i]);
        }
    }
}

proof fn lemma_visited_concat(x: Seq<DrawStepView>, y: Seq<DrawStepView>, l: int, c: int)
    ensures
        visited(x + y, l, c) == (visited(x, l, c) || visited(y, l, c)),
{
    if visited(x + y, l, c) {
        let j = choose|j: int| 0 <= j < (x + y).len() && (#[trigger] (x + y)[j]).draw_list_id as int == l && (x + y)[j].draw_call_id as int == c;
        if j < x.len() {
            assert(x[j] == (x + y)[j]);
        } else {
            assert(y[j - x.len()] == (x + y)[j]);
        }
    }
    if visited(x, l, c) {
        let j = choose|j: int| 0 <= j < x.len() && (#[trigger] x[j]).draw_list_id as int == l && x[j].draw_call_id as int == c;
        assert((x + y)[j] == x[j]);
    }
    if visited(y, l, c) {
        let j = choose|j: int| 0 <= j < y.len() && (#[trigger] y[j]).draw_list_id as int == l && y[j].draw_call_id as int == c;
        assert((x + y)[j + x.len()] == y[j]);
    }
}

proof fn lemma_bound_in_concat(x: Seq<DrawStepView>, y: Seq<DrawStepView>, t: int)
    ensures
        bound_in(x + y, t) == (bound_in(x, t) || bound_in(y, t)),
{
    if bound_in(x + y, t) {
        let j = choose|j: int| 0 <= j < (x + y).len() && bound_within((#[trigger] (x + y)[j]).textures_2d, t);
        if j < x.len() {
            assert(x[j] == (x + y)[j]);
        } else {
            assert(y[j - x.len()] == (x + y)[j]);
        }
    }
    if bound_in(x, t) {
        let j = choose|j: int| 0 <= j < x.len() && bound_within((#[trigger] x[j]).textures_2d, t);
        assert((x + y)[j] == x[j]);
    }
    if bound_in(y, t) {
        let j = choose|j: int| 0 <= j < y.len() && bound_within((#[trigger] y[j]).textures_2d, t);
        assert((x + y)[j + x.len()] == y[j]);
    }
}

proof fn lemma_frame_exact_empty(s: DrawState)
    ensures
        frame_exact(s, Seq::empty(), s),
{
    assert(same_shape(s.lists, s.lists));
}

proof fn lemma_frame_exact_compose(s: DrawState, a: Seq<DrawStepView>, s1: DrawState, b: Seq<DrawStepView>, s2: DrawState)
    requires
        frame_exact(s, a, s1),
        frame_exact(s1, b, s2),
    ensures
        frame_exact(s, a + b, s2),
{
    let ab = a + b;
    lemma_same_shape_trans(s.lists, s1.lists, s2.lists);
    assert forall|k: int| 0 <= k < ab.len() implies {
        let st = #[trigger] ab[k];
        &&& st.draw_list_id < s.lists.len()
        &&& st.draw_call_id < s.lists[st.draw_list_id as int].draw_calls.len()
        &&& st.upload_textures.len() == st.textures_2d.len()
        &&& forall|m: int| 0 <= m < st.textures_2d.len() ==> (#[trigger] st.textures_2d[m]) < s.tex_dirty.len()
    } by {
        if k < a.len() {
            assert(ab[k] == a[k]);
        } else {
            assert(ab[k] == b[k - a.len()]);
            let st = b[k - a.len()];
            assert(s1.lists[st.draw_list_id as int].draw_calls.len() == s.lists[st.draw_list_id as int].draw_calls.len());
        }
    }
    assert forall|k: int| 0 <= k < ab.len() implies
        (#[trigger] ab[k]).update_instances == (
            s.lists[ab[k].draw_list_id as int].draw_calls[ab[k].draw_call_id as int].instance_dirty
            && !visited(ab.take(k), ab[k].draw_list_id as int, ab[k].draw_call_id as int))
    by {
        if k < a.len() {
            assert(ab[k] == a[k]);
            assert(ab.take(k) =~= a.take(k));
        } else {
            let k2 = k - a.len();
            let st = b[k2];
            assert(ab[k] == st);
            assert(ab.take(k) =~= a + b.take(k2));
            lemma_visited_concat(a, b.take(k2), st.draw_list_id as int, st.draw_call_id as int);
            assert(s1.lists[st.draw_list_id as int].draw_calls.len() == s.lists[st.draw_list_id as int].draw_calls.len());
            assert(s1.lists[st.draw_list_id as int].draw_calls[st.draw_call_id as int].instance_dirty
                == (s.lists[st.draw_list_id as int].draw_calls[st.draw_call_id as int].instance_dirty
                    && !visited(a, st.draw_list_id as int, st.draw_call_id as int)));
        }
    }
    assert forall|k: int, m: int| 0 <= k < ab.len() && 0 <= m < ab[k].textures_2d.len() implies
        (#[trigger] ab[k].upload_textures[m]) == (
            s.tex_dirty[ab[k].textures_2d[m] as int]
            && !bound_in(ab.take(k), ab[k].textures_2d[m] as int)
            && !bound_within(ab[k].textures_2d.take(m), ab[k].textures_2d[m] as int))
    by {
        if k < a.len() {
            assert(ab[k] == a[k]);
            assert(ab.take(k) =~= a.take(k));
            assert(a[k].upload_textures[m] == a[k].upload_textures[m]);
        } else {
            let k2 = k - a.len();
            let st = b[k2];
            assert(ab[k] == st);
            assert(ab.take(k) =~= a + b.take(k2));
            let t = st.textures_2d[m] as int;
            lemma_bound_in_concat(a, b.take(k2), t);
            assert(st.upload_textures[m] == st.upload_textures[m]);
            assert(st.textures_2d[m] < s1.tex_dirty.len());
            assert(s1.tex_dirty[t] == (s.tex_dirty[t] && !bound_in(a, t)));
        }
    }
    assert forall|l: int, c: int| 0 <= l < s.lists.len() && 0 <= c < s.lists[l].draw_calls.len() implies {
        &&& (#[trigger] s2.lists[l].draw_calls[c]).instance_dirty
            == (s.lists[l].draw_calls[c].instance_dirty && !visited(ab, l, c))
        &&& s2.lists[l].draw_calls[c].uniforms_dirty
            == (s.lists[l].draw_calls[c].uniforms_dirty && !visited(ab, l, c))
    } by {
        lemma_visited_concat(a, b, l, c);
        assert(s1.lists[l].draw_calls.len() == s.lists[l].draw_calls.len());
        assert(s1.lists[l].draw_calls[c] == s1.lists[l].draw_calls[c]);
    }
    assert forall|t: int| 0 <= t < s.tex_dirty.len() implies
        (#[trigger] s2.tex_dirty[t]) == (s.tex_dirty[t] && !bound_in(ab, t))
    by {
        lemma_bound_in_concat(a, b, t);
        assert(s1.tex_dirty[t] == s1.tex_dirty[t]);
    }
}

proof fn lemma_same_shape_sym(a: Seq<DrawListView>, b: Seq<DrawListView>)
    requires
        same_shape(a, b),
    ensures
        same_shape(b, a),
{
    assert forall|l: int| 0 <= l < b.len() implies {
        &&& (#[trigger] b[l]).draw_calls_len == a[l].draw_calls_len
        &&& b[l].draw_calls.len() == a[l].draw_calls.len()
        &&& forall|i: int| 0 <= i < b[l].draw_calls.len() ==> {
            &&& (#[trigger] b[l].draw_calls[i]).sub_list_id == a[l].draw_calls[i].sub_list_id
            &&& b[l].draw_calls[i].shader_id == a[l].draw_calls[i].shader_id
            &&& b[l].draw_calls[i].instance_len == a[l].draw_calls[i].instance_len
            &&& b[l].draw_calls[i].textures_2d == a[l].draw_calls[i].textures_2d
        }
    } by {
        assert(a[l].draw_calls_len == a[l].draw_calls_len);
        assert forall|i: int| 0 <= i < b[l].draw_calls.len() implies {
            &&& (#[trigger] b[l].draw_calls[i]).sub_list_id == a[l].draw_calls[i].sub_list_id
            &&& b[l].draw_calls[i].shader_id == a[l].draw_calls[i].shader_id
            &&& b[l].draw_calls[i].instance_len == a[l].draw_calls[i].instance_len
            &&& b[l].draw_calls[i].textures_2d == a[l].draw_calls[i].textures_2d
        } by {
            assert(a[l].draw_calls[i] == a[l].draw_calls[i]);
        }
    }
}

proof fn lemma_leaf_exact(ctx: DrawContext, s: DrawState, l: usize, i: nat)
    requires
        l < s.lists.len(),
        i < s.lists[l as int].draw_calls.len(),
        i <= usize::MAX,
        leaf_ok(ctx, s.lists[l as int].draw_calls[i as int]),
        ctx.texture_count == s.tex_dirty.len(),
    ensures
        frame_exact(s, seq![leaf_spec(ctx, s, l, i).0], leaf_spec(ctx, s, l, i).1),
{
    let c = s.lists[l as int].draw_calls[i as int];
    let ts = c.textures_2d;
    let r = leaf_spec(ctx, s, l, i);
    let st = r.0;
    let s1 = r.1;
    let steps = seq![st];
    lemma_leaf_cleaner(ctx, s, l, i);
    lemma_same_shape_sym(s1.lists, s.lists);
    lemma_tex_run_exact(s.tex_dirty, ts, 0);
    assert(steps[0] == st);
    assert(steps.take(0) =~= Seq::<DrawStepView>::empty());
    assert(!visited(Seq::<DrawStepView>::empty(), st.draw_list_id as int, st.draw_call_id as int));
    assert forall|k: int, m: int| 0 <= k < steps.len() && 0 <= m < steps[k].textures_2d.len() implies
        (#[trigger] steps[k].upload_textures[m]) == (
            s.tex_dirty[steps[k].textures_2d[m] as int]
            && !bound_in(steps.take(k), steps[k].textures_2d[m] as int)
            && !bound_within(steps[k].textures_2d.take(m), steps[k].textures_2d[m] as int))
    by {
        assert(k == 0);
        let t = ts[m] as int;
        assert(!bound_in(Seq::<DrawStepView>::empty(), t));
        assert(st.upload_textures[m] == (s.tex_dirty[t] && forall|p: int| 0 <= p < 0 + m ==> #[trigger] ts[p] != ts[0 + m]));
        if bound_within(ts.take(m), t) {
            let q = choose|q: int| 0 <= q < ts.take(m).len() && (#[trigger] ts.take(m)[q]) as int == t;
            assert(ts.take(m)[q] == ts[q]);
        }
        if !(forall|p: int| 0 <= p < 0 + m ==> #[trigger] ts[p] != ts[0 + m]) {
            let q = choose|p: int| !(0 <= p < 0 + m ==> #[trigger] ts[p] != ts[0 + m]);
            assert(ts.take(m)[q] == ts[q]);
            assert(bound_within(ts.take(m), t));
        }
    }
    assert forall|ll: int, cc: int| 0 <= ll < s.lists.len() && 0 <= cc < s.lists[ll].draw_calls.len() implies {
        &&& (#[trigger] s1.lists[ll].draw_calls[cc]).instance_dirty
            == (s.lists[ll].draw_calls[cc].instance_dirty && !visited(steps, ll, cc))
        &&& s1.lists[ll].draw_calls[cc].uniforms_dirty
            == (s.lists[ll].draw_calls[cc].uniforms_dirty && !visited(steps, ll, cc))
    } by {
        if visited(steps, ll, cc) {
            let j = choose|j: int| 0 <= j < steps.len() && (#[trigger] steps[j]).draw_list_id == ll as usize && steps[j].draw_call_id == cc as usize;
            assert(j == 0);
        }
        if ll == l && cc == i {
            assert(steps[0].draw_list_id == l && steps[0].draw_call_id == i as usize);
        } else if ll == l {
            assert(s1.lists[ll].draw_calls[cc] == s.lists[ll].draw_calls[cc]);
        } else {
            assert(s1.lists[ll] == s.lists[ll]);
        }
    }
    assert forall|t: int| 0 <= t < s.tex_dirty.len() implies
        (#[trigger] s1.tex_dirty[t]) == (s.tex_dirty[t] && !bound_in(steps, t))
    by {
        assert(s1.tex_dirty[t] == (s.tex_dirty[t] && forall|p: int| 0 <= p < ts.len() ==> #[trigger] ts[p] as int != t));
        if bound_in(steps, t) {
            let j = choose|j: int| 0 <= j < steps.len() && bound_within((#[trigger] steps[j]).textures_2d, t);
            assert(j == 0);
            let q = choose|q: int| 0 <= q < ts.len() && (#[trigger] ts[q]) as int == t;
        }
        if !(forall|p: int| 0 <= p < ts.len() ==> #[trigger] ts[p] as int != t) {
            let q = choose|p: int| !(0 <= p < ts.len() ==> #[trigger] ts[p] as int != t);
            assert(bound_within(steps[0].textures_2d, t));
            assert(bound_in(steps, t));
        }
    }
}

proof fn lemma_run_exact(ctx: DrawContext, s: DrawState, l: usize, i: nat, n: nat, fuel: nat)
    requires
        run_ready(ctx, s, l, i, n, fuel),
    ensures
        frame_exact(s, run_calls(ctx, s, l, i, n, fuel).0, run_calls(ctx, s, l, i, n, fuel).1),
    decreases fuel, n - i,
{
    if i >= n {
        lemma_frame_exact_empty(s);
    } else {
        let c = s.lists[l as int].draw_calls[i as int];
        if c.sub_list_id != 0 {
            let ns = s.lists[c.sub_list_id as int].draw_calls_len as nat;
            let a = run_calls(ctx, s, c.sub_list_id, 0, ns, (fuel - 1) as nat);
            lemma_run_exact(ctx, s, c.sub_list_id, 0, ns, (fuel - 1) as nat);
            lemma_run_cleaner(ctx, s, c.sub_list_id, 0, ns, (fuel - 1) as nat);
            lemma_exec_ok_shape(ctx, s.lists, a.1.lists, l, fuel);
            assert(a.1.lists[l as int].draw_calls_len == s.lists[l as int].draw_calls_len);
            lemma_run_exact(ctx, a.1, l, i + 1, n, fuel);
            let b = run_calls(ctx, a.1, l, i + 1, n, fuel);
            lemma_frame_exact_compose(s, a.0, a.1, b.0, b.1);
        } else {
            let a = leaf_spec(ctx, s, l, i);
            lemma_leaf_exact(ctx, s, l, i);
            lemma_leaf_cleaner(ctx, s, l, i);
            lemma_exec_ok_shape(ctx, s.lists, a.1.lists, l, fuel);
            assert(a.1.lists[l as int].draw_calls_len == s.lists[l as int].draw_calls_len);
            lemma_run_exact(ctx, a.1, l, i + 1, n, fuel);
            let b = run_calls(ctx, a.1, l, i + 1, n, fuel);
            lemma_frame_exact_compose(s, seq![a.0], a.1, b.0, b.1);
        }
    }
}

/// What a frame uploads and leaves dirty, against the state before it:
/// every step draws an existing call; a step uploads its call's instance
/// data exactly when that call's instance data had changed before the frame
/// and no earlier step of the frame drew the call; a step uploads its m-th
/// bound texture exactly when the texture was dirty before the frame and
/// was not bound earlier in the frame; after the frame a call's instance and
/// uniform data are dirty exactly when they were and the call was not
/// drawn, and a texture is dirty exactly when it was and was not bound.
pub proof fn lemma_frame_uploads_exact(ctx: DrawContext, s: DrawState, l: usize, fuel: nat)
    requires
        exec_ok(ctx, s.lists, l, fuel),
        ctx.texture_count == s.tex_dirty.len(),
    ensures
        steps_in_range(s, run_list(ctx, s, l, fuel).0),
        instance_uploads_exact(s, run_list(ctx, s, l, fuel).0),
        texture_uploads_exact(s, run_list(ctx, s, l, fuel).0),
        flags_after_exact(s, run_list(ctx, s, l, fuel).0, run_list(ctx, s, l, fuel).1),
{
    lemma_run_exact(ctx, s, l, 0, s.lists[l as int].draw_calls_len as nat, fuel);
}

/// Every step draws a live, non-nested call of `s` with that call's shader
/// and textures, as many instances as whole instances fit in its instance
/// data, and all of its shader's geometry indices.
pub open spec fn steps_describe_calls(ctx: DrawContext, s: DrawState, steps: Seq<DrawStepView>) -> bool {
    forall|k: int| 0 <= k < steps.len() ==> {
        let st = #[trigger] steps[k];
        let c = s.lists[st.draw_list_id as int].draw_calls[st.draw_call_id as int];
        &&& st.draw_list_id < s.lists.len()
        &&& st.draw_call_id < s.lists[st.draw_list_id as int].draw_calls_len
        &&& st.draw_call_id < s.lists[st.draw_list_id as int].draw_calls.len()
        &&& c.sub_list_id == 0
        &&& st.shader_id == c.shader_id
        &&& st.textures_2d == c.textures_2d
        &&& st.instance_count == (c.instance_len / ctx.instance_slots[c.shader_id as int]) as u64
        &&& st.index_count == ctx.index_counts[c.shader_id as int] as u64
    }
}

proof fn lemma_describe_compose(ctx: DrawContext, s: DrawState, a: Seq<DrawStepView>, s1: DrawState, b: Seq<DrawStepView>)
    requires
        steps_describe_calls(ctx, s, a),
        steps_describe_calls(ctx, s1, b),
        same_shape(s1.lists, s.lists),
    ensures
        steps_describe_calls(ctx, s, a + b),
{
    assert forall|k: int| 0 <= k < (a + b).len() implies {
        let st = #[trigger] (a + b)[k];
        let c = s.lists[st.draw_list_id as int].draw_calls[st.draw_call_id as int];
        &&& st.draw_list_id < s.lists.len()
        &&& st.draw_call_id < s.lists[st.draw_list_id as int].draw_calls_len
        &&& st.draw_call_id < s.lists[st.draw_list_id as int].draw_calls.len()
        &&& c.sub_list_id == 0
        &&& st.shader_id == c.shader_id
        &&& st.textures_2d == c.textures_2d
        &&& st.instance_count == (c.instance_len / ctx.instance_slots[c.shader_id as int]) as u64
        &&& st.index_count == ctx.index_counts[c.shader_id as int] as u64
    } by {
        if k < a.len() {
            assert((a + b)[k] == a[k]);
        } else {
            let st = b[k - a.len()];
            assert((a + b)[k] == st);
            assert(s1.lists[st.draw_list_id as int].draw_calls_len == s.lists[st.draw_list_id as int].draw_calls_len);
            assert(s1.lists[st.draw_list_id as int].draw_calls.len() == s.lists[st.draw_list_id as int].draw_calls.len());
            assert(s1.lists[st.draw_list_id as int].draw_calls[st.draw_call_id as int].sub_list_id
                == s.lists[st.draw_list_id as int].draw_calls[st.draw_call_id as int].sub_list_id);
        }
    }
}

proof fn lemma_run_describes(ctx: DrawContext, s: DrawState, l: usize, i: nat, n: nat, fuel: nat)
    requires
        run_ready(ctx, s, l, i, n, fuel),
    ensures
        steps_describe_calls(ctx, s, run_calls(ctx, s, l, i, n, fuel).0),
    decreases fuel, n - i,
{
    if i < n {
        let c = s.lists[l as int].draw_calls[i as int];
        if c.sub_list_id != 0 {
            let ns = s.lists[c.sub_list_id as int].draw_calls_len as nat;
            let a = run_calls(ctx, s, c.sub_list_id, 0, ns, (fuel - 1) as nat);
            lemma_run_describes(ctx, s, c.sub_list_id, 0, ns, (fuel - 1) as nat);
            lemma_run_cleaner(ctx, s, c.sub_list_id, 0, ns, (fuel - 1) as nat);
            lemma_exec_ok_shape(ctx, s.lists, a.1.lists, l, fuel);
            assert(a.1.lists[l as int].draw_calls_len == s.lists[l as int].draw_calls_len);
            lemma_run_describes(ctx, a.1, l, i + 1, n, fuel);
            let b = run_calls(ctx, a.1, l, i + 1, n, fuel);
            lemma_describe_compose(ctx, s, a.0, a.1, b.0);
        } else {
            let a = leaf_spec(ctx, s, l, i);
            lemma_leaf_cleaner(ctx, s, l, i);
            assert(steps_describe_calls(ctx, s, seq![a.0])) by {
                assert(seq![a.0][0] == a.0);
            }
            lemma_exec_ok_shape(ctx, s.lists, a.1.lists, l, fuel);
            assert(a.1.lists[l as int].draw_calls_len == s.lists[l as int].draw_calls_len);
            lemma_run_describes(ctx, a.1, l, i + 1, n, fuel);
            let b = run_calls(ctx, a.1, l, i + 1, n, fuel);
            lemma_describe_compose(ctx, s, seq![a.0], a.1, b.0);
        }
    }
}

/// What each step of a frame draws: a live, non-nested call, with the
/// call's shader and textures, `instance_len / instance_slots` instances
/// and the shader's full index count.
pub proof fn lemma_frame_steps_describe_calls(ctx: DrawContext, s: DrawState, l: usize, fuel: nat)
    requires
        exec_ok(ctx, s.lists, l, fuel),
        ctx.texture_count == s.tex_dirty.len(),
    ensures
        steps_describe_calls(ctx, s, run_list(ctx, s, l, fuel).0),
{
    lemma_run_describes(ctx, s, l, 0, s.lists[l as int].draw_calls_len as nat, fuel);
}

proof fn lemma_flat_order(ctx: DrawContext, s: DrawState, l: usize, i: nat, n: nat, fuel: nat)
    requires
        run_ready(ctx, s, l, i, n, fuel),
        forall|j: int| i <= j < n ==> (#[trigger] s.lists[l as int].draw_calls[j]).sub_list_id == 0,
    ensures
        run_calls(ctx, s, l, i, n, fuel).0.len() == n - i,
        forall|k: int| 0 <= k < n - i ==> (#[trigger] run_calls(ctx, s, l, i, n, fuel).0[k]).draw_list_id == l
            && run_calls(ctx, s, l, i, n, fuel).0[k].draw_call_id == i + k,
    decreases n - i,
{
    if i < n {
        let a = leaf_spec(ctx, s, l, i);
        lemma_leaf_cleaner(ctx, s, l, i);
        lemma_exec_ok_shape(ctx, s.lists, a.1.lists, l, fuel);
        assert(a.1.lists[l as int].draw_calls_len == s.lists[l as int].draw_calls_len);
        assert forall|j: int| i + 1 <= j < n implies (#[trigger] a.1.lists[l as int].draw_calls[j]).sub_list_id == 0 by {
            assert(s.lists[l as int].draw_calls[j].sub_list_id == 0);
        }
        lemma_flat_order(ctx, a.1, l, i + 1, n, fuel);
        let b = run_calls(ctx, a.1, l, i + 1, n, fuel);
        let r = run_calls(ctx, s, l, i, n, fuel);
        assert(r.0 == seq![a.0] + b.0);
        assert forall|k: int| 0 <= k < n - i implies (#[trigger] r.0[k]).draw_list_id == l && r.0[k].draw_call_id == i + k by {
            if k > 0 {
                assert(r.0[k] == b.0[k - 1]);
            }
        }
    }
}

/// A list that nests no other list is drawn as its live calls, one step
/// each, in order.
pub proof fn lemma_flat_list_order(ctx: DrawContext, s: DrawState, l: usize, fuel: nat)
    requires
        exec_ok(ctx, s.lists, l, fuel),
        ctx.texture_count == s.tex_dirty.len(),
        forall|j: int| 0 <= j < s.lists[l as int].draw_calls_len ==> (#[trigger] s.lists[l as int].draw_calls[j]).sub_list_id == 0,
    ensures
        run_list(ctx, s, l, fuel).0.len() == s.lists[l as int].draw_calls_len,
        forall|k: int| 0 <= k < s.lists[l as int].draw_calls_len ==>
            (#[trigger] run_list(ctx, s, l, fuel).0[k]).draw_list_id == l && run_list(ctx, s, l, fuel).0[k].draw_call_id == k,
{
    lemma_flat_order(ctx, s, l, 0, s.lists[l as int].draw_calls_len as nat, fuel);
}

} // verus!
