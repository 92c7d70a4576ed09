use render::cx::{CompiledShader, Cx, CxPlatform, DrawCall, DrawList, Shader};
use render::texture::Texture2D;

fn leaf(shader_id: usize, instance_len: usize, textures: Vec<u32>) -> DrawCall {
    DrawCall {
        sub_list_id: 0,
        shader_id,
        instance_len,
        instance_dirty: true,
        uniforms_dirty: true,
        textures_2d: textures,
    }
}

fn nested(sub: usize) -> DrawCall {
    DrawCall {
        sub_list_id: sub,
        shader_id: 0,
        instance_len: 0,
        instance_dirty: false,
        uniforms_dirty: false,
        textures_2d: vec![],
    }
}

fn texture(id: usize, dirty: bool) -> Texture2D<u8> {
    let mut t = Texture2D::new(id);
    t.dirty = dirty;
    t
}

// list 0: [leaf(shader 0, 12 values), nested(1), leaf(shader 1, 9 values, textures 0 and 1)]
// list 1: [leaf(shader 1, 6 values, texture 0), (dead call past draw_calls_len)]
fn scene() -> Cx<u8> {
    let mut c: Cx<u8> = Cx::new(CxPlatform::new());
    c.shaders = vec![Shader { geometry_indices: vec![0, 1, 2, 2, 3, 0] }, Shader { geometry_indices: vec![0, 1, 2] }];
    c.compiled_shaders = vec![CompiledShader { instance_slots: 4 }, CompiledShader { instance_slots: 3 }];
    c.textures_2d = vec![texture(0, true), texture(1, false)];
    c.draw_lists = vec![
        DrawList { draw_calls: vec![leaf(0, 12, vec![]), nested(1), leaf(1, 9, vec![0, 1])], draw_calls_len: 3 },
        DrawList { draw_calls: vec![leaf(1, 6, vec![0]), leaf(7, 1, vec![9])], draw_calls_len: 1 },
    ];
    c
}

#[test]
fn traversal_order_counts_and_uploads() {
    let mut c = scene();
    assert!(c.draw_list_ok(0, 2));
    let steps = c.exec_draw_list(0);
    let order: Vec<(usize, usize)> = steps.iter().map(|s| (s.draw_list_id, s.draw_call_id)).collect();
    assert_eq!(order, vec![(0, 0), (1, 0), (0, 2)]);
    assert_eq!(steps[0].instance_count, 3);
    assert_eq!(steps[0].index_count, 6);
    assert!(steps[0].update_instances);
    assert_eq!(steps[1].instance_count, 2);
    assert_eq!(steps[1].index_count, 3);
    assert_eq!(steps[1].textures_2d, vec![0]);
    // texture 0 is dirty when list 1 binds it, and clean when list 0 binds it again
    assert_eq!(steps[1].upload_textures, vec![true]);
    assert_eq!(steps[2].textures_2d, vec![0, 1]);
    assert_eq!(steps[2].upload_textures, vec![false, false]);
    assert_eq!(steps[2].instance_count, 3);
    assert!(!c.textures_2d[0].dirty);
    assert!(!c.draw_lists[0].draw_calls[0].instance_dirty);
    assert!(!c.draw_lists[0].draw_calls[0].uniforms_dirty);
    assert!(!c.draw_lists[1].draw_calls[0].instance_dirty);
    // the dead call past draw_calls_len is not drawn and keeps its flags
    assert!(c.draw_lists[1].draw_calls[1].instance_dirty);
}

#[test]
fn redraw_uploads_nothing() {
    let mut c = scene();
    let first = c.exec_draw_list(0);
    assert!(first.iter().any(|s| s.update_instances));
    let second = c.exec_draw_list(0);
    assert_eq!(second.len(), first.len());
    assert!(second.iter().all(|s| !s.update_instances && s.upload_textures.iter().all(|u| !u)));
}

#[test]
fn nested_list_alone() {
    let mut c = scene();
    let steps = c.exec_draw_list(1);
    assert_eq!(steps.len(), 1);
    assert_eq!((steps[0].draw_list_id, steps[0].draw_call_id, steps[0].shader_id), (1, 0, 1));
    // list 0 was not touched
    assert!(c.draw_lists[0].draw_calls[0].instance_dirty);
}

#[test]
fn instance_count_rounds_down() {
    let mut c = scene();
    c.draw_lists[1].draw_calls[0].instance_len = 8;
    let steps = c.exec_draw_list(1);
    assert_eq!(steps[0].instance_count, 2);
}

#[test]
fn draw_list_ok_rejects_bad_lists() {
    let mut c = scene();
    // nesting depth 1 cannot reach list 1 from list 0
    assert!(!c.draw_list_ok(0, 1));
    assert!(c.draw_list_ok(1, 1));
    assert!(!c.draw_list_ok(0, 0));
    assert!(!c.draw_list_ok(5, 3));
    // a cycle can never be drawn
    c.draw_lists[1].draw_calls[0] = nested(1);
    assert!(!c.draw_list_ok(0, 10));
    let mut c = scene();
    c.compiled_shaders[1].instance_slots = 0;
    assert!(!c.draw_list_ok(1, 1));
    let mut c = scene();
    c.draw_lists[1].draw_calls[0].textures_2d = vec![2];
    assert!(!c.draw_list_ok(1, 1));
    let mut c = scene();
    c.draw_lists[1].draw_calls_len = 3;
    assert!(!c.draw_list_ok(1, 1));
    let mut c = scene();
    c.draw_lists[1].draw_calls[0].shader_id = 2;
    assert!(!c.draw_list_ok(1, 1));
}

#[test]
fn empty_list_draws_nothing() {
    let mut c = scene();
    c.draw_lists.push(DrawList { draw_calls: vec![], draw_calls_len: 0 });
    assert!(c.draw_list_ok(2, 1));
    assert!(c.exec_draw_list(2).is_empty());
}
