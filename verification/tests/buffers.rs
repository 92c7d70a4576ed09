use render::metal_buffer::{MetalBuffer, MultiMetalBuffer};
use render::texture::Texture2D;

#[test]
fn write_rotates_over_three_slots() {
    let mut m: MetalBuffer<u32> = MetalBuffer::new();
    m.multi_buffer_write().used = 11;
    assert_eq!(m.last_written, 1);
    m.multi_buffer_write().used = 22;
    assert_eq!(m.last_written, 2);
    m.multi_buffer_write().used = 33;
    assert_eq!(m.last_written, 0);
    assert_eq!(m.multi2.used, 11);
    assert_eq!(m.multi3.used, 22);
    assert_eq!(m.multi1.used, 33);
    assert_eq!(m.multi4.used, 0);
    m.multi_buffer_write();
    assert_eq!(m.last_written, 1);
}

#[test]
fn read_after_write_sees_written_slot() {
    let mut m: MetalBuffer<u32> = MetalBuffer::new();
    m.multi_buffer_write().size = 7;
    assert_eq!(m.multi_buffer_read().size, 7);
    m.multi_buffer_write().size = 9;
    assert_eq!(m.multi_buffer_read().size, 9);
}

#[test]
fn read_of_out_of_rotation_values() {
    let mut m: MetalBuffer<u32> = MetalBuffer::new();
    m.multi4.size = 4;
    m.multi5.size = 5;
    m.multi6.size = 6;
    m.last_written = 3;
    assert_eq!(m.multi_buffer_read().size, 4);
    m.last_written = 4;
    assert_eq!(m.multi_buffer_read().size, 5);
    m.last_written = 17;
    assert_eq!(m.multi_buffer_read().size, 6);
    // a write from an out-of-rotation value goes back into the rotation
    m.multi_buffer_write();
    assert_eq!(m.last_written, 0);
}

#[test]
fn update_allocates_then_reuses_and_regrows() {
    let mut m: MetalBuffer<u32> = MetalBuffer::new();
    // first write: slot 1 has no buffer
    assert!(m.begin_update(10));
    m.install_buffer(100, 10);
    assert_eq!(m.multi_buffer_read().buffer, Some(100));
    assert_eq!(m.multi_buffer_read().size, 10);
    assert_eq!(m.multi_buffer_read().used, 10);
    // rotate through the other two slots
    assert!(m.begin_update(4));
    m.install_buffer(200, 4);
    assert!(m.begin_update(4));
    m.install_buffer(300, 4);
    // back at slot 1: 8 elements fit in its 10
    assert!(!m.begin_update(8));
    assert_eq!(m.multi_buffer_read().buffer, Some(100));
    assert_eq!(m.multi_buffer_read().size, 10);
    assert_eq!(m.multi_buffer_read().used, 8);
    // slot 2 has room for 4 only: 5 elements drop it
    assert!(m.begin_update(5));
    assert_eq!(m.multi_buffer_read().buffer, None);
    assert_eq!(m.multi_buffer_read().used, 5);
    m.install_buffer(201, 5);
    assert_eq!(m.multi_buffer_read().buffer, Some(201));
    assert_eq!(m.multi_buffer_read().size, 5);
}

#[test]
fn update_with_exact_size_keeps_buffer() {
    let mut m: MetalBuffer<u32> = MetalBuffer::new();
    m.multi2 = MultiMetalBuffer { buffer: Some(5), size: 6, used: 0 };
    assert!(!m.begin_update(6));
    assert_eq!(m.multi2.buffer, Some(5));
    assert_eq!(m.multi2.used, 6);
}

#[test]
fn texture_resize_grows_with_zeros_and_marks_dirty() {
    let mut t: Texture2D<u8> = Texture2D::new(3);
    t.image = vec![1, 2, 3];
    t.resize(2, 3);
    assert_eq!(t.width, 2);
    assert_eq!(t.height, 3);
    assert!(t.dirty);
    assert_eq!(t.image, vec![1, 2, 3, 0, 0, 0]);
    assert_eq!(t.texture_id, 3);
}

#[test]
fn texture_resize_shrinks_keeping_prefix() {
    let mut t: Texture2D<u8> = Texture2D::new(0);
    t.image = vec![9, 8, 7, 6];
    t.mtltexture = Some(1);
    t.resize(1, 2);
    assert_eq!(t.image, vec![9, 8]);
    assert_eq!(t.mtltexture, Some(1));
    t.resize(0, 5);
    assert!(t.image.is_empty());
}

#[test]
fn texture_upload_region_and_mark() {
    let mut t: Texture2D<u8> = Texture2D::new(1);
    t.resize(16, 8);
    let r = t.upload_region();
    assert_eq!(r.width, 16);
    assert_eq!(r.height, 8);
    assert_eq!(r.bytes_per_row, 64);
    t.mark_uploaded(42);
    assert!(!t.dirty);
    assert_eq!(t.mtltexture, Some(42));
    assert_eq!(t.image.len(), 128);
}
