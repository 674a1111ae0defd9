use sprite_render::{
    grown_capacity, next_power_of_two, quad_indices, unit_bytes, write_quad, DrawBatch,
    GpuObjects, RenderState, SharedResources, SpriteQuad, TextureId, TextureUnits,
};

fn shared(max_units: u16) -> SharedResources {
    SharedResources::new(
        GpuObjects { shader_program: 1, indice_buffer: 2, vertex_buffer: 3 },
        max_units,
    )
}

fn quad(texture: u32) -> SpriteQuad {
    let mut corners = [[0u8; 16]; 4];
    for (c, corner) in corners.iter_mut().enumerate() {
        for (k, b) in corner.iter_mut().enumerate() {
            *b = (c * 16 + k) as u8;
        }
    }
    SpriteQuad { corners, color: [10, 20, 30, 40], texture: TextureId(texture) }
}

fn draw(res: &mut SharedResources, textures: &[u32]) -> DrawBatch {
    let quads: Vec<SpriteQuad> = textures.iter().map(|t| quad(*t)).collect();
    res.prepare_draw(&quads, true).unwrap().unwrap()
}

#[test]
fn next_power_of_two_values() {
    assert_eq!(next_power_of_two(0), 1);
    assert_eq!(next_power_of_two(1), 1);
    assert_eq!(next_power_of_two(2), 2);
    assert_eq!(next_power_of_two(3), 4);
    assert_eq!(next_power_of_two(5), 8);
    assert_eq!(next_power_of_two(1024), 1024);
    assert_eq!(next_power_of_two(1025), 2048);
    assert_eq!(next_power_of_two(0x8000_0000), 0x8000_0000);
}

#[test]
fn grown_capacity_values() {
    assert_eq!(grown_capacity(0, 1), Some(1));
    assert_eq!(grown_capacity(4, 3), None);
    assert_eq!(grown_capacity(4, 4), None);
    assert_eq!(grown_capacity(4, 5), Some(8));
    assert_eq!(grown_capacity(0, 100), Some(128));
}

#[test]
fn quad_indices_follow_the_quad_pattern() {
    assert_eq!(quad_indices(0), Vec::<u16>::new());
    assert_eq!(quad_indices(2), vec![0, 1, 2, 1, 2, 3, 4, 5, 6, 5, 6, 7]);
    let big = quad_indices(16385);
    assert_eq!(big.len(), 16385 * 6);
    assert_eq!(&big[16383 * 6..16383 * 6 + 6], &[65532, 65533, 65534, 65533, 65534, 65535]);
    assert_eq!(&big[16384 * 6..], &[0, 1, 2, 1, 2, 3]);
}

#[test]
fn unit_bytes_in_both_orders() {
    assert_eq!(unit_bytes(0x0102, true), [2, 1]);
    assert_eq!(unit_bytes(0x0102, false), [1, 2]);
    assert_eq!(unit_bytes(5, true), [5, 0]);
}

#[test]
fn write_quad_lays_out_four_vertices() {
    let mut out = vec![99u8];
    let q = quad(1);
    write_quad(&mut out, &q, 3, true);
    assert_eq!(out.len(), 1 + 96);
    assert_eq!(out[0], 99);
    for c in 0..4 {
        let v = &out[1 + c * 24..1 + (c + 1) * 24];
        assert_eq!(&v[..16], &q.corners[c]);
        assert_eq!(&v[16..20], &[10, 20, 30, 40]);
        assert_eq!(&v[20..22], &[3, 0]);
        assert_eq!(&v[22..24], &[0, 0]);
    }
    let mut be = Vec::new();
    write_quad(&mut be, &q, 3, false);
    assert_eq!(&be[20..22], &[0, 3]);
}

#[test]
fn units_are_reused_within_a_batch() {
    let mut units = TextureUnits::new();
    let textures = [TextureId(5), TextureId(9), TextureId(5), TextureId(7), TextureId(9)];
    let assigned = units.assign(&textures, 16).unwrap();
    assert_eq!(assigned, vec![0, 1, 0, 2, 1]);
    assert_eq!(units.to_vec(), vec![TextureId(5), TextureId(9), TextureId(7)]);
    assert_eq!(units.len(), 3);
    assert_eq!(units.unit_of(TextureId(7)), Some(2));
    assert_eq!(units.unit_of(TextureId(8)), None);
    assert_eq!(units.texture_of(1), Some(TextureId(9)));
    assert_eq!(units.texture_of(3), None);
}

#[test]
fn texture_unit_reuse_binds_each_texture_once() {
    let mut res = shared(4);
    let textures: Vec<u32> = (0..100).map(|i| [11, 12, 13][i % 3]).collect();
    let batch = draw(&mut res, &textures);
    assert_eq!(batch.binds, vec![TextureId(11), TextureId(12), TextureId(13)]);
    assert_eq!(batch.index_count, 600);
    assert_eq!(batch.vertices.len(), 9600);
    assert_eq!(&batch.vertices[96 * 4 + 20..96 * 4 + 22], &[1, 0]);
    assert_eq!(res.bound_texture(2), Some(TextureId(13)));
}

#[test]
fn capacity_overflow_fails() {
    let mut res = shared(4);
    let quads: Vec<SpriteQuad> = (1..=5).map(quad).collect();
    let err = res.prepare_draw(&quads, true).err().unwrap();
    assert_eq!(err.max_units, 4);
    assert_eq!(res.buffer_size(), 0);
    let quads: Vec<SpriteQuad> = (1..=4).map(quad).collect();
    assert!(res.prepare_draw(&quads, true).unwrap().is_some());
    let mut units = TextureUnits::new();
    assert!(units.assign(&[TextureId(1), TextureId(2)], 1).is_err());
    assert_eq!(units.len(), 0);
}

#[test]
fn buffer_growth_idempotence() {
    let mut res = shared(16);
    let first = draw(&mut res, &[1, 1, 1, 1, 1]);
    let realloc = first.reallocation.unwrap();
    assert_eq!(realloc.capacity, 8);
    assert_eq!(realloc.indices.len(), 48);
    assert_eq!(res.buffer_size(), 8);
    let second = draw(&mut res, &[1, 1, 1, 1, 1]);
    assert!(second.reallocation.is_none());
    assert_eq!(res.buffer_size(), 8);
    let smaller = draw(&mut res, &[1, 2]);
    assert!(smaller.reallocation.is_none());
    let larger = draw(&mut res, &[1; 9]);
    assert_eq!(larger.reallocation.unwrap().capacity, 16);
}

#[test]
fn empty_batch_is_a_no_op() {
    let mut res = shared(16);
    assert!(res.prepare_draw(&[], true).unwrap().is_none());
    assert_eq!(res.buffer_size(), 0);
}

#[test]
fn end_to_end_single_sprite() {
    let mut state: RenderState<u32, u32> = RenderState::new();
    state.install(1, 10, None, shared(16), 3);
    state.record_texture(TextureId(42), 1, 1);
    let q = quad(42);
    let batch = state.prepare_draw(&[q], true).unwrap().unwrap();
    assert_eq!(batch.binds, vec![TextureId(42)]);
    assert_eq!(batch.index_count, 6);
    let realloc = batch.reallocation.unwrap();
    assert_eq!(realloc.capacity, 1);
    assert_eq!(realloc.indices, vec![0, 1, 2, 1, 2, 3]);
    assert_eq!(batch.vertices.len(), 96);
    assert_eq!(state.shared().unwrap().buffer_size(), 1);
    assert_eq!(state.shared().unwrap().objects().vertex_buffer, 3);
    assert_eq!(state.shared().unwrap().max_texture_units(), 16);
}
