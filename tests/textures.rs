use sprite_render::{
    check_new_texture, rgba_len, GpuObjects, NoopSpriteRender, RenderState, SharedResources,
    Texture, TextureError, TextureFilter, TextureFormat, TextureId,
};

fn shared() -> SharedResources {
    SharedResources::new(
        GpuObjects { shader_program: 1, indice_buffer: 2, vertex_buffer: 3 },
        16,
    )
}

#[test]
fn texture_id_new_wraps_the_name() {
    assert_eq!(TextureId::new(7), TextureId(7));
    assert_eq!(TextureId::default(), TextureId(0));
}

#[test]
fn texture_builder_sets_each_field() {
    let data = [1u8; 8];
    let t = Texture::new(2, 1);
    assert_eq!(t.id, TextureId(u32::MAX));
    assert_eq!(t.format, TextureFormat::Rgba8888);
    assert_eq!(t.filter, TextureFilter::Linear);
    assert!(t.data.is_none());
    let t = t
        .id(TextureId(9))
        .format(TextureFormat::Rgba8888)
        .filter(TextureFilter::Nearest)
        .data(&data);
    assert_eq!(t.id, TextureId(9));
    assert_eq!(t.width, 2);
    assert_eq!(t.height, 1);
    assert_eq!(t.filter, TextureFilter::Nearest);
    assert_eq!(t.data, Some(&data[..]));
    assert!(t.data_fits());
    assert_eq!(TextureFormat::Rgba8888.bytes_per_pixel(), 4);
}

#[test]
fn rgba_len_is_width_times_height_times_four() {
    assert!(rgba_len(64, 4, 4));
    assert!(!rgba_len(63, 4, 4));
    assert!(!rgba_len(65, 4, 4));
    assert!(rgba_len(0, 0, 9));
    assert!(rgba_len(16, 2, 2));
    assert!(!rgba_len(16, u32::MAX, u32::MAX));
}

#[test]
fn new_texture_checks_data_length() {
    let res = Some(shared());
    let short = [0u8; 61];
    let exact = [0u8; 64];
    assert_eq!(
        check_new_texture(&res, &Texture::new(4, 4).data(&short)),
        Err(TextureError::InvalidLength)
    );
    assert_eq!(check_new_texture(&res, &Texture::new(4, 4).data(&exact)), Ok(()));
    assert_eq!(check_new_texture(&res, &Texture::new(4, 4)), Ok(()));
}

#[test]
fn new_texture_without_context_fails() {
    let exact = [0u8; 64];
    assert_eq!(
        check_new_texture(&None, &Texture::new(4, 4).data(&exact)),
        Err(TextureError::RendererContextDontExist)
    );
    let state: RenderState<u32, u32> = RenderState::new();
    assert_eq!(
        state.check_new_texture(&Texture::new(4, 4)),
        Err(TextureError::RendererContextDontExist)
    );
}

#[test]
fn data_length_validation_scenario() {
    let mut res = shared();
    let some_res = Some(shared());
    let short = [0u8; 61];
    assert_eq!(
        check_new_texture(&some_res, &Texture::new(4, 4).data(&short)),
        Err(TextureError::InvalidLength)
    );
    let exact = [0u8; 64];
    assert_eq!(check_new_texture(&some_res, &Texture::new(4, 4).data(&exact)), Ok(()));
    res.record_texture(TextureId(5), 4, 4);
    assert_eq!(
        res.texture_update_rect(TextureId(5), Some(16), Some([0, 0, 2, 2])),
        Ok([0, 0, 2, 2])
    );
    assert_eq!(
        res.texture_update_rect(TextureId(5), Some(15), Some([0, 0, 2, 2])),
        Err(TextureError::InvalidLength)
    );
}

#[test]
fn update_without_rect_covers_whole_texture() {
    let mut res = shared();
    res.record_texture(TextureId(3), 4, 2);
    assert_eq!(res.texture_size(TextureId(3)), Some((4, 2)));
    assert_eq!(res.texture_size(TextureId(4)), None);
    assert_eq!(res.texture_update_rect(TextureId(3), Some(32), None), Ok([0, 0, 4, 2]));
    assert_eq!(
        res.texture_update_rect(TextureId(3), Some(16), None),
        Err(TextureError::InvalidLength)
    );
    assert_eq!(res.texture_update_rect(TextureId(3), None, None), Ok([0, 0, 4, 2]));
}

#[test]
fn resize_texture_records_new_size() {
    let mut res = shared();
    res.record_texture(TextureId(3), 4, 2);
    assert_eq!(res.resize_texture(TextureId(3), 8, 8, Some(255)), Err(TextureError::InvalidLength));
    assert_eq!(res.texture_size(TextureId(3)), Some((4, 2)));
    assert_eq!(res.resize_texture(TextureId(3), 8, 8, Some(256)), Ok(()));
    assert_eq!(res.texture_size(TextureId(3)), Some((8, 8)));
    assert_eq!(res.resize_texture(TextureId(3), 1, 2, None), Ok(()));
    assert_eq!(res.texture_size(TextureId(3)), Some((1, 2)));
}

#[test]
fn render_state_texture_operations() {
    let mut state: RenderState<u32, u32> = RenderState::new();
    assert_eq!(
        state.resize_texture(TextureId(1), 1, 1, None),
        Err(TextureError::RendererContextDontExist)
    );
    assert_eq!(
        state.texture_update_rect(TextureId(1), None, Some([0, 0, 1, 1])),
        Err(TextureError::RendererContextDontExist)
    );
    state.install(10, 100, Some(7), shared(), 3);
    assert!(state.has_resources());
    assert_eq!(state.major_version(), 3);
    state.record_texture(TextureId(2), 2, 2);
    assert_eq!(state.texture_size(TextureId(2)), Some((2, 2)));
    assert_eq!(state.texture_update_rect(TextureId(2), Some(16), None), Ok([0, 0, 2, 2]));
    assert_eq!(state.resize_texture(TextureId(2), 3, 3, Some(36)), Ok(()));
    assert_eq!(state.texture_size(TextureId(2)), Some((3, 3)));
    state.suspend();
    assert!(!state.has_resources());
    assert_eq!(state.major_version(), 0);
    assert_eq!(state.texture_size(TextureId(2)), None);
    assert_eq!(state.windows().len(), 0);
}

#[test]
fn noop_renderer_never_fails() {
    let mut noop = NoopSpriteRender;
    assert_eq!(noop.new_texture(Texture::new(1, 1)), Ok(TextureId(0)));
    assert_eq!(noop.update_texture(TextureId(0), None, None), Ok(()));
}
