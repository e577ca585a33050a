use steam_mobile::dxvk::{
    DXVKBlendState, DXVKDepthStencilState, DXVKError, DXVKInputElement, DXVKRasterizerState, DXVKScissorRect,
    DXVKTranslator, DXVKViewport,
};
use steam_mobile::graphics::{DirectXBlendMode, DirectXComparison, DirectXFormat, DirectXTopology, DirectXUsage, GraphicsError};

#[test]
fn test_dxvk_translator_creation() {
    let translator = DXVKTranslator::new();
    assert!(translator.is_ok());
}

#[test]
fn test_texture_creation() {
    let mut translator = DXVKTranslator::new().unwrap();
    translator.initialize().unwrap();
    let texture_id = translator.create_texture(256, 256, DirectXFormat::R8G8B8A8_UNorm, DirectXUsage::Default).unwrap();
    assert!(texture_id > 0);

    let info = translator.get_texture_info(texture_id).unwrap();
    assert_eq!(info.width, 256);
    assert_eq!(info.height, 256);
    assert_eq!(info.format, DirectXFormat::R8G8B8A8_UNorm);
}

#[test]
fn test_buffer_creation() {
    let mut translator = DXVKTranslator::new().unwrap();
    translator.initialize().unwrap();
    let buffer_id = translator.create_buffer(1024, DirectXUsage::Default).unwrap();
    assert!(buffer_id > 0);

    let info = translator.get_buffer_info(buffer_id).unwrap();
    assert_eq!(info.size, 1024);
    assert_eq!(info.usage, DirectXUsage::Default);
}

#[test]
fn test_pipeline_creation() {
    let mut translator = DXVKTranslator::new().unwrap();
    translator.initialize().unwrap();

    // Set up input layout
    let input_layout = vec![
        DXVKInputElement {
            semantic: "POSITION".to_string(),
            semantic_index: 0,
            format: DirectXFormat::R32G32B32_Float,
            input_slot: 0,
            byte_offset: 0,
            input_slot_class: 0, // INPUT_PER_VERTEX_DATA
            instance_data_step_rate: 0,
        },
        DXVKInputElement {
            semantic: "COLOR".to_string(),
            semantic_index: 0,
            format: DirectXFormat::R8G8B8A8_UNorm,
            input_slot: 0,
            byte_offset: 16, // After position (3 floats = 12 bytes)
            input_slot_class: 0, // INPUT_PER_VERTEX_DATA
            instance_data_step_rate: 0,
        },
    ];
    translator.update_input_layout(&input_layout).unwrap();

    // Set render targets
    translator.set_render_targets(&[DirectXFormat::R8G8B8A8_UNorm], Some(DirectXFormat::D32_Float)).unwrap();

    // Create pipeline
    let pipeline_id = translator.create_graphics_pipeline().unwrap();
    assert!(pipeline_id > 0);

    let info = translator.get_pipeline_info(pipeline_id).unwrap();
    assert_eq!(info.input_layout.len(), 2);
}

#[test]
fn resources_need_an_initialized_device() {
    let mut t = DXVKTranslator::new().unwrap();
    assert_eq!(
        t.create_texture(4, 4, DirectXFormat::R8G8B8A8_UNorm, DirectXUsage::Default),
        Err(DXVKError::Graphics(GraphicsError::VulkanNotInitialized))
    );
    assert_eq!(
        t.create_buffer(16, DirectXUsage::Dynamic),
        Err(DXVKError::Graphics(GraphicsError::VulkanNotInitialized))
    );
    assert_eq!(
        t.create_graphics_pipeline(),
        Err(DXVKError::Graphics(GraphicsError::VulkanNotInitialized))
    );
    assert_eq!(t.get_stats().texture_count, 0);
    assert!(!t.get_stats().graphics_stats.device_initialized);
    // Samplers need no device.
    assert_eq!(t.create_sampler(1, 2, 3, 4, 16.0f32.to_bits()), Ok(1));
    let s = t.get_sampler_info(1).unwrap();
    assert_eq!(s.vulkan_id, 0x3000_0001);
    assert_eq!(f32::from_bits(s.max_anisotropy_bits), 16.0);
}

#[test]
fn texture_ids_and_vulkan_objects() {
    let mut t = DXVKTranslator::new().unwrap();
    t.initialize().unwrap();
    let a = t.create_texture(256, 128, DirectXFormat::B8G8R8A8_SRGB, DirectXUsage::RenderTarget).unwrap();
    let b = t.create_texture(1, 1, DirectXFormat::Unknown, DirectXUsage::Default).unwrap();
    assert_eq!((a, b), (1, 2));
    let info = t.get_texture_info(a).unwrap();
    assert_eq!(info.vulkan_id, 1);
    assert_eq!(info.mip_levels, 1);
    assert_eq!(info.usage, DirectXUsage::RenderTarget);
    let stats = t.get_stats();
    assert_eq!(stats.texture_count, 2);
    assert_eq!(stats.graphics_stats.texture_count, 2);
    assert!(stats.graphics_stats.vulkan_initialized);
    // Destroying a texture removes it and its Vulkan texture.
    t.destroy_texture(a).unwrap();
    assert!(t.get_texture_info(a).is_none());
    assert_eq!(t.get_stats().graphics_stats.texture_count, 1);
    // The next id is one past the number of textures: it takes id 2 again.
    let c = t.create_texture(8, 8, DirectXFormat::R32_Float, DirectXUsage::Staging).unwrap();
    assert_eq!(c, 2);
    assert_eq!(t.get_texture_info(2).unwrap().width, 8);
    assert_eq!(t.get_stats().texture_count, 1);
}

#[test]
fn buffers_and_destroy() {
    let mut t = DXVKTranslator::new().unwrap();
    t.initialize().unwrap();
    let id = t.create_buffer(4096, DirectXUsage::Immutable).unwrap();
    assert_eq!(t.get_buffer_info(id).unwrap().vulkan_id, 1);
    t.destroy_buffer(id).unwrap();
    t.destroy_buffer(id).unwrap();
    assert!(t.get_buffer_info(id).is_none());
    assert_eq!(t.get_stats().graphics_stats.buffer_count, 0);
}

#[test]
fn state_updates() {
    let mut t = DXVKTranslator::new().unwrap();
    let s = t.get_current_state();
    assert_eq!(s.primitive_topology, DirectXTopology::TriangleList);
    assert_eq!(s.blend_state, DXVKBlendState::default());
    assert_eq!(s.blend_state.src_blend, DirectXBlendMode::One);
    assert_eq!(s.rasterizer_state, DXVKRasterizerState::default());
    assert!(s.rasterizer_state.depth_clip_enable);
    assert_eq!(s.depth_stencil_state.depth_func, DirectXComparison::Less);
    assert_eq!(s.depth_stencil_state.front_face.stencil_func, DirectXComparison::Always);
    t.set_primitive_topology(DirectXTopology::LineStrip).unwrap();
    let mut blend = DXVKBlendState::default();
    blend.blend_enable = true;
    t.update_blend_state(&blend).unwrap();
    let mut ds = DXVKDepthStencilState::default();
    ds.stencil_enable = true;
    t.update_depth_stencil_state(&ds).unwrap();
    let mut rs = DXVKRasterizerState::default();
    rs.cull_mode = 2;
    t.update_rasterizer_state(&rs).unwrap();
    t.set_render_targets(&[DirectXFormat::R8G8B8A8_UNorm, DirectXFormat::R32_Float], None).unwrap();
    let vp = DXVKViewport {
        x_bits: 0,
        y_bits: 0,
        width_bits: 640.0f32.to_bits(),
        height_bits: 480.0f32.to_bits(),
        min_depth_bits: 0,
        max_depth_bits: 1.0f32.to_bits(),
    };
    t.set_viewport(&vp).unwrap();
    t.set_scissor_rects(&[DXVKScissorRect { left: 0, top: 0, right: 640, bottom: 480 }]).unwrap();
    let s = t.get_current_state();
    assert_eq!(s.primitive_topology, DirectXTopology::LineStrip);
    assert!(s.blend_state.blend_enable);
    assert!(s.depth_stencil_state.stencil_enable);
    assert_eq!(s.rasterizer_state.cull_mode, 2);
    assert_eq!(s.render_target_count, 2);
    assert_eq!(s.depth_stencil_format, None);
    assert_eq!(s.viewport, Some(vp));
    assert_eq!(s.scissor_rects.len(), 1);
}

#[test]
fn pipelines_record_the_state() {
    let mut t = DXVKTranslator::new().unwrap();
    t.initialize().unwrap();
    t.set_primitive_topology(DirectXTopology::PointList).unwrap();
    let p = t.create_graphics_pipeline().unwrap();
    assert_eq!(p, 1);
    assert_eq!(t.get_pipeline_info(p).unwrap().primitive_topology, DirectXTopology::PointList);
    assert_eq!(t.get_stats().graphics_stats.pipeline_count, 1);
    t.bind_graphics_pipeline(p).unwrap();
    t.draw(3, 0).unwrap();
    t.draw_indexed(3, 0, 0).unwrap();
    t.present(0).unwrap();
    t.destroy_pipeline(p).unwrap();
    assert!(t.get_pipeline_info(p).is_none());
    assert_eq!(t.get_stats().pipeline_count, 0);
    assert_eq!(t.get_stats().graphics_stats.pipeline_count, 0);
}
