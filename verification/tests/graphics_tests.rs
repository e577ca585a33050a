use steam_mobile::graphics::{DirectXFormat, DirectXUsage, GraphicsError, GraphicsTranslator, ShaderStage};

#[test]
fn test_graphics_translator_creation() {
    let translator = GraphicsTranslator::new();
    assert!(translator.is_ok());
}

#[test]
fn test_format_mapping() {
    let translator = GraphicsTranslator::new().unwrap();
    let vulkan_format = translator.map_directx_to_vulkan_format(DirectXFormat::R8G8B8A8_UNorm);
    assert_eq!(vulkan_format, 37); // VK_FORMAT_R8G8B8A8_UNORM
}

#[test]
fn format_table() {
    let t = GraphicsTranslator::new().unwrap();
    assert_eq!(t.map_directx_to_vulkan_format(DirectXFormat::D32_Float), 126);
    assert_eq!(t.map_directx_to_vulkan_format(DirectXFormat::D24_Unorm_S8_UInt), 129);
    assert_eq!(t.map_directx_to_vulkan_format(DirectXFormat::R11G11B10_Float), 113);
    assert_eq!(t.map_directx_to_vulkan_format(DirectXFormat::Unknown), 0);
}

#[test]
fn mock_vulkan_objects() {
    let mut t = GraphicsTranslator::new().unwrap();
    assert_eq!(
        t.create_texture(2, 3, DirectXFormat::R32_Float, DirectXUsage::Dynamic),
        Err(GraphicsError::VulkanNotInitialized)
    );
    t.initialize_vulkan().unwrap();
    let id = t.create_texture(2, 3, DirectXFormat::R32_Float, DirectXUsage::Dynamic).unwrap();
    let tex = t.get_texture_info(id).unwrap();
    assert_eq!(tex.image, 0x1000_0001 + 2 * 10000 + 3);
    assert_eq!(tex.image_view, 0x2000_0001 + tex.image);
    assert_eq!(tex.sampler, 0x3000_0001);
    assert_eq!(tex.format, 100);
    assert_eq!(tex.usage, 2);
    let b = t.create_buffer(10, DirectXUsage::Staging).unwrap();
    let buf = t.get_buffer_info(b).unwrap();
    assert_eq!(buf.buffer, 0x9000_0001 + 10);
    assert_eq!(buf.memory, 0x4000_0001 + 10);
    assert_eq!(buf.usage, 3);
    let s = t.create_shader(ShaderStage::Fragment, "void main() {}").unwrap();
    assert_eq!(t.get_shader_info(s).unwrap().module, 0x5000_0001);
    t.destroy_shader(s).unwrap();
    assert!(t.get_shader_info(s).is_none());
    let stats = t.get_stats();
    assert_eq!((stats.texture_count, stats.buffer_count, stats.shader_count), (1, 1, 0));
    assert!(stats.device_initialized);
}

#[test]
fn texture_and_buffer_lifecycle() {
    let mut t = GraphicsTranslator::new().unwrap();
    t.initialize_vulkan().unwrap();
    let a = t.create_texture(4, 4, DirectXFormat::R8G8B8A8_UNorm, DirectXUsage::Default).unwrap();
    let b = t.create_texture(8, 8, DirectXFormat::R8G8B8A8_UNorm, DirectXUsage::Default).unwrap();
    assert_eq!((a, b), (1, 2));
    assert_eq!(t.get_texture_info(b).unwrap().width, 8);
    t.destroy_texture(b).unwrap();
    assert!(t.get_texture_info(b).is_none());
    assert_eq!(t.get_texture_info(a).unwrap().width, 4);
    let buf = t.create_buffer(64, DirectXUsage::Default).unwrap();
    assert_eq!(t.get_buffer_info(buf).unwrap().size, 64);
    t.destroy_buffer(buf).unwrap();
    assert!(t.get_buffer_info(buf).is_none());
}
