//! Graphics translation: DirectX resources and pipelines kept as mock
//! Vulkan objects, each known by a small integer id.
//!
//! Floating-point state (depth bias, viewport) is held as IEEE-754 bit
//! patterns in `u32` fields; nothing here computes with it.
use std::collections::HashMap;
use vstd::prelude::*;

verus! {

broadcast use vstd::std_specs::hash::group_hash_axioms;

/// Vulkan instance wrapper
#[derive(Debug)]
pub struct VulkanInstance {
    pub handle: u64,
    pub physical_devices: Vec<VulkanPhysicalDevice>,
}

/// Vulkan physical device
#[derive(Debug)]
pub struct VulkanPhysicalDevice {
    pub handle: u64,
    pub properties: PhysicalDeviceProperties,
    pub memory_properties: PhysicalDeviceMemoryProperties,
    pub queue_families: Vec<QueueFamilyProperties>,
}

/// Physical device properties
#[derive(Debug)]
pub struct PhysicalDeviceProperties {
    pub vendor_id: u32,
    pub device_id: u32,
    pub device_type: u32,
    pub device_name: String,
    pub driver_version: u32,
    pub api_version: u32,
}

/// Physical device memory properties
#[derive(Debug)]
pub struct PhysicalDeviceMemoryProperties {
    pub memory_types: Vec<MemoryType>,
    pub heap_count: u32,
    pub heaps: Vec<MemoryHeap>,
}

/// Memory type properties
#[derive(Debug, Clone, Copy, PartialEq, Eq, Structural)]
pub struct MemoryType {
    pub heap_index: u32,
    pub property_flags: u32,
}

/// Memory heap properties
#[derive(Debug, Clone, Copy, PartialEq, Eq, Structural)]
pub struct MemoryHeap {
    pub size: u64,
    pub flags: u32,
}

/// Queue family properties
#[derive(Debug, Clone, Copy, PartialEq, Eq, Structural)]
pub struct QueueFamilyProperties {
    pub queue_flags: u32,
    pub queue_count: u32,
    pub timestamp_valid_bits: u32,
    pub min_image_transfer_granularity: u32,
}

/// Vulkan device wrapper
#[derive(Debug)]
pub struct VulkanDevice {
    pub handle: u64,
    pub physical_device: VulkanPhysicalDevice,
    pub graphics_queue: Option<VulkanQueue>,
    pub present_queue: Option<VulkanQueue>,
    pub transfer_queue: Option<VulkanQueue>,
}

/// Vulkan queue
#[derive(Debug, Clone, Copy, PartialEq, Eq, Structural)]
pub struct VulkanQueue {
    pub handle: u64,
    pub family_index: u32,
    pub queue_index: u32,
}

/// Vulkan texture
#[derive(Debug, Clone, Copy, PartialEq, Eq, Structural)]
pub struct VulkanTexture {
    pub image: u64,
    pub image_view: u64,
    pub sampler: u64,
    pub width: u32,
    pub height: u32,
    pub format: u32,
    pub usage: u32,
}

/// Vulkan buffer
#[derive(Debug, Clone, Copy, PartialEq, Eq, Structural)]
pub struct VulkanBuffer {
    pub buffer: u64,
    pub memory: u64,
    pub size: u64,
    pub usage: u32,
}

/// Vulkan shader
#[derive(Debug, Clone, Copy, PartialEq, Eq, Structural)]
pub struct VulkanShader {
    pub module: u64,
    pub stage: ShaderStage,
}

/// Shader stage
#[derive(Debug, Clone, Copy, PartialEq, Eq, Structural)]
pub enum ShaderStage {
    Vertex,
    Fragment,
    Geometry,
    Compute,
}

/// Vulkan pipeline
#[derive(Debug)]
pub struct VulkanPipeline {
    pub handle: u64,
    pub layout: u64,
    pub render_pass: u64,
    pub shaders: Vec<VulkanShader>,
}

/// Vulkan render pass
#[derive(Debug)]
pub struct VulkanRenderPass {
    pub handle: u64,
    pub color_attachments: Vec<AttachmentDescription>,
    pub depth_attachment: Option<AttachmentDescription>,
}

/// Vulkan framebuffer
#[derive(Debug)]
pub struct VulkanFramebuffer {
    pub handle: u64,
    pub render_pass: u64,
    pub width: u32,
    pub height: u32,
    pub color_attachments: Vec<u64>,
    pub depth_attachment: Option<u64>,
}

/// Attachment description
#[derive(Debug, Clone, Copy, PartialEq, Eq, Structural)]
pub struct AttachmentDescription {
    pub format: u32,
    pub samples: u32,
    pub load_op: u32,
    pub store_op: u32,
    pub initial_layout: u32,
    pub final_layout: u32,
}

/// DirectX format to Vulkan format mapping
#[allow(non_camel_case_types)]
#[derive(Debug, Clone, Copy, PartialEq, Eq, Structural)]
pub enum DirectXFormat {
    Unknown,
    R8G8B8A8_UNorm,
    R8G8B8A8_SRGB,
    B8G8R8A8_UNorm,
    B8G8R8A8_SRGB,
    D32_Float,
    D24_Unorm_S8_UInt,
    R32_Float,
    R32G32B32_Float,
    R16G16B16A16_Float,
    R11G11B10_Float,
}

/// DirectX usage flags
#[derive(Debug, Clone, Copy, PartialEq, Eq, Structural)]
pub enum DirectXUsage {
    Default,
    Immutable,
    Dynamic,
    Staging,
    DepthStencil,
    RenderTarget,
}

/// DirectX primitive topology
#[derive(Debug, Clone, Copy, PartialEq, Eq, Structural)]
pub enum DirectXTopology {
    PointList,
    LineList,
    LineStrip,
    TriangleList,
    TriangleStrip,
}

/// DirectX blend mode
#[derive(Debug, Clone, Copy, PartialEq, Eq, Structural)]
pub enum DirectXBlendMode {
    Zero,
    One,
    SrcColor,
    OneMinusSrcColor,
    SrcAlpha,
    OneMinusSrcAlpha,
}

/// DirectX comparison function
#[derive(Debug, Clone, Copy, PartialEq, Eq, Structural)]
pub enum DirectXComparison {
    Never,
    Less,
    Equal,
    LessEqual,
    Greater,
    NotEqual,
    GreaterEqual,
    Always,
}

/// DirectX stencil operation
#[derive(Debug, Clone, Copy, PartialEq, Eq, Structural)]
pub enum DirectXStencilOp {
    Keep,
    Zero,
    Replace,
    IncrementClamp,
    DecrementClamp,
    Invert,
    IncrementWrap,
    DecrementWrap,
}

/// Graphics pipeline state
#[derive(Debug)]
pub struct GraphicsPipelineState {
    pub vertex_shader: Option<u32>,
    pub pixel_shader: Option<u32>,
    pub input_layout: Vec<VertexInputElement>,
    pub blend_state: BlendState,
    pub rasterizer_state: RasterizerState,
    pub depth_stencil_state: DepthStencilState,
    pub render_target_formats: Vec<DirectXFormat>,
    pub depth_stencil_format: Option<DirectXFormat>,
}

/// Vertex input element
#[derive(Debug)]
pub struct VertexInputElement {
    pub semantic_name: String,
    pub semantic_index: u32,
    pub format: DirectXFormat,
    pub input_slot: u32,
    pub aligned_byte_offset: u32,
    pub input_slot_class: u32,
    pub instance_data_step_rate: u32,
}

/// Blend state
#[derive(Debug, Clone, Copy, PartialEq, Eq, Structural)]
pub struct BlendState {
    pub render_target_write_mask: u8,
    pub blend_enable: bool,
    pub src_blend: DirectXBlendMode,
    pub dest_blend: DirectXBlendMode,
    pub blend_op: u8,
    pub src_blend_alpha: DirectXBlendMode,
    pub dest_blend_alpha: DirectXBlendMode,
    pub blend_op_alpha: u8,
    pub render_target_write_mask_alpha: u8,
}

/// Rasterizer state; the depth-bias values are `f32` bit patterns.
#[derive(Debug, Clone, Copy, PartialEq, Eq, Structural)]
pub struct RasterizerState {
    pub fill_mode: u32,
    pub cull_mode: u32,
    pub front_counter_clockwise: bool,
    pub depth_bias_bits: u32,
    pub depth_bias_clamp_bits: u32,
    pub slope_scaled_depth_bias_bits: u32,
    pub depth_clip_enable: bool,
    pub scissor_enable: bool,
    pub multisample_enable: bool,
    pub antialiased_line_enable: bool,
}

/// Depth stencil state
#[derive(Debug, Clone, Copy, PartialEq, Eq, Structural)]
pub struct DepthStencilState {
    pub depth_enable: bool,
    pub depth_write_mask: u8,
    pub depth_func: DirectXComparison,
    pub stencil_enable: bool,
    pub stencil_read_mask: u8,
    pub stencil_write_mask: u8,
    pub front_face: StencilOpDesc,
    pub back_face: StencilOpDesc,
}

/// Stencil operation description; the operations are D3D stencil-op codes.
#[derive(Debug, Clone, Copy, PartialEq, Eq, Structural)]
pub struct StencilOpDesc {
    pub stencil_fail_op: u32,
    pub stencil_depth_fail_op: u32,
    pub stencil_pass_op: u32,
    pub stencil_func: DirectXComparison,
}

/// Graphics statistics
#[derive(Debug, Clone, Copy, PartialEq, Eq, Structural)]
pub struct GraphicsStats {
    pub texture_count: usize,
    pub buffer_count: usize,
    pub shader_count: usize,
    pub pipeline_count: usize,
    pub vulkan_initialized: bool,
    pub device_initialized: bool,
}

/// Why a graphics request failed.
#[derive(Debug, Clone, Copy, PartialEq, Eq, Structural)]
pub enum GraphicsError {
    /// The request needs the Vulkan device, which is not created yet.
    VulkanNotInitialized,
}

/// The Vulkan format a DirectX format maps to.
pub open spec fn vulkan_format(f: DirectXFormat) -> u32 {
    match f {
        DirectXFormat::R8G8B8A8_UNorm => 37,
        DirectXFormat::R8G8B8A8_SRGB => 43,
        DirectXFormat::B8G8R8A8_UNorm => 44,
        DirectXFormat::B8G8R8A8_SRGB => 50,
        DirectXFormat::D32_Float => 126,
        DirectXFormat::D24_Unorm_S8_UInt => 129,
        DirectXFormat::R32_Float => 100,
        DirectXFormat::R32G32B32_Float => 106,
        DirectXFormat::R16G16B16A16_Float => 111,
        DirectXFormat::R11G11B10_Float => 113,
        DirectXFormat::Unknown => 0,
    }
}

/// The number of a usage: its position in the declaration.
pub open spec fn usage_code(u: DirectXUsage) -> u32 {
    match u {
        DirectXUsage::Default => 0,
        DirectXUsage::Immutable => 1,
        DirectXUsage::Dynamic => 2,
        DirectXUsage::Staging => 3,
        DirectXUsage::DepthStencil => 4,
        DirectXUsage::RenderTarget => 5,
    }
}

/// The number of a usage: its position in the declaration.
pub fn usage_number(u: DirectXUsage) -> (r: u32)
    ensures
        r == usage_code(u),
{
    match u {
        DirectXUsage::Default => 0,
        DirectXUsage::Immutable => 1,
        DirectXUsage::Dynamic => 2,
        DirectXUsage::Staging => 3,
        DirectXUsage::DepthStencil => 4,
        DirectXUsage::RenderTarget => 5,
    }
}

/// The mock Vulkan objects made for a texture of this size, format and use.
pub open spec fn texture_for(
    width: u32,
    height: u32,
    format: DirectXFormat,
    usage: DirectXUsage,
) -> VulkanTexture {
    let image = (0x1000_0001 + width * 10000 + height) as u64;
    VulkanTexture {
        image,
        image_view: (0x2000_0001 + image) as u64,
        sampler: 0x3000_0001,
        width,
        height,
        format: vulkan_format(format),
        usage: usage_code(usage),
    }
}

/// The mock Vulkan objects made for a buffer of this size and use.
pub open spec fn buffer_for(size: u64, usage: DirectXUsage) -> VulkanBuffer {
    VulkanBuffer {
        buffer: (0x9000_0001 + size) as u64,
        memory: (0x4000_0001 + size) as u64,
        size,
        usage: usage_code(usage),
    }
}

/// Largest buffer size whose mock handles fit in 64 bits.
pub open spec fn max_buffer_size() -> u64 {
    (u64::MAX - 0x9000_0001) as u64
}

/// DirectX to Vulkan graphics translator
pub struct GraphicsTranslator {
    // Vulkan context and device
    vulkan_instance: Option<VulkanInstance>,
    vulkan_device: Option<VulkanDevice>,
    // Resource mappings
    texture_map: HashMap<u32, VulkanTexture>,
    buffer_map: HashMap<u32, VulkanBuffer>,
    shader_map: HashMap<u32, VulkanShader>,
    // Pipeline cache
    pipeline_cache: HashMap<u64, VulkanPipeline>,
    // Render state
    current_render_pass: Option<VulkanRenderPass>,
    current_framebuffer: Option<VulkanFramebuffer>,
}

impl GraphicsTranslator {
    /// The textures, by id.
    pub closed spec fn textures(&self) -> Map<u32, VulkanTexture> {
        self.texture_map@
    }

    /// The buffers, by id.
    pub closed spec fn buffers(&self) -> Map<u32, VulkanBuffer> {
        self.buffer_map@
    }

    /// The shaders, by id.
    pub closed spec fn shaders(&self) -> Map<u32, VulkanShader> {
        self.shader_map@
    }

    /// The pipelines, by id.
    pub closed spec fn pipelines(&self) -> Map<u64, VulkanPipeline> {
        self.pipeline_cache@
    }

    /// The Vulkan instance was created.
    pub closed spec fn instance_created(&self) -> bool {
        self.vulkan_instance is Some
    }

    /// The Vulkan device was created.
    pub closed spec fn device_created(&self) -> bool {
        self.vulkan_device is Some
    }

    /// Everything but the textures is as in `old`.
    pub open spec fn only_textures_changed(&self, old: &Self) -> bool {
        &&& self.buffers() == old.buffers()
        &&& self.shaders() == old.shaders()
        &&& self.pipelines() == old.pipelines()
        &&& self.instance_created() == old.instance_created()
        &&& self.device_created() == old.device_created()
    }

    /// Everything but the buffers is as in `old`.
    pub open spec fn only_buffers_changed(&self, old: &Self) -> bool {
        &&& self.textures() == old.textures()
        &&& self.shaders() == old.shaders()
        &&& self.pipelines() == old.pipelines()
        &&& self.instance_created() == old.instance_created()
        &&& self.device_created() == old.device_created()
    }

    /// Everything but the shaders is as in `old`.
    pub open spec fn only_shaders_changed(&self, old: &Self) -> bool {
        &&& self.textures() == old.textures()
        &&& self.buffers() == old.buffers()
        &&& self.pipelines() == old.pipelines()
        &&& self.instance_created() == old.instance_created()
        &&& self.device_created() == old.device_created()
    }

    /// Everything but the pipelines is as in `old`.
    pub open spec fn only_pipelines_changed(&self, old: &Self) -> bool {
        &&& self.textures() == old.textures()
        &&& self.buffers() == old.buffers()
        &&& self.shaders() == old.shaders()
        &&& self.instance_created() == old.instance_created()
        &&& self.device_created() == old.device_created()
    }

    /// Nothing changed.
    pub open spec fn unchanged(&self, old: &Self) -> bool {
        self.only_textures_changed(old) && self.textures() == old.textures()
    }

    /// Creates a new graphics translator
    pub fn new() -> (r: Result<Self, GraphicsError>)
        ensures
            r matches Ok(t) && !t.instance_created() && !t.device_created() && t.textures().is_empty()
                && t.buffers().is_empty() && t.shaders().is_empty() && t.pipelines().is_empty(),
    {
        Ok(
            GraphicsTranslator {
                vulkan_instance: None,
                vulkan_device: None,
                texture_map: HashMap::new(),
                buffer_map: HashMap::new(),
                shader_map: HashMap::new(),
                pipeline_cache: HashMap::new(),
                current_render_pass: None,
                current_framebuffer: None,
            },
        )
    }

    /// The mock physical device.
    fn mock_physical_device() -> (r: VulkanPhysicalDevice)
        ensures
            r.handle == 0x8765_4321,
    {
        let mut memory_types: Vec<MemoryType> = Vec::new();
        memory_types.push(MemoryType { heap_index: 0, property_flags: 0x0001 });  // Device local
        memory_types.push(MemoryType { heap_index: 1, property_flags: 0x0006 });  // Host visible + coherent
        let mut heaps: Vec<MemoryHeap> = Vec::new();
        heaps.push(MemoryHeap { size: 0x8000_0000, flags: 0x0001 });  // 2GB, device local
        heaps.push(MemoryHeap { size: 0x4000_0000, flags: 0x0002 });  // 1GB, host visible
        let mut queue_families: Vec<QueueFamilyProperties> = Vec::new();
        queue_families.push(
            QueueFamilyProperties {
                queue_flags: 0x0000_0001,  // Graphics
                queue_count: 1,
                timestamp_valid_bits: 64,
                min_image_transfer_granularity: 1,
            },
        );
        queue_families.push(
            QueueFamilyProperties {
                queue_flags: 0x0000_0004,  // Transfer
                queue_count: 1,
                timestamp_valid_bits: 64,
                min_image_transfer_granularity: 1,
            },
        );
        VulkanPhysicalDevice {
            handle: 0x8765_4321,
            properties: PhysicalDeviceProperties {
                vendor_id: 0x8086,  // Intel
                device_id: 0x1234,
                device_type: 2,  // Discrete GPU
                device_name: "Mock GPU".to_owned(),
                driver_version: 0x1000,
                api_version: 0x0040_0000,  // Vulkan 1.0
            },
            memory_properties: PhysicalDeviceMemoryProperties {
                memory_types,
                heap_count: 2,
                heaps,
            },
            queue_families,
        }
    }

    /// Creates the (mock) Vulkan instance with one physical device.
    fn create_vulkan_instance(&self) -> (r: Result<VulkanInstance, GraphicsError>)
        ensures
            r matches Ok(i) && i.handle == 0x1234_5678 && i.physical_devices@.len() == 1,
    {
        let mut physical_devices: Vec<VulkanPhysicalDevice> = Vec::new();
        physical_devices.push(Self::mock_physical_device());
        Ok(VulkanInstance { handle: 0x1234_5678, physical_devices })
    }

    /// A copy of a physical device description.
    fn copy_physical_device(d: &VulkanPhysicalDevice) -> (r: VulkanPhysicalDevice)
        ensures
            r.handle == d.handle,
            r.properties.device_name@ == d.properties.device_name@,
            r.memory_properties.memory_types@ == d.memory_properties.memory_types@,
            r.memory_properties.heaps@ == d.memory_properties.heaps@,
            r.queue_families@ == d.queue_families@,
    {
        VulkanPhysicalDevice {
            handle: d.handle,
            properties: PhysicalDeviceProperties {
                vendor_id: d.properties.vendor_id,
                device_id: d.properties.device_id,
                device_type: d.properties.device_type,
                device_name: d.properties.device_name.clone(),
                driver_version: d.properties.driver_version,
                api_version: d.properties.api_version,
            },
            memory_properties: PhysicalDeviceMemoryProperties {
                memory_types: copy_vec(&d.memory_properties.memory_types),
                heap_count: d.memory_properties.heap_count,
                heaps: copy_vec(&d.memory_properties.heaps),
            },
            queue_families: copy_vec(&d.queue_families),
        }
    }

    /// Selects physical device: the first one.
    fn select_physical_device(&self, instance: &VulkanInstance) -> (r: Result<
        VulkanPhysicalDevice,
        GraphicsError,
    >)
        requires
            instance.physical_devices@.len() > 0,
        ensures
            r matches Ok(d) && d.handle == instance.physical_devices@[0].handle,
    {
        Ok(Self::copy_physical_device(&instance.physical_devices[0]))
    }

    /// Creates the (mock) logical device.
    fn create_logical_device(&self, physical_device: &VulkanPhysicalDevice) -> (r: Result<
        VulkanDevice,
        GraphicsError,
    >)
        ensures
            r matches Ok(d) && d.handle == 0xABCD_EF00 && d.physical_device.handle
                == physical_device.handle,
    {
        Ok(
            VulkanDevice {
                handle: 0xABCD_EF00,
                physical_device: Self::copy_physical_device(physical_device),
                graphics_queue: Some(VulkanQueue { handle: 0x1111_1111, family_index: 0, queue_index: 0 }),
                present_queue: Some(VulkanQueue { handle: 0x2222_2222, family_index: 0, queue_index: 0 }),
                transfer_queue: Some(VulkanQueue { handle: 0x3333_3333, family_index: 1, queue_index: 0 }),
            },
        )
    }

    /// Initializes Vulkan: the instance, then the device on its first
    /// physical device.
    pub fn initialize_vulkan(&mut self) -> (r: Result<(), GraphicsError>)
        ensures
            r is Ok,
            final(self).instance_created(),
            final(self).device_created(),
            final(self).textures() == old(self).textures(),
            final(self).buffers() == old(self).buffers(),
            final(self).shaders() == old(self).shaders(),
            final(self).pipelines() == old(self).pipelines(),
    {
        let instance = match self.create_vulkan_instance() {
            Ok(i) => i,
            Err(e) => return Err(e),
        };
        let physical_device = match self.select_physical_device(&instance) {
            Ok(d) => d,
            Err(e) => return Err(e),
        };
        self.vulkan_instance = Some(instance);
        let device = match self.create_logical_device(&physical_device) {
            Ok(d) => d,
            Err(e) => return Err(e),
        };
        self.vulkan_device = Some(device);
        Ok(())
    }

    /// Creates a (mock) Vulkan sampler.
    pub fn create_vulkan_sampler(&self) -> (r: Result<u64, GraphicsError>)
        ensures
            r == Ok::<u64, GraphicsError>(0x3000_0001),
    {
        Ok(0x3000_0001)
    }

    /// Maps DirectX format to Vulkan format
    pub fn map_directx_to_vulkan_format(&self, format: DirectXFormat) -> (r: u32)
        ensures
            r == vulkan_format(format),
    {
        match format {
            DirectXFormat::R8G8B8A8_UNorm => 37,  // VK_FORMAT_R8G8B8A8_UNORM
            DirectXFormat::R8G8B8A8_SRGB => 43,  // VK_FORMAT_R8G8B8A8_SRGB
            DirectXFormat::B8G8R8A8_UNorm => 44,  // VK_FORMAT_B8G8R8A8_UNORM
            DirectXFormat::B8G8R8A8_SRGB => 50,  // VK_FORMAT_B8G8R8A8_SRGB
            DirectXFormat::D32_Float => 126,  // VK_FORMAT_D32_SFLOAT
            DirectXFormat::D24_Unorm_S8_UInt => 129,  // VK_FORMAT_D24_UNORM_S8_UINT
            DirectXFormat::R32_Float => 100,  // VK_FORMAT_R32_SFLOAT
            DirectXFormat::R32G32B32_Float => 106,  // VK_FORMAT_R32G32B32_SFLOAT
            DirectXFormat::R16G16B16A16_Float => 111,  // VK_FORMAT_R16G16B16A16_SFLOAT
            DirectXFormat::R11G11B10_Float => 113,  // VK_FORMAT_B10G11R11_UFLOAT_PACK32
            DirectXFormat::Unknown => 0,
        }
    }

    /// Creates a texture, numbered one past the number of textures.
    pub fn create_texture(
        &mut self,
        width: u32,
        height: u32,
        format: DirectXFormat,
        usage: DirectXUsage,
    ) -> (r: Result<u32, GraphicsError>)
        requires
            old(self).textures().len() < u32::MAX,
        ensures
            !old(self).device_created() ==> r == Err::<u32, GraphicsError>(
                GraphicsError::VulkanNotInitialized,
            ) && final(self).unchanged(old(self)),
            old(self).device_created() ==> {
                let id = (old(self).textures().len() + 1) as u32;
                &&& r == Ok::<u32, GraphicsError>(id)
                &&& final(self).textures() == old(self).textures().insert(
                    id,
                    texture_for(width, height, format, usage),
                )
                &&& final(self).only_textures_changed(old(self))
            },
    {
        if self.vulkan_device.is_none() {
            return Err(GraphicsError::VulkanNotInitialized);
        }
        let vulkan_format = self.map_directx_to_vulkan_format(format);
        let image = 0x1000_0001u64 + (width as u64) * 10000 + (height as u64);
        let image_view = 0x2000_0001u64 + image;
        let sampler = match self.create_vulkan_sampler() {
            Ok(s) => s,
            Err(e) => return Err(e),
        };
        let texture_id = self.texture_map.len() as u32 + 1;
        self.texture_map.insert(
            texture_id,
            VulkanTexture {
                image,
                image_view,
                sampler,
                width,
                height,
                format: vulkan_format,
                usage: usage_number(usage),
            },
        );
        Ok(texture_id)
    }

    /// Creates a buffer, numbered one past the number of buffers.
    pub fn create_buffer(&mut self, size: u64, usage: DirectXUsage) -> (r: Result<u32, GraphicsError>)
        requires
            old(self).buffers().len() < u32::MAX,
            size <= max_buffer_size(),
        ensures
            !old(self).device_created() ==> r == Err::<u32, GraphicsError>(
                GraphicsError::VulkanNotInitialized,
            ) && final(self).unchanged(old(self)),
            old(self).device_created() ==> {
                let id = (old(self).buffers().len() + 1) as u32;
                &&& r == Ok::<u32, GraphicsError>(id)
                &&& final(self).buffers() == old(self).buffers().insert(id, buffer_for(size, usage))
                &&& final(self).only_buffers_changed(old(self))
            },
    {
        if self.vulkan_device.is_none() {
            return Err(GraphicsError::VulkanNotInitialized);
        }
        let buffer = 0x9000_0001u64 + size;
        let memory = 0x4000_0001u64 + size;
        let buffer_id = self.buffer_map.len() as u32 + 1;
        self.buffer_map.insert(buffer_id, VulkanBuffer { buffer, memory, size, usage: usage_number(usage) });
        Ok(buffer_id)
    }

    /// Creates a shader from its source, numbered one past the number of
    /// shaders; no source is compiled.
    pub fn create_shader(&mut self, stage: ShaderStage, _source: &str) -> (r: Result<u32, GraphicsError>)
        requires
            old(self).shaders().len() < u32::MAX,
        ensures
            ({
                let id = (old(self).shaders().len() + 1) as u32;
                &&& r == Ok::<u32, GraphicsError>(id)
                &&& final(self).shaders() == old(self).shaders().insert(
                    id,
                    VulkanShader { module: 0x5000_0001, stage },
                )
                &&& final(self).only_shaders_changed(old(self))
            }),
    {
        let module: u64 = 0x5000_0001;
        let shader_id = self.shader_map.len() as u32 + 1;
        self.shader_map.insert(shader_id, VulkanShader { module, stage });
        Ok(shader_id)
    }

    /// Creates a graphics pipeline, numbered one past the number of
    /// pipelines.
    pub fn create_graphics_pipeline(&mut self, state: &GraphicsPipelineState) -> (r: Result<
        u32,
        GraphicsError,
    >)
        requires
            old(self).pipelines().len() < u32::MAX,
        ensures
            !old(self).device_created() ==> r == Err::<u32, GraphicsError>(
                GraphicsError::VulkanNotInitialized,
            ) && final(self).unchanged(old(self)),
            old(self).device_created() ==> {
                let id = (old(self).pipelines().len() + 1) as u64;
                &&& r == Ok::<u32, GraphicsError>(id as u32)
                &&& final(self).pipelines().dom() == old(self).pipelines().dom().insert(id)
                &&& final(self).pipelines()[id].handle == 0x8000_0001
                &&& final(self).pipelines()[id].layout == 0x7000_0001
                &&& final(self).pipelines()[id].render_pass == 0x6000_0001
                &&& final(self).pipelines()[id].shaders@.len() == 0
                &&& forall|k: u64|
                    k != id && #[trigger] old(self).pipelines().contains_key(k)
                        ==> final(self).pipelines()[k] == old(self).pipelines()[k]
                &&& final(self).only_pipelines_changed(old(self))
            },
    {
        if self.vulkan_device.is_none() {
            return Err(GraphicsError::VulkanNotInitialized);
        }
        let render_pass: u64 = 0x6000_0001;
        let layout: u64 = 0x7000_0001;
        let pipeline: u64 = 0x8000_0001;
        let pipeline_id = self.pipeline_cache.len() as u64 + 1;
        self.pipeline_cache.insert(
            pipeline_id,
            VulkanPipeline { handle: pipeline, layout, render_pass, shaders: Vec::new() },
        );
        Ok(pipeline_id as u32)
    }

    /// Destroys a texture
    pub fn destroy_texture(&mut self, texture_id: u32) -> (r: Result<(), GraphicsError>)
        ensures
            r is Ok,
            final(self).textures() == old(self).textures().remove(texture_id),
            final(self).only_textures_changed(old(self)),
    {
        self.texture_map.remove(&texture_id);
        Ok(())
    }

    /// Destroys a buffer
    pub fn destroy_buffer(&mut self, buffer_id: u32) -> (r: Result<(), GraphicsError>)
        ensures
            r is Ok,
            final(self).buffers() == old(self).buffers().remove(buffer_id),
            final(self).only_buffers_changed(old(self)),
    {
        self.buffer_map.remove(&buffer_id);
        Ok(())
    }

    /// Destroys a shader
    pub fn destroy_shader(&mut self, shader_id: u32) -> (r: Result<(), GraphicsError>)
        ensures
            r is Ok,
            final(self).shaders() == old(self).shaders().remove(shader_id),
            final(self).only_shaders_changed(old(self)),
    {
        self.shader_map.remove(&shader_id);
        Ok(())
    }

    /// Destroys a pipeline
    pub fn destroy_pipeline(&mut self, pipeline_id: u32) -> (r: Result<(), GraphicsError>)
        ensures
            r is Ok,
            final(self).pipelines() == old(self).pipelines().remove(pipeline_id as u64),
            final(self).only_pipelines_changed(old(self)),
    {
        let pipeline_key = pipeline_id as u64;
        self.pipeline_cache.remove(&pipeline_key);
        Ok(())
    }

    /// Begins a render pass; nothing is recorded.
    pub fn begin_render_pass(&mut self, _framebuffer_id: u32, _render_area: (u32, u32, u32, u32)) -> (r:
        Result<(), GraphicsError>)
        ensures
            r is Ok,
            final(self).unchanged(old(self)),
    {
        Ok(())
    }

    /// Ends a render pass; nothing is recorded.
    pub fn end_render_pass(&mut self) -> (r: Result<(), GraphicsError>)
        ensures
            r is Ok,
            final(self).unchanged(old(self)),
    {
        Ok(())
    }

    /// Binds graphics pipeline; nothing is recorded.
    pub fn bind_graphics_pipeline(&mut self, _pipeline_id: u32) -> (r: Result<(), GraphicsError>)
        ensures
            r is Ok,
            final(self).unchanged(old(self)),
    {
        Ok(())
    }

    /// Sets viewport (coordinates as `f32` bit patterns); nothing is
    /// recorded.
    pub fn set_viewport(
        &mut self,
        _x_bits: u32,
        _y_bits: u32,
        _width_bits: u32,
        _height_bits: u32,
        _min_depth_bits: u32,
        _max_depth_bits: u32,
    ) -> (r: Result<(), GraphicsError>)
        ensures
            r is Ok,
            final(self).unchanged(old(self)),
    {
        Ok(())
    }

    /// Sets scissor rect; nothing is recorded.
    pub fn set_scissor_rect(&mut self, _x: i32, _y: i32, _width: u32, _height: u32) -> (r: Result<
        (),
        GraphicsError,
    >)
        ensures
            r is Ok,
            final(self).unchanged(old(self)),
    {
        Ok(())
    }

    /// Draws indexed primitives; nothing is recorded.
    pub fn draw_indexed(&mut self, _index_count: u32, _index_offset: u32, _vertex_offset: i32) -> (r:
        Result<(), GraphicsError>)
        ensures
            r is Ok,
            final(self).unchanged(old(self)),
    {
        Ok(())
    }

    /// Draws non-indexed primitives; nothing is recorded.
    pub fn draw(&mut self, _vertex_count: u32, _vertex_offset: u32) -> (r: Result<(), GraphicsError>)
        ensures
            r is Ok,
            final(self).unchanged(old(self)),
    {
        Ok(())
    }

    /// Presents the current frame; nothing is recorded.
    pub fn present(&mut self, _swapchain_id: u32) -> (r: Result<(), GraphicsError>)
        ensures
            r is Ok,
            final(self).unchanged(old(self)),
    {
        Ok(())
    }

    /// Gets texture information
    pub fn get_texture_info(&self, texture_id: u32) -> (r: Option<&VulkanTexture>)
        ensures
            match r {
                Some(t) => self.textures().contains_key(texture_id) && *t == self.textures()[texture_id],
                None => !self.textures().contains_key(texture_id),
            },
    {
        self.texture_map.get(&texture_id)
    }

    /// Gets buffer information
    pub fn get_buffer_info(&self, buffer_id: u32) -> (r: Option<&VulkanBuffer>)
        ensures
            match r {
                Some(b) => self.buffers().contains_key(buffer_id) && *b == self.buffers()[buffer_id],
                None => !self.buffers().contains_key(buffer_id),
            },
    {
        self.buffer_map.get(&buffer_id)
    }

    /// Gets shader information
    pub fn get_shader_info(&self, shader_id: u32) -> (r: Option<&VulkanShader>)
        ensures
            match r {
                Some(s) => self.shaders().contains_key(shader_id) && *s == self.shaders()[shader_id],
                None => !self.shaders().contains_key(shader_id),
            },
    {
        self.shader_map.get(&shader_id)
    }

    /// Gets pipeline information
    pub fn get_pipeline_info(&self, pipeline_id: u32) -> (r: Option<&VulkanPipeline>)
        ensures
            match r {
                Some(p) => self.pipelines().contains_key(pipeline_id as u64) && *p == self.pipelines()[pipeline_id as u64],
                None => !self.pipelines().contains_key(pipeline_id as u64),
            },
    {
        let pipeline_key = pipeline_id as u64;
        self.pipeline_cache.get(&pipeline_key)
    }

    /// Gets statistics
    pub fn get_stats(&self) -> (r: GraphicsStats)
        ensures
            r.texture_count == self.textures().len(),
            r.buffer_count == self.buffers().len(),
            r.shader_count == self.shaders().len(),
            r.pipeline_count == self.pipelines().len(),
            r.vulkan_initialized == self.instance_created(),
            r.device_initialized == self.device_created(),
    {
        GraphicsStats {
            texture_count: self.texture_map.len(),
            buffer_count: self.buffer_map.len(),
            shader_count: self.shader_map.len(),
            pipeline_count: self.pipeline_cache.len(),
            vulkan_initialized: self.vulkan_instance.is_some(),
            device_initialized: self.vulkan_device.is_some(),
        }
    }
}

/// A copy of a vector of plain values.
fn copy_vec<T: Copy>(v: &Vec<T>) -> (r: Vec<T>)
    ensures
        r@ == v@,
{
    let mut out: Vec<T> = Vec::new();
    let mut i: usize = 0;
    while i < v.len()
        invariant
            0 <= i <= v@.len(),
            out@ == v@.take(i as int),
        decreases v@.len() - i,
    {
        out.push(v[i]);
        i = i + 1;
        assert(out@ =~= v@.take(i as int));
    }
    assert(out@ =~= v@);
    out
}

/// A texture made by `create_texture` is found under the id it answered,
/// with the objects made for its size, format and use, and every other
/// texture is as before; after `destroy_texture` of that id it is gone.
pub proof fn law_texture_lifecycle(
    g0: GraphicsTranslator,
    g1: GraphicsTranslator,
    g2: GraphicsTranslator,
    id: u32,
    width: u32,
    height: u32,
    format: DirectXFormat,
    usage: DirectXUsage,
)
    requires
        g1.textures() == g0.textures().insert(id, texture_for(width, height, format, usage)),
        g2.textures() == g1.textures().remove(id),
    ensures
        g1.textures().contains_key(id),
        g1.textures()[id] == texture_for(width, height, format, usage),
        forall|k: u32| k != id ==> #[trigger] g1.textures().contains_key(k) == g0.textures().contains_key(k),
        forall|k: u32| k != id && g0.textures().contains_key(k) ==> #[trigger] g1.textures()[k] == g0.textures()[k],
        !g2.textures().contains_key(id),
        g2.textures() == g0.textures().remove(id),
{
    assert(g2.textures() =~= g0.textures().remove(id));
}

/// A buffer made by `create_buffer` is found under the id it answered, with
/// the objects made for its size and use; after `destroy_buffer` of that id
/// it is gone and the other buffers are as before the create.
pub proof fn law_buffer_lifecycle(
    g0: GraphicsTranslator,
    g1: GraphicsTranslator,
    g2: GraphicsTranslator,
    id: u32,
    size: u64,
    usage: DirectXUsage,
)
    requires
        g1.buffers() == g0.buffers().insert(id, buffer_for(size, usage)),
        g2.buffers() == g1.buffers().remove(id),
    ensures
        g1.buffers().contains_key(id),
        g1.buffers()[id] == buffer_for(size, usage),
        !g2.buffers().contains_key(id),
        g2.buffers() == g0.buffers().remove(id),
{
    assert(g2.buffers() =~= g0.buffers().remove(id));
}

} // verus!
