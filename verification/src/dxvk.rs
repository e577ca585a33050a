//! DirectX to Vulkan translation (DXVK-like): DirectX resources and the
//! current pipeline state, recorded over the graphics translator.
//!
//! Floating-point values (sampler anisotropy, depth bias, viewport) are held
//! as IEEE-754 bit patterns in `u32` fields; nothing here computes with them.
use crate::graphics::{
    BlendState,
    DepthStencilState,
    DirectXBlendMode,
    DirectXComparison,
    DirectXFormat,
    DirectXTopology,
    DirectXUsage,
    GraphicsError,
    GraphicsPipelineState,
    GraphicsStats,
    GraphicsTranslator,
    RasterizerState,
    StencilOpDesc,
    VertexInputElement,
    max_buffer_size,
};
use std::collections::HashMap;
use vstd::prelude::*;
use vstd::slice::slice_to_vec;

verus! {

broadcast use vstd::std_specs::hash::group_hash_axioms;

/// DXVK texture
#[derive(Debug, Clone, Copy, PartialEq, Eq, Structural)]
pub struct DXVKTexture {
    pub id: u32,
    pub vulkan_id: u32,
    pub width: u32,
    pub height: u32,
    pub format: DirectXFormat,
    pub usage: DirectXUsage,
    pub mip_levels: u32,
}

/// DXVK buffer
#[derive(Debug, Clone, Copy, PartialEq, Eq, Structural)]
pub struct DXVKBuffer {
    pub id: u32,
    pub vulkan_id: u32,
    pub size: u64,
    pub usage: DirectXUsage,
}

/// DXVK sampler; the anisotropy is an `f32` bit pattern.
#[derive(Debug, Clone, Copy, PartialEq, Eq, Structural)]
pub struct DXVKSampler {
    pub id: u32,
    pub vulkan_id: u32,
    pub filter: u32,
    pub address_u: u32,
    pub address_v: u32,
    pub address_w: u32,
    pub max_anisotropy_bits: u32,
}

/// DXVK pipeline state
#[derive(Debug)]
pub struct DXVKPipelineState {
    pub input_layout: Vec<DXVKInputElement>,
    pub blend_state: DXVKBlendState,
    pub rasterizer_state: DXVKRasterizerState,
    pub depth_stencil_state: DXVKDepthStencilState,
    pub render_target_formats: Vec<DirectXFormat>,
    pub depth_stencil_format: Option<DirectXFormat>,
    pub primitive_topology: DirectXTopology,
}

/// DXVK input element
#[derive(Debug)]
pub struct DXVKInputElement {
    pub semantic: String,
    pub semantic_index: u32,
    pub format: DirectXFormat,
    pub input_slot: u32,
    pub byte_offset: u32,
    pub input_slot_class: u32,
    pub instance_data_step_rate: u32,
}

/// DXVK blend state
#[derive(Debug, Clone, Copy, PartialEq, Eq, Structural)]
pub struct DXVKBlendState {
    pub render_target_write_mask: u8,
    pub blend_enable: bool,
    pub src_blend: DirectXBlendMode,
    pub dest_blend: DirectXBlendMode,
    pub blend_op: u8,
    pub src_blend_alpha: DirectXBlendMode,
    pub dest_blend_alpha: DirectXBlendMode,
    pub blend_op_alpha: u8,
    pub render_target_write_mask_alpha: u8,
}

/// DXVK rasterizer state; the depth-bias values are `f32` bit patterns.
#[derive(Debug, Clone, Copy, PartialEq, Eq, Structural)]
pub struct DXVKRasterizerState {
    pub fill_mode: u32,
    pub cull_mode: u32,
    pub front_counter_clockwise: bool,
    pub depth_bias_bits: u32,
    pub depth_bias_clamp_bits: u32,
    pub slope_scaled_depth_bias_bits: u32,
    pub depth_clip_enable: bool,
    pub scissor_enable: bool,
    pub multisample_enable: bool,
    pub antialiased_line_enable: bool,
}

/// DXVK depth stencil state
#[derive(Debug, Clone, Copy, PartialEq, Eq, Structural)]
pub struct DXVKDepthStencilState {
    pub depth_enable: bool,
    pub depth_write_mask: u8,
    pub depth_func: DirectXComparison,
    pub stencil_enable: bool,
    pub stencil_read_mask: u8,
    pub stencil_write_mask: u8,
    pub front_face: DXVKStencilOpDesc,
    pub back_face: DXVKStencilOpDesc,
}

/// DXVK stencil operation description
#[derive(Debug, Clone, Copy, PartialEq, Eq, Structural)]
pub struct DXVKStencilOpDesc {
    pub stencil_fail_op: u32,
    pub stencil_depth_fail_op: u32,
    pub stencil_pass_op: u32,
    pub stencil_func: DirectXComparison,
}

/// DXVK current state
#[derive(Debug)]
pub struct DXVKState {
    pub input_layout: Vec<DXVKInputElement>,
    pub primitive_topology: DirectXTopology,
    pub blend_state: DXVKBlendState,
    pub rasterizer_state: DXVKRasterizerState,
    pub depth_stencil_state: DXVKDepthStencilState,
    pub render_target_count: u32,
    pub render_target_formats: Vec<DirectXFormat>,
    pub depth_stencil_format: Option<DirectXFormat>,
    pub viewport: Option<DXVKViewport>,
    pub scissor_rects: Vec<DXVKScissorRect>,
}

/// DXVK viewport; every value is an `f32` bit pattern.
#[derive(Debug, Clone, Copy, PartialEq, Eq, Structural)]
pub struct DXVKViewport {
    pub x_bits: u32,
    pub y_bits: u32,
    pub width_bits: u32,
    pub height_bits: u32,
    pub min_depth_bits: u32,
    pub max_depth_bits: u32,
}

/// DXVK scissor rect
#[derive(Debug, Clone, Copy, PartialEq, Eq, Structural)]
pub struct DXVKScissorRect {
    pub left: i32,
    pub top: i32,
    pub right: i32,
    pub bottom: i32,
}

/// DXVK statistics
#[derive(Debug)]
pub struct DXVKStats {
    pub texture_count: usize,
    pub buffer_count: usize,
    pub sampler_count: usize,
    pub pipeline_count: usize,
    pub graphics_stats: GraphicsStats,
}

/// The blend state a new translator starts with: no blending, source
/// weight one, destination weight zero, every channel written.
pub open spec fn default_blend_state() -> DXVKBlendState {
    DXVKBlendState {
        render_target_write_mask: 0xFF,
        blend_enable: false,
        src_blend: DirectXBlendMode::One,
        dest_blend: DirectXBlendMode::Zero,
        blend_op: 1,
        src_blend_alpha: DirectXBlendMode::One,
        dest_blend_alpha: DirectXBlendMode::Zero,
        blend_op_alpha: 1,
        render_target_write_mask_alpha: 0xFF,
    }
}

/// The rasterizer state a new translator starts with: solid, no culling,
/// no depth bias, depth clipping on.
pub open spec fn default_rasterizer_state() -> DXVKRasterizerState {
    DXVKRasterizerState {
        fill_mode: 0,
        cull_mode: 0,
        front_counter_clockwise: false,
        depth_bias_bits: 0,
        depth_bias_clamp_bits: 0,
        slope_scaled_depth_bias_bits: 0,
        depth_clip_enable: true,
        scissor_enable: false,
        multisample_enable: false,
        antialiased_line_enable: false,
    }
}

/// The stencil operations a new translator starts with: keep, always.
pub open spec fn default_stencil_op() -> DXVKStencilOpDesc {
    DXVKStencilOpDesc {
        stencil_fail_op: 1,
        stencil_depth_fail_op: 1,
        stencil_pass_op: 1,
        stencil_func: DirectXComparison::Always,
    }
}

/// The depth-stencil state a new translator starts with: depth test
/// "less" with writes, no stencil test.
pub open spec fn default_depth_stencil_state() -> DXVKDepthStencilState {
    DXVKDepthStencilState {
        depth_enable: true,
        depth_write_mask: 0xFF,
        depth_func: DirectXComparison::Less,
        stencil_enable: false,
        stencil_read_mask: 0xFF,
        stencil_write_mask: 0xFF,
        front_face: default_stencil_op(),
        back_face: default_stencil_op(),
    }
}

impl Default for DXVKBlendState {
    fn default() -> (r: Self)
        ensures
            r == default_blend_state(),
    {
        DXVKBlendState {
            render_target_write_mask: 0xFF,
            blend_enable: false,
            src_blend: DirectXBlendMode::One,
            dest_blend: DirectXBlendMode::Zero,
            blend_op: 1,  // ADD
            src_blend_alpha: DirectXBlendMode::One,
            dest_blend_alpha: DirectXBlendMode::Zero,
            blend_op_alpha: 1,  // ADD
            render_target_write_mask_alpha: 0xFF,
        }
    }
}

impl Default for DXVKRasterizerState {
    fn default() -> (r: Self)
        ensures
            r == default_rasterizer_state(),
    {
        DXVKRasterizerState {
            fill_mode: 0,  // SOLID
            cull_mode: 0,  // NONE
            front_counter_clockwise: false,
            depth_bias_bits: 0,
            depth_bias_clamp_bits: 0,
            slope_scaled_depth_bias_bits: 0,
            depth_clip_enable: true,
            scissor_enable: false,
            multisample_enable: false,
            antialiased_line_enable: false,
        }
    }
}

impl Default for DXVKDepthStencilState {
    fn default() -> (r: Self)
        ensures
            r == default_depth_stencil_state(),
    {
        DXVKDepthStencilState {
            depth_enable: true,
            depth_write_mask: 0xFF,
            depth_func: DirectXComparison::Less,
            stencil_enable: false,
            stencil_read_mask: 0xFF,
            stencil_write_mask: 0xFF,
            front_face: DXVKStencilOpDesc {
                stencil_fail_op: 1,  // KEEP
                stencil_depth_fail_op: 1,  // KEEP
                stencil_pass_op: 1,  // KEEP
                stencil_func: DirectXComparison::Always,
            },
            back_face: DXVKStencilOpDesc {
                stencil_fail_op: 1,  // KEEP
                stencil_depth_fail_op: 1,  // KEEP
                stencil_pass_op: 1,  // KEEP
                stencil_func: DirectXComparison::Always,
            },
        }
    }
}

/// A copy of an input element.
fn copy_element(e: &DXVKInputElement) -> (r: DXVKInputElement)
    ensures
        r == *e,
{
    DXVKInputElement {
        semantic: e.semantic.clone(),
        semantic_index: e.semantic_index,
        format: e.format,
        input_slot: e.input_slot,
        byte_offset: e.byte_offset,
        input_slot_class: e.input_slot_class,
        instance_data_step_rate: e.instance_data_step_rate,
    }
}

/// A copy of an input layout.
fn copy_layout(v: &[DXVKInputElement]) -> (r: Vec<DXVKInputElement>)
    ensures
        r@ == v@,
{
    let mut out: Vec<DXVKInputElement> = Vec::new();
    let mut i: usize = 0;
    while i < v.len()
        invariant
            0 <= i <= v@.len(),
            out@ == v@.take(i as int),
        decreases v@.len() - i,
    {
        out.push(copy_element(&v[i]));
        i = i + 1;
        assert(out@ =~= v@.take(i as int));
    }
    assert(out@ =~= v@);
    out
}

/// The graphics-level blend state of a DXVK blend state.
pub open spec fn graphics_blend(b: DXVKBlendState) -> BlendState {
    BlendState {
        render_target_write_mask: b.render_target_write_mask,
        blend_enable: b.blend_enable,
        src_blend: b.src_blend,
        dest_blend: b.dest_blend,
        blend_op: b.blend_op,
        src_blend_alpha: b.src_blend_alpha,
        dest_blend_alpha: b.dest_blend_alpha,
        blend_op_alpha: b.blend_op_alpha,
        render_target_write_mask_alpha: b.render_target_write_mask_alpha,
    }
}

/// The graphics-level rasterizer state of a DXVK rasterizer state.
pub open spec fn graphics_rasterizer(r: DXVKRasterizerState) -> RasterizerState {
    RasterizerState {
        fill_mode: r.fill_mode,
        cull_mode: r.cull_mode,
        front_counter_clockwise: r.front_counter_clockwise,
        depth_bias_bits: r.depth_bias_bits,
        depth_bias_clamp_bits: r.depth_bias_clamp_bits,
        slope_scaled_depth_bias_bits: r.slope_scaled_depth_bias_bits,
        depth_clip_enable: r.depth_clip_enable,
        scissor_enable: r.scissor_enable,
        multisample_enable: r.multisample_enable,
        antialiased_line_enable: r.antialiased_line_enable,
    }
}

/// The graphics-level stencil operations of DXVK stencil operations.
pub open spec fn graphics_stencil(s: DXVKStencilOpDesc) -> StencilOpDesc {
    StencilOpDesc {
        stencil_fail_op: s.stencil_fail_op,
        stencil_depth_fail_op: s.stencil_depth_fail_op,
        stencil_pass_op: s.stencil_pass_op,
        stencil_func: s.stencil_func,
    }
}

/// The graphics-level depth-stencil state of a DXVK depth-stencil state.
pub open spec fn graphics_depth_stencil(d: DXVKDepthStencilState) -> DepthStencilState {
    DepthStencilState {
        depth_enable: d.depth_enable,
        depth_write_mask: d.depth_write_mask,
        depth_func: d.depth_func,
        stencil_enable: d.stencil_enable,
        stencil_read_mask: d.stencil_read_mask,
        stencil_write_mask: d.stencil_write_mask,
        front_face: graphics_stencil(d.front_face),
        back_face: graphics_stencil(d.back_face),
    }
}

/// `v` is the graphics-level form of input element `e`.
pub open spec fn vertex_element_of(v: VertexInputElement, e: DXVKInputElement) -> bool {
    &&& v.semantic_name@ == e.semantic@
    &&& v.semantic_index == e.semantic_index
    &&& v.format == e.format
    &&& v.input_slot == e.input_slot
    &&& v.aligned_byte_offset == e.byte_offset
    &&& v.input_slot_class == e.input_slot_class
    &&& v.instance_data_step_rate == e.instance_data_step_rate
}

/// `p` is the graphics pipeline state made from the DXVK state `s`: no
/// shaders, and every other part carried over.
pub open spec fn pipeline_state_of(p: GraphicsPipelineState, s: DXVKState) -> bool {
    &&& p.vertex_shader is None
    &&& p.pixel_shader is None
    &&& p.input_layout@.len() == s.input_layout@.len()
    &&& forall|i: int|
        0 <= i < s.input_layout@.len() ==> vertex_element_of(
            #[trigger] p.input_layout@[i],
            s.input_layout@[i],
        )
    &&& p.blend_state == graphics_blend(s.blend_state)
    &&& p.rasterizer_state == graphics_rasterizer(s.rasterizer_state)
    &&& p.depth_stencil_state == graphics_depth_stencil(s.depth_stencil_state)
    &&& p.render_target_formats@ == s.render_target_formats@
    &&& p.depth_stencil_format == s.depth_stencil_format
}

/// `p` records the pipeline-relevant part of the DXVK state `s`.
pub open spec fn recorded_pipeline(p: DXVKPipelineState, s: DXVKState) -> bool {
    &&& p.input_layout@ == s.input_layout@
    &&& p.blend_state == s.blend_state
    &&& p.rasterizer_state == s.rasterizer_state
    &&& p.depth_stencil_state == s.depth_stencil_state
    &&& p.render_target_formats@ == s.render_target_formats@
    &&& p.depth_stencil_format == s.depth_stencil_format
    &&& p.primitive_topology == s.primitive_topology
}

/// DirectX to Vulkan translator
pub struct DXVKTranslator {
    graphics_translator: GraphicsTranslator,
    // Resource mappings
    texture_map: HashMap<u32, DXVKTexture>,
    buffer_map: HashMap<u32, DXVKBuffer>,
    sampler_map: HashMap<u32, DXVKSampler>,
    // Pipeline state cache
    pipeline_state_cache: HashMap<u64, DXVKPipelineState>,
    // Current state
    current_state: DXVKState,
}

/// Why a DXVK request failed.
#[derive(Debug, Clone, Copy, PartialEq, Eq, Structural)]
pub enum DXVKError {
    /// The graphics translator refused the request.
    Graphics(GraphicsError),
}

impl DXVKTranslator {
    /// The textures, by id.
    pub closed spec fn textures(&self) -> Map<u32, DXVKTexture> {
        self.texture_map@
    }

    /// The buffers, by id.
    pub closed spec fn buffers(&self) -> Map<u32, DXVKBuffer> {
        self.buffer_map@
    }

    /// The samplers, by id.
    pub closed spec fn samplers(&self) -> Map<u32, DXVKSampler> {
        self.sampler_map@
    }

    /// The recorded pipelines, by id.
    pub closed spec fn pipelines(&self) -> Map<u64, DXVKPipelineState> {
        self.pipeline_state_cache@
    }

    /// The graphics translator underneath.
    pub closed spec fn graphics(&self) -> GraphicsTranslator {
        self.graphics_translator
    }

    /// The current state.
    pub closed spec fn state(&self) -> DXVKState {
        self.current_state
    }

    /// The resource tables are as in `old`.
    pub open spec fn same_resources(&self, old: &Self) -> bool {
        &&& self.textures() == old.textures()
        &&& self.buffers() == old.buffers()
        &&& self.samplers() == old.samplers()
        &&& self.pipelines() == old.pipelines()
    }

    /// Only the current state may differ from `old`.
    pub open spec fn only_state_changed(&self, old: &Self) -> bool {
        &&& self.same_resources(old)
        &&& self.graphics() == old.graphics()
    }

    /// Nothing differs from `old`.
    pub open spec fn unchanged(&self, old: &Self) -> bool {
        self.only_state_changed(old) && self.state() == old.state()
    }

    /// Creates a new DXVK translator
    pub fn new() -> (r: Result<Self, DXVKError>)
        ensures
            r matches Ok(t) && {
                &&& t.textures().is_empty()
                &&& t.buffers().is_empty()
                &&& t.samplers().is_empty()
                &&& t.pipelines().is_empty()
                &&& !t.graphics().device_created()
                &&& t.graphics().textures().is_empty()
                &&& t.graphics().buffers().is_empty()
                &&& t.graphics().shaders().is_empty()
                &&& t.graphics().pipelines().is_empty()
                &&& t.state().input_layout@.len() == 0
                &&& t.state().primitive_topology == DirectXTopology::TriangleList
                &&& t.state().blend_state == default_blend_state()
                &&& t.state().rasterizer_state == default_rasterizer_state()
                &&& t.state().depth_stencil_state == default_depth_stencil_state()
                &&& t.state().render_target_count == 0
                &&& t.state().render_target_formats@.len() == 0
                &&& t.state().depth_stencil_format is None
                &&& t.state().viewport is None
                &&& t.state().scissor_rects@.len() == 0
            },
    {
        let graphics_translator = match GraphicsTranslator::new() {
            Ok(g) => g,
            Err(e) => return Err(DXVKError::Graphics(e)),
        };
        Ok(
            DXVKTranslator {
                graphics_translator,
                texture_map: HashMap::new(),
                buffer_map: HashMap::new(),
                sampler_map: HashMap::new(),
                pipeline_state_cache: HashMap::new(),
                current_state: DXVKState {
                    input_layout: Vec::new(),
                    primitive_topology: DirectXTopology::TriangleList,
                    blend_state: DXVKBlendState::default(),
                    rasterizer_state: DXVKRasterizerState::default(),
                    depth_stencil_state: DXVKDepthStencilState::default(),
                    render_target_count: 0,
                    render_target_formats: Vec::new(),
                    depth_stencil_format: None,
                    viewport: None,
                    scissor_rects: Vec::new(),
                },
            },
        )
    }

    /// Initializes DXVK: the Vulkan instance and device underneath.
    pub fn initialize(&mut self) -> (r: Result<(), DXVKError>)
        ensures
            r is Ok,
            final(self).graphics().device_created(),
            final(self).graphics().textures() == old(self).graphics().textures(),
            final(self).graphics().buffers() == old(self).graphics().buffers(),
            final(self).graphics().shaders() == old(self).graphics().shaders(),
            final(self).graphics().pipelines() == old(self).graphics().pipelines(),
            final(self).same_resources(old(self)),
            final(self).state() == old(self).state(),
    {
        match self.graphics_translator.initialize_vulkan() {
            Ok(()) => Ok(()),
            Err(e) => Err(DXVKError::Graphics(e)),
        }
    }

    /// Creates a texture, numbered one past the number of textures.
    pub fn create_texture(
        &mut self,
        width: u32,
        height: u32,
        format: DirectXFormat,
        usage: DirectXUsage,
    ) -> (r: Result<u32, DXVKError>)
        requires
            old(self).textures().len() < u32::MAX,
            old(self).graphics().textures().len() < u32::MAX,
        ensures
            !old(self).graphics().device_created() ==> r == Err::<u32, DXVKError>(
                DXVKError::Graphics(GraphicsError::VulkanNotInitialized),
            ) && final(self).same_resources(old(self)) && final(self).state() == old(self).state()
                && final(self).graphics().unchanged(&old(self).graphics()),
            old(self).graphics().device_created() ==> {
                let id = (old(self).textures().len() + 1) as u32;
                let vulkan_id = (old(self).graphics().textures().len() + 1) as u32;
                &&& r == Ok::<u32, DXVKError>(id)
                &&& final(self).textures() == old(self).textures().insert(
                    id,
                    DXVKTexture { id, vulkan_id, width, height, format, usage, mip_levels: 1 },
                )
                &&& final(self).graphics().textures() == old(self).graphics().textures().insert(
                    vulkan_id,
                    crate::graphics::texture_for(width, height, format, usage),
                )
                &&& final(self).graphics().only_textures_changed(&old(self).graphics())
                &&& final(self).buffers() == old(self).buffers()
                &&& final(self).samplers() == old(self).samplers()
                &&& final(self).pipelines() == old(self).pipelines()
                &&& final(self).state() == old(self).state()
            },
    {
        let vulkan_id = match self.graphics_translator.create_texture(width, height, format, usage) {
            Ok(v) => v,
            Err(e) => return Err(DXVKError::Graphics(e)),
        };
        let texture_id = self.texture_map.len() as u32 + 1;
        self.texture_map.insert(
            texture_id,
            DXVKTexture { id: texture_id, vulkan_id, width, height, format, usage, mip_levels: 1 },
        );
        Ok(texture_id)
    }

    /// Creates a buffer, numbered one past the number of buffers.
    pub fn create_buffer(&mut self, size: u64, usage: DirectXUsage) -> (r: Result<u32, DXVKError>)
        requires
            old(self).buffers().len() < u32::MAX,
            old(self).graphics().buffers().len() < u32::MAX,
            size <= max_buffer_size(),
        ensures
            !old(self).graphics().device_created() ==> r == Err::<u32, DXVKError>(
                DXVKError::Graphics(GraphicsError::VulkanNotInitialized),
            ) && final(self).same_resources(old(self)) && final(self).state() == old(self).state()
                && final(self).graphics().unchanged(&old(self).graphics()),
            old(self).graphics().device_created() ==> {
                let id = (old(self).buffers().len() + 1) as u32;
                let vulkan_id = (old(self).graphics().buffers().len() + 1) as u32;
                &&& r == Ok::<u32, DXVKError>(id)
                &&& final(self).buffers() == old(self).buffers().insert(
                    id,
                    DXVKBuffer { id, vulkan_id, size, usage },
                )
                &&& final(self).graphics().buffers() == old(self).graphics().buffers().insert(
                    vulkan_id,
                    crate::graphics::buffer_for(size, usage),
                )
                &&& final(self).graphics().only_buffers_changed(&old(self).graphics())
                &&& final(self).textures() == old(self).textures()
                &&& final(self).samplers() == old(self).samplers()
                &&& final(self).pipelines() == old(self).pipelines()
                &&& final(self).state() == old(self).state()
            },
    {
        let vulkan_id = match self.graphics_translator.create_buffer(size, usage) {
            Ok(v) => v,
            Err(e) => return Err(DXVKError::Graphics(e)),
        };
        let buffer_id = self.buffer_map.len() as u32 + 1;
        self.buffer_map.insert(buffer_id, DXVKBuffer { id: buffer_id, vulkan_id, size, usage });
        Ok(buffer_id)
    }

    /// Creates a sampler, numbered one past the number of samplers; the
    /// anisotropy is an `f32` bit pattern.
    pub fn create_sampler(
        &mut self,
        filter: u32,
        address_u: u32,
        address_v: u32,
        address_w: u32,
        max_anisotropy_bits: u32,
    ) -> (r: Result<u32, DXVKError>)
        requires
            old(self).samplers().len() < u32::MAX,
        ensures
            ({
                let id = (old(self).samplers().len() + 1) as u32;
                &&& r == Ok::<u32, DXVKError>(id)
                &&& final(self).samplers() == old(self).samplers().insert(
                    id,
                    DXVKSampler {
                        id,
                        vulkan_id: 0x3000_0001,
                        filter,
                        address_u,
                        address_v,
                        address_w,
                        max_anisotropy_bits,
                    },
                )
                &&& final(self).textures() == old(self).textures()
                &&& final(self).buffers() == old(self).buffers()
                &&& final(self).pipelines() == old(self).pipelines()
                &&& final(self).graphics() == old(self).graphics()
                &&& final(self).state() == old(self).state()
            }),
    {
        let vulkan_id = match self.graphics_translator.create_vulkan_sampler() {
            Ok(v) => v as u32,
            Err(e) => return Err(DXVKError::Graphics(e)),
        };
        let sampler_id = self.sampler_map.len() as u32 + 1;
        self.sampler_map.insert(
            sampler_id,
            DXVKSampler {
                id: sampler_id,
                vulkan_id,
                filter,
                address_u,
                address_v,
                address_w,
                max_anisotropy_bits,
            },
        );
        Ok(sampler_id)
    }

    /// Updates input layout
    pub fn update_input_layout(&mut self, input_elements: &[DXVKInputElement]) -> (r: Result<
        (),
        DXVKError,
    >)
        ensures
            r is Ok,
            final(self).only_state_changed(old(self)),
            final(self).state() == (DXVKState {
                input_layout: final(self).state().input_layout,
                ..old(self).state()
            }),
            final(self).state().input_layout@ == input_elements@,
    {
        self.current_state.input_layout = copy_layout(input_elements);
        Ok(())
    }

    /// Sets primitive topology
    pub fn set_primitive_topology(&mut self, topology: DirectXTopology) -> (r: Result<(), DXVKError>)
        ensures
            r is Ok,
            final(self).only_state_changed(old(self)),
            final(self).state() == (DXVKState { primitive_topology: topology, ..old(self).state() }),
    {
        self.current_state.primitive_topology = topology;
        Ok(())
    }

    /// Updates blend state
    pub fn update_blend_state(&mut self, blend_state: &DXVKBlendState) -> (r: Result<(), DXVKError>)
        ensures
            r is Ok,
            final(self).only_state_changed(old(self)),
            final(self).state() == (DXVKState { blend_state: *blend_state, ..old(self).state() }),
    {
        self.current_state.blend_state = *blend_state;
        Ok(())
    }

    /// Updates rasterizer state
    pub fn update_rasterizer_state(&mut self, rasterizer_state: &DXVKRasterizerState) -> (r: Result<
        (),
        DXVKError,
    >)
        ensures
            r is Ok,
            final(self).only_state_changed(old(self)),
            final(self).state() == (DXVKState {
                rasterizer_state: *rasterizer_state,
                ..old(self).state()
            }),
    {
        self.current_state.rasterizer_state = *rasterizer_state;
        Ok(())
    }

    /// Updates depth stencil state
    pub fn update_depth_stencil_state(&mut self, depth_stencil_state: &DXVKDepthStencilState) -> (r:
        Result<(), DXVKError>)
        ensures
            r is Ok,
            final(self).only_state_changed(old(self)),
            final(self).state() == (DXVKState {
                depth_stencil_state: *depth_stencil_state,
                ..old(self).state()
            }),
    {
        self.current_state.depth_stencil_state = *depth_stencil_state;
        Ok(())
    }

    /// Sets render targets
    pub fn set_render_targets(
        &mut self,
        render_target_formats: &[DirectXFormat],
        depth_stencil_format: Option<DirectXFormat>,
    ) -> (r: Result<(), DXVKError>)
        ensures
            r is Ok,
            final(self).only_state_changed(old(self)),
            final(self).state() == (DXVKState {
                render_target_count: render_target_formats@.len() as u32,
                render_target_formats: final(self).state().render_target_formats,
                depth_stencil_format,
                ..old(self).state()
            }),
            final(self).state().render_target_formats@ == render_target_formats@,
    {
        self.current_state.render_target_count = render_target_formats.len() as u32;
        self.current_state.render_target_formats = slice_to_vec(render_target_formats);
        self.current_state.depth_stencil_format = depth_stencil_format;
        Ok(())
    }

    /// Sets viewport
    pub fn set_viewport(&mut self, viewport: &DXVKViewport) -> (r: Result<(), DXVKError>)
        ensures
            r is Ok,
            final(self).same_resources(old(self)),
            final(self).graphics().unchanged(&old(self).graphics()),
            final(self).state() == (DXVKState { viewport: Some(*viewport), ..old(self).state() }),
    {
        self.current_state.viewport = Some(*viewport);
        match self.graphics_translator.set_viewport(
            viewport.x_bits,
            viewport.y_bits,
            viewport.width_bits,
            viewport.height_bits,
            viewport.min_depth_bits,
            viewport.max_depth_bits,
        ) {
            Ok(()) => Ok(()),
            Err(e) => Err(DXVKError::Graphics(e)),
        }
    }

    /// Sets scissor rects; the graphics translator gets each rectangle, its
    /// right and bottom edges as unsigned values.
    pub fn set_scissor_rects(&mut self, scissor_rects: &[DXVKScissorRect]) -> (r: Result<
        (),
        DXVKError,
    >)
        ensures
            r is Ok,
            final(self).same_resources(old(self)),
            final(self).graphics().unchanged(&old(self).graphics()),
            final(self).state() == (DXVKState {
                scissor_rects: final(self).state().scissor_rects,
                ..old(self).state()
            }),
            final(self).state().scissor_rects@ == scissor_rects@,
    {
        self.current_state.scissor_rects = slice_to_vec(scissor_rects);
        let mut i: usize = 0;
        while i < scissor_rects.len()
            invariant
                0 <= i <= scissor_rects@.len(),
                self.same_resources(old(self)),
                self.graphics().unchanged(&old(self).graphics()),
                self.state() == (DXVKState {
                    scissor_rects: self.state().scissor_rects,
                    ..old(self).state()
                }),
                self.state().scissor_rects@ == scissor_rects@,
            decreases scissor_rects@.len() - i,
        {
            let rect = scissor_rects[i];
            match self.graphics_translator.set_scissor_rect(
                rect.left,
                rect.top,
                rect.right as u32,
                rect.bottom as u32,
            ) {
                Ok(()) => {},
                Err(e) => return Err(DXVKError::Graphics(e)),
            }
            i = i + 1;
        }
        Ok(())
    }

    /// The graphics-level form of an input element.
    fn vertex_element(elem: &DXVKInputElement) -> (r: VertexInputElement)
        ensures
            vertex_element_of(r, *elem),
    {
        VertexInputElement {
            semantic_name: elem.semantic.clone(),
            semantic_index: elem.semantic_index,
            format: elem.format,
            input_slot: elem.input_slot,
            aligned_byte_offset: elem.byte_offset,
            input_slot_class: elem.input_slot_class,
            instance_data_step_rate: elem.instance_data_step_rate,
        }
    }

    /// Converts current state to pipeline state
    fn convert_state_to_pipeline_state(&self) -> (r: GraphicsPipelineState)
        ensures
            pipeline_state_of(r, self.state()),
    {
        let state = &self.current_state;
        let mut input_layout: Vec<VertexInputElement> = Vec::new();
        let mut i: usize = 0;
        while i < state.input_layout.len()
            invariant
                0 <= i <= state.input_layout@.len(),
                input_layout@.len() == i,
                forall|j: int|
                    0 <= j < i ==> vertex_element_of(
                        #[trigger] input_layout@[j],
                        state.input_layout@[j],
                    ),
            decreases state.input_layout@.len() - i,
        {
            input_layout.push(Self::vertex_element(&state.input_layout[i]));
            i = i + 1;
        }
        let b = state.blend_state;
        let rs = state.rasterizer_state;
        let ds = state.depth_stencil_state;
        GraphicsPipelineState {
            vertex_shader: None,  // Would be set from current state
            pixel_shader: None,  // Would be set from current state
            input_layout,
            blend_state: BlendState {
                render_target_write_mask: b.render_target_write_mask,
                blend_enable: b.blend_enable,
                src_blend: b.src_blend,
                dest_blend: b.dest_blend,
                blend_op: b.blend_op,
                src_blend_alpha: b.src_blend_alpha,
                dest_blend_alpha: b.dest_blend_alpha,
                blend_op_alpha: b.blend_op_alpha,
                render_target_write_mask_alpha: b.render_target_write_mask_alpha,
            },
            rasterizer_state: RasterizerState {
                fill_mode: rs.fill_mode,
                cull_mode: rs.cull_mode,
                front_counter_clockwise: rs.front_counter_clockwise,
                depth_bias_bits: rs.depth_bias_bits,
                depth_bias_clamp_bits: rs.depth_bias_clamp_bits,
                slope_scaled_depth_bias_bits: rs.slope_scaled_depth_bias_bits,
                depth_clip_enable: rs.depth_clip_enable,
                scissor_enable: rs.scissor_enable,
                multisample_enable: rs.multisample_enable,
                antialiased_line_enable: rs.antialiased_line_enable,
            },
            depth_stencil_state: DepthStencilState {
                depth_enable: ds.depth_enable,
                depth_write_mask: ds.depth_write_mask,
                depth_func: ds.depth_func,
                stencil_enable: ds.stencil_enable,
                stencil_read_mask: ds.stencil_read_mask,
                stencil_write_mask: ds.stencil_write_mask,
                front_face: StencilOpDesc {
                    stencil_fail_op: ds.front_face.stencil_fail_op,
                    stencil_depth_fail_op: ds.front_face.stencil_depth_fail_op,
                    stencil_pass_op: ds.front_face.stencil_pass_op,
                    stencil_func: ds.front_face.stencil_func,
                },
                back_face: StencilOpDesc {
                    stencil_fail_op: ds.back_face.stencil_fail_op,
                    stencil_depth_fail_op: ds.back_face.stencil_depth_fail_op,
                    stencil_pass_op: ds.back_face.stencil_pass_op,
                    stencil_func: ds.back_face.stencil_func,
                },
            },
            render_target_formats: slice_to_vec(state.render_target_formats.as_slice()),
            depth_stencil_format: state.depth_stencil_format,
        }
    }

    /// The pipeline-relevant part of the current state.
    fn record_current_state(&self) -> (r: DXVKPipelineState)
        ensures
            recorded_pipeline(r, self.state()),
    {
        let state = &self.current_state;
        DXVKPipelineState {
            input_layout: copy_layout(state.input_layout.as_slice()),
            blend_state: state.blend_state,
            rasterizer_state: state.rasterizer_state,
            depth_stencil_state: state.depth_stencil_state,
            render_target_formats: slice_to_vec(state.render_target_formats.as_slice()),
            depth_stencil_format: state.depth_stencil_format,
            primitive_topology: state.primitive_topology,
        }
    }

    /// Creates a graphics pipeline from the current state, numbered one
    /// past the number of recorded pipelines.
    pub fn create_graphics_pipeline(&mut self) -> (r: Result<u32, DXVKError>)
        requires
            old(self).pipelines().len() < u32::MAX,
            old(self).graphics().pipelines().len() < u32::MAX,
        ensures
            final(self).state() == old(self).state(),
            !old(self).graphics().device_created() ==> r == Err::<u32, DXVKError>(
                DXVKError::Graphics(GraphicsError::VulkanNotInitialized),
            ) && final(self).same_resources(old(self)) && final(self).graphics().unchanged(
                &old(self).graphics(),
            ),
            old(self).graphics().device_created() ==> {
                let id = (old(self).pipelines().len() + 1) as u64;
                &&& r == Ok::<u32, DXVKError>(id as u32)
                &&& final(self).pipelines().dom() == old(self).pipelines().dom().insert(id)
                &&& recorded_pipeline(final(self).pipelines()[id], old(self).state())
                &&& forall|k: u64|
                    k != id && #[trigger] old(self).pipelines().contains_key(k)
                        ==> final(self).pipelines()[k] == old(self).pipelines()[k]
                &&& final(self).graphics().pipelines().dom() == old(self).graphics().pipelines().dom().insert((old(self).graphics().pipelines().len() + 1) as u64)
                &&& final(self).graphics().only_pipelines_changed(&old(self).graphics())
                &&& final(self).textures() == old(self).textures()
                &&& final(self).buffers() == old(self).buffers()
                &&& final(self).samplers() == old(self).samplers()
            },
    {
        // Convert current state to graphics pipeline state
        let pipeline_state = self.convert_state_to_pipeline_state();
        match self.graphics_translator.create_graphics_pipeline(&pipeline_state) {
            Ok(_) => {},
            Err(e) => return Err(DXVKError::Graphics(e)),
        }
        let recorded = self.record_current_state();
        let pipeline_id = self.pipeline_state_cache.len() as u64 + 1;
        self.pipeline_state_cache.insert(pipeline_id, recorded);
        Ok(pipeline_id as u32)
    }

    /// Binds graphics pipeline
    pub fn bind_graphics_pipeline(&mut self, pipeline_id: u32) -> (r: Result<(), DXVKError>)
        ensures
            r is Ok,
            final(self).same_resources(old(self)),
            final(self).state() == old(self).state(),
            final(self).graphics().unchanged(&old(self).graphics()),
    {
        let pipeline_key = pipeline_id as u64;
        if self.pipeline_state_cache.contains_key(&pipeline_key) {
            match self.graphics_translator.bind_graphics_pipeline(pipeline_id) {
                Ok(()) => {},
                Err(e) => return Err(DXVKError::Graphics(e)),
            }
        }
        Ok(())
    }

    /// Binds vertex buffer; nothing is recorded.
    pub fn bind_vertex_buffer(&mut self, _buffer_id: u32, _offset: u64, _stride: u32) -> (r: Result<
        (),
        DXVKError,
    >)
        ensures
            r is Ok,
            final(self).unchanged(old(self)),
    {
        Ok(())
    }

    /// Binds index buffer; nothing is recorded.
    pub fn bind_index_buffer(&mut self, _buffer_id: u32, _offset: u64) -> (r: Result<(), DXVKError>)
        ensures
            r is Ok,
            final(self).unchanged(old(self)),
    {
        Ok(())
    }

    /// Binds shader resource; nothing is recorded.
    pub fn bind_shader_resource(&mut self, _resource_id: u32, _slot: u32) -> (r: Result<(), DXVKError>)
        ensures
            r is Ok,
            final(self).unchanged(old(self)),
    {
        Ok(())
    }

    /// Binds sampler; nothing is recorded.
    pub fn bind_sampler(&mut self, _sampler_id: u32, _slot: u32) -> (r: Result<(), DXVKError>)
        ensures
            r is Ok,
            final(self).unchanged(old(self)),
    {
        Ok(())
    }

    /// Draws primitives
    pub fn draw(&mut self, vertex_count: u32, start_vertex: u32) -> (r: Result<(), DXVKError>)
        ensures
            r is Ok,
            final(self).same_resources(old(self)),
            final(self).state() == old(self).state(),
            final(self).graphics().unchanged(&old(self).graphics()),
    {
        match self.graphics_translator.draw(vertex_count, start_vertex) {
            Ok(()) => Ok(()),
            Err(e) => Err(DXVKError::Graphics(e)),
        }
    }

    /// Draws indexed primitives
    pub fn draw_indexed(&mut self, index_count: u32, start_index: u32, base_vertex: i32) -> (r:
        Result<(), DXVKError>)
        ensures
            r is Ok,
            final(self).same_resources(old(self)),
            final(self).state() == old(self).state(),
            final(self).graphics().unchanged(&old(self).graphics()),
    {
        match self.graphics_translator.draw_indexed(index_count, start_index, base_vertex) {
            Ok(()) => Ok(()),
            Err(e) => Err(DXVKError::Graphics(e)),
        }
    }

    /// Presents the frame
    pub fn present(&mut self, swapchain_id: u32) -> (r: Result<(), DXVKError>)
        ensures
            r is Ok,
            final(self).same_resources(old(self)),
            final(self).state() == old(self).state(),
            final(self).graphics().unchanged(&old(self).graphics()),
    {
        match self.graphics_translator.present(swapchain_id) {
            Ok(()) => Ok(()),
            Err(e) => Err(DXVKError::Graphics(e)),
        }
    }

    /// Destroys a texture and its Vulkan texture.
    pub fn destroy_texture(&mut self, texture_id: u32) -> (r: Result<(), DXVKError>)
        ensures
            r is Ok,
            final(self).textures() == old(self).textures().remove(texture_id),
            final(self).buffers() == old(self).buffers(),
            final(self).samplers() == old(self).samplers(),
            final(self).pipelines() == old(self).pipelines(),
            final(self).state() == old(self).state(),
            old(self).textures().contains_key(texture_id) ==> final(self).graphics().textures()
                == old(self).graphics().textures().remove(old(self).textures()[texture_id].vulkan_id)
                && final(self).graphics().only_textures_changed(&old(self).graphics()),
            !old(self).textures().contains_key(texture_id) ==> final(self).graphics().unchanged(
                &old(self).graphics(),
            ),
    {
        match self.texture_map.remove(&texture_id) {
            Some(texture) => match self.graphics_translator.destroy_texture(texture.vulkan_id) {
                Ok(()) => Ok(()),
                Err(e) => Err(DXVKError::Graphics(e)),
            },
            None => Ok(()),
        }
    }

    /// Destroys a buffer and its Vulkan buffer.
    pub fn destroy_buffer(&mut self, buffer_id: u32) -> (r: Result<(), DXVKError>)
        ensures
            r is Ok,
            final(self).buffers() == old(self).buffers().remove(buffer_id),
            final(self).textures() == old(self).textures(),
            final(self).samplers() == old(self).samplers(),
            final(self).pipelines() == old(self).pipelines(),
            final(self).state() == old(self).state(),
            old(self).buffers().contains_key(buffer_id) ==> final(self).graphics().buffers()
                == old(self).graphics().buffers().remove(old(self).buffers()[buffer_id].vulkan_id)
                && final(self).graphics().only_buffers_changed(&old(self).graphics()),
            !old(self).buffers().contains_key(buffer_id) ==> final(self).graphics().unchanged(
                &old(self).graphics(),
            ),
    {
        match self.buffer_map.remove(&buffer_id) {
            Some(buffer) => match self.graphics_translator.destroy_buffer(buffer.vulkan_id) {
                Ok(()) => Ok(()),
                Err(e) => Err(DXVKError::Graphics(e)),
            },
            None => Ok(()),
        }
    }

    /// Destroys a sampler; the graphics translator is asked to destroy the
    /// shader numbered as the sampler's Vulkan id.
    pub fn destroy_sampler(&mut self, sampler_id: u32) -> (r: Result<(), DXVKError>)
        ensures
            r is Ok,
            final(self).samplers() == old(self).samplers().remove(sampler_id),
            final(self).textures() == old(self).textures(),
            final(self).buffers() == old(self).buffers(),
            final(self).pipelines() == old(self).pipelines(),
            final(self).state() == old(self).state(),
            old(self).samplers().contains_key(sampler_id) ==> final(self).graphics().shaders()
                == old(self).graphics().shaders().remove(old(self).samplers()[sampler_id].vulkan_id)
                && final(self).graphics().only_shaders_changed(&old(self).graphics()),
            !old(self).samplers().contains_key(sampler_id) ==> final(self).graphics().unchanged(
                &old(self).graphics(),
            ),
    {
        match self.sampler_map.remove(&sampler_id) {
            Some(sampler) => match self.graphics_translator.destroy_shader(sampler.vulkan_id) {
                Ok(()) => Ok(()),
                Err(e) => Err(DXVKError::Graphics(e)),
            },
            None => Ok(()),
        }
    }

    /// Destroys a pipeline and the Vulkan pipeline of the same number.
    pub fn destroy_pipeline(&mut self, pipeline_id: u32) -> (r: Result<(), DXVKError>)
        ensures
            r is Ok,
            final(self).pipelines() == old(self).pipelines().remove(pipeline_id as u64),
            final(self).textures() == old(self).textures(),
            final(self).buffers() == old(self).buffers(),
            final(self).samplers() == old(self).samplers(),
            final(self).state() == old(self).state(),
            old(self).pipelines().contains_key(pipeline_id as u64) ==> final(self).graphics().pipelines() == old(self).graphics().pipelines().remove(pipeline_id as u64)
                && final(self).graphics().only_pipelines_changed(&old(self).graphics()),
            !old(self).pipelines().contains_key(pipeline_id as u64) ==> final(self).graphics().unchanged(&old(self).graphics()),
    {
        let pipeline_key = pipeline_id as u64;
        match self.pipeline_state_cache.remove(&pipeline_key) {
            Some(_) => match self.graphics_translator.destroy_pipeline(pipeline_id) {
                Ok(()) => Ok(()),
                Err(e) => Err(DXVKError::Graphics(e)),
            },
            None => Ok(()),
        }
    }

    /// Gets texture information
    pub fn get_texture_info(&self, texture_id: u32) -> (r: Option<&DXVKTexture>)
        ensures
            match r {
                Some(t) => self.textures().contains_key(texture_id) && *t == self.textures()[texture_id],
                None => !self.textures().contains_key(texture_id),
            },
    {
        self.texture_map.get(&texture_id)
    }

    /// Gets buffer information
    pub fn get_buffer_info(&self, buffer_id: u32) -> (r: Option<&DXVKBuffer>)
        ensures
            match r {
                Some(b) => self.buffers().contains_key(buffer_id) && *b == self.buffers()[buffer_id],
                None => !self.buffers().contains_key(buffer_id),
            },
    {
        self.buffer_map.get(&buffer_id)
    }

    /// Gets sampler information
    pub fn get_sampler_info(&self, sampler_id: u32) -> (r: Option<&DXVKSampler>)
        ensures
            match r {
                Some(s) => self.samplers().contains_key(sampler_id) && *s == self.samplers()[sampler_id],
                None => !self.samplers().contains_key(sampler_id),
            },
    {
        self.sampler_map.get(&sampler_id)
    }

    /// Gets pipeline information
    pub fn get_pipeline_info(&self, pipeline_id: u32) -> (r: Option<&DXVKPipelineState>)
        ensures
            match r {
                Some(p) => self.pipelines().contains_key(pipeline_id as u64) && *p == self.pipelines()[pipeline_id as u64],
                None => !self.pipelines().contains_key(pipeline_id as u64),
            },
    {
        let pipeline_key = pipeline_id as u64;
        self.pipeline_state_cache.get(&pipeline_key)
    }

    /// Gets current state
    pub fn get_current_state(&self) -> (r: &DXVKState)
        ensures
            *r == self.state(),
    {
        &self.current_state
    }

    /// Gets statistics
    pub fn get_stats(&self) -> (r: DXVKStats)
        ensures
            r.texture_count == self.textures().len(),
            r.buffer_count == self.buffers().len(),
            r.sampler_count == self.samplers().len(),
            r.pipeline_count == self.pipelines().len(),
            r.graphics_stats.texture_count == self.graphics().textures().len(),
            r.graphics_stats.buffer_count == self.graphics().buffers().len(),
            r.graphics_stats.shader_count == self.graphics().shaders().len(),
            r.graphics_stats.pipeline_count == self.graphics().pipelines().len(),
            r.graphics_stats.vulkan_initialized == self.graphics().instance_created(),
            r.graphics_stats.device_initialized == self.graphics().device_created(),
    {
        let graphics_stats = self.graphics_translator.get_stats();
        DXVKStats {
            texture_count: self.texture_map.len(),
            buffer_count: self.buffer_map.len(),
            sampler_count: self.sampler_map.len(),
            pipeline_count: self.pipeline_state_cache.len(),
            graphics_stats,
        }
    }
}

/// A pipeline keeps the state it recorded when it was created: changes of
/// the current state made afterwards (each of which changes only the current
/// state) leave the recorded pipeline as it was.
pub proof fn law_pipeline_keeps_recorded_state(
    t0: DXVKTranslator,
    t1: DXVKTranslator,
    t2: DXVKTranslator,
    id: u64,
)
    requires
        t1.pipelines().contains_key(id),
        recorded_pipeline(t1.pipelines()[id], t0.state()),
        t2.only_state_changed(&t1),
    ensures
        t2.pipelines().contains_key(id),
        t2.pipelines()[id] == t1.pipelines()[id],
        recorded_pipeline(t2.pipelines()[id], t0.state()),
{
}

} // verus!
