use render_core::buffers::{DeviceBuffer, GenericBufferAllocation, HostBuffer};
use render_core::buffer_pool::GenericBufferPool;
use render_core::commands::{
    build_rendering_command, Matrix, ObjectHierarchy, PassOp, Renderer, RenderPass,
};
use render_core::frame_allocator::FrameBufferAllocator;
use render_core::materials::{
    BindGroupHolder, Material, MaterialProperty, PropertyValue, SemanticInputData, SemanticKey,
};
use render_core::pipelines::{PipelineCache, PipelineProvider};
use render_core::shaders::{InputElement, PerInstanceInput, ReflectedShader, Shader, ShaderManager};
use render_core::vertex_format::{DepthStencilMode, VertexFormat, VertexStepMode};

struct TestRenderer {
    provider: PipelineProvider,
    vertex_count: u32,
    custom_fill: u8,
}

impl Renderer for TestRenderer {
    fn pipeline_provider(&self) -> &PipelineProvider {
        &self.provider
    }

    fn vertex_count(&self) -> u32 {
        self.vertex_count
    }

    fn vertex_buffers(&self) -> Vec<GenericBufferAllocation<DeviceBuffer>> {
        Vec::new()
    }

    fn copy_semantic_per_instance_input(
        &mut self,
        _key: SemanticKey,
        frame_buffer_allocator: &mut FrameBufferAllocator,
        allocation: &GenericBufferAllocation<HostBuffer>,
    ) {
        let bytes = vec![self.custom_fill; allocation.size()];
        frame_buffer_allocator
            .copy_from_slice(allocation, &bytes)
            .unwrap();
    }
}

fn identity_rows() -> Vec<Vec<u8>> {
    let mut rows = Vec::new();
    for r in 0..4usize {
        let mut row = Vec::new();
        for c in 0..4usize {
            let v: f32 = if r == c { 1.0 } else { 0.0 };
            row.extend_from_slice(&v.to_le_bytes());
        }
        rows.push(row);
    }
    rows
}

fn transform_shader() -> Shader {
    Shader {
        id: 1,
        reflected_shader: ReflectedShader {
            per_instance_input: PerInstanceInput {
                stride: 64,
                elements: vec![
                    InputElement { format: VertexFormat::Float32x4 },
                    InputElement { format: VertexFormat::Float32x4 },
                    InputElement { format: VertexFormat::Float32x4 },
                    InputElement { format: VertexFormat::Float32x4 },
                ],
            },
        },
    }
}

fn transform_material() -> Material {
    Material {
        shader: transform_shader(),
        bind_group_holders: vec![
            BindGroupHolder { group: 0, bind_group: Some(40) },
            BindGroupHolder { group: 1, bind_group: None },
            BindGroupHolder { group: 2, bind_group: Some(42) },
        ],
        semantic_inputs: vec![
            (
                SemanticKey::TransformRow0,
                SemanticInputData { step_mode: VertexStepMode::Instance, index: 0, offset: 0 },
            ),
            (
                SemanticKey::TransformRow1,
                SemanticInputData { step_mode: VertexStepMode::Instance, index: 1, offset: 16 },
            ),
            (
                SemanticKey::TransformRow2,
                SemanticInputData { step_mode: VertexStepMode::Instance, index: 2, offset: 32 },
            ),
            (
                SemanticKey::TransformRow3,
                SemanticInputData { step_mode: VertexStepMode::Instance, index: 3, offset: 48 },
            ),
        ],
        per_instance_properties: Vec::new(),
    }
}

fn scene() -> (ObjectHierarchy, ShaderManager, PipelineCache, FrameBufferAllocator) {
    let mut hierarchy = ObjectHierarchy::new();
    hierarchy.set_matrix(7, Matrix { rows: identity_rows() });
    let mut shader_mgr = ShaderManager::new();
    shader_mgr.register(transform_shader());
    let cache = PipelineCache::new();
    let fba = FrameBufferAllocator::new(GenericBufferPool::new());
    (hierarchy, shader_mgr, cache, fba)
}

#[test]
fn build_skips_renderable_until_material_loads() {
    let (hierarchy, shader_mgr, mut cache, mut fba) = scene();
    let mut renderer = TestRenderer {
        provider: PipelineProvider::new(0, DepthStencilMode::DepthOnly),
        vertex_count: 3,
        custom_fill: 0,
    };
    renderer.provider.set_shader(1);

    // material still loading: no command, nothing allocated or compiled
    let none = build_rendering_command(
        7, &hierarchy, &mut renderer, &shader_mgr, &mut cache, &mut fba,
    );
    assert!(none.is_none());
    assert_eq!(cache.compile_count(), 0);
    assert_eq!(fba.pool().allocation_count(), 0);

    // once it is available, a full command appears
    renderer.provider.set_material(transform_material());
    let cmd = build_rendering_command(
        7, &hierarchy, &mut renderer, &shader_mgr, &mut cache, &mut fba,
    )
    .unwrap();
    assert_eq!(cmd.vertex_count, 3);
    assert!(cmd.per_instance_buffer.is_some());
    assert_eq!(cache.compile_count(), 1);
}

#[test]
fn identity_transform_fills_instance_region_row_by_row() {
    let (hierarchy, shader_mgr, mut cache, mut fba) = scene();
    let mut renderer = TestRenderer {
        provider: PipelineProvider::new(0, DepthStencilMode::DepthOnly),
        vertex_count: 3,
        custom_fill: 0,
    };
    renderer.provider.set_shader(1);
    renderer.provider.set_material(transform_material());

    let cmd = build_rendering_command(
        7, &hierarchy, &mut renderer, &shader_mgr, &mut cache, &mut fba,
    )
    .unwrap();
    let buffer = cmd.per_instance_buffer.as_ref().unwrap();
    assert_eq!(buffer.offset(), 0);
    assert_eq!(buffer.size(), 64);

    let mut expected = Vec::new();
    for row in identity_rows() {
        expected.extend_from_slice(&row);
    }
    assert_eq!(&buffer.buffer().contents()[0..64], expected.as_slice());
}

#[test]
fn custom_semantics_and_properties_land_in_their_windows() {
    let (hierarchy, shader_mgr, mut cache, mut fba) = scene();
    let mut material = transform_material();
    material.shader.reflected_shader.per_instance_input.stride = 96;
    material
        .shader
        .reflected_shader
        .per_instance_input
        .elements
        .push(InputElement { format: VertexFormat::Float32x2 });
    material.semantic_inputs.push((
        SemanticKey::Custom(99),
        SemanticInputData { step_mode: VertexStepMode::Instance, index: 4, offset: 64 },
    ));
    material.per_instance_properties.push((
        500,
        MaterialProperty {
            offset: 72,
            value: Some(PropertyValue {
                format: VertexFormat::Uint32,
                bytes: vec![0xAA, 0xBB, 0xCC, 0xDD],
            }),
        },
    ));
    material.per_instance_properties.push((501, MaterialProperty { offset: 76, value: None }));

    let mut renderer = TestRenderer {
        provider: PipelineProvider::new(0, DepthStencilMode::DepthOnly),
        vertex_count: 6,
        custom_fill: 0x5E,
    };
    renderer.provider.set_shader(1);
    renderer.provider.set_material(material);

    let cmd = build_rendering_command(
        7, &hierarchy, &mut renderer, &shader_mgr, &mut cache, &mut fba,
    )
    .unwrap();
    let buffer = cmd.per_instance_buffer.as_ref().unwrap();
    let contents = buffer.buffer().contents();

    // renderer-supplied semantic at [64, 72)
    assert_eq!(&contents[64..72], &[0x5E; 8]);
    // property override at [72, 76)
    assert_eq!(&contents[72..76], &[0xAA, 0xBB, 0xCC, 0xDD]);
    // absent property writes nothing: bytes stay zero
    assert_eq!(&contents[76..96], &[0u8; 20]);
    // transform rows are untouched by the later writes
    assert_eq!(&contents[0..4], &1.0f32.to_le_bytes());
}

#[test]
fn render_records_the_documented_op_sequence() {
    let (hierarchy, shader_mgr, mut cache, mut fba) = scene();
    let mut renderer = TestRenderer {
        provider: PipelineProvider::new(0, DepthStencilMode::DepthOnly),
        vertex_count: 5,
        custom_fill: 0,
    };
    renderer.provider.set_shader(1);
    renderer.provider.set_material(transform_material());

    let cmd = build_rendering_command(
        7, &hierarchy, &mut renderer, &shader_mgr, &mut cache, &mut fba,
    )
    .unwrap();
    let mut pass = RenderPass::new();
    cmd.render(&mut pass);

    let instance = cmd.per_instance_buffer.as_ref().unwrap();
    let expected = vec![
        PassOp::SetPipeline { pipeline_id: cmd.pipeline.pipeline_id },
        PassOp::SetBindGroup { group: 0, bind_group: 40 },
        PassOp::SetBindGroup { group: 2, bind_group: 42 },
        PassOp::SetVertexBuffer {
            slot: 0,
            buffer_id: instance.buffer().id(),
            offset: 0,
            size: 64,
        },
        PassOp::Draw { first_vertex: 0, vertex_count: 5, first_instance: 0, instance_count: 1 },
    ];
    assert_eq!(pass.ops(), &expected);
}

#[test]
fn assembly_leaves_the_rest_of_the_arena_alone() {
    let (hierarchy, shader_mgr, mut cache, mut fba) = scene();

    // an earlier allocation this frame, already written
    let other = fba.alloc_staging_buffer(4);
    let window = fba.slice(&other, 0, 4).unwrap();
    fba.copy_from_slice(&window, &vec![1u8, 2, 3, 4]).unwrap();

    let mut renderer = TestRenderer {
        provider: PipelineProvider::new(0, DepthStencilMode::DepthOnly),
        vertex_count: 3,
        custom_fill: 0x77,
    };
    renderer.provider.set_shader(1);
    renderer.provider.set_material(transform_material());
    build_rendering_command(7, &hierarchy, &mut renderer, &shader_mgr, &mut cache, &mut fba)
        .unwrap();

    // the earlier region still holds its bytes
    let committed = fba.commit_staging_buffer(other).unwrap();
    assert_eq!(&committed.buffer().contents()[0..4], &[1u8, 2, 3, 4]);
}

#[test]
fn hierarchy_returns_registered_matrices() {
    let mut hierarchy = ObjectHierarchy::new();
    assert!(!hierarchy.has(3));
    hierarchy.set_matrix(3, Matrix { rows: identity_rows() });
    assert!(hierarchy.has(3));
    let m = hierarchy.matrix(3);
    assert_eq!(m.row(0)[0..4], 1.0f32.to_le_bytes());
    assert_eq!(m.row(3)[12..16], 1.0f32.to_le_bytes());
}
