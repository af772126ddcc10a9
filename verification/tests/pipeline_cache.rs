use render_core::materials::{Material, SemanticInputData, SemanticKey};
use render_core::pipelines::{PipelineCache, PipelineKey, PipelineProvider};
use render_core::shaders::{InputElement, PerInstanceInput, ReflectedShader, Shader, ShaderManager};
use render_core::vertex_format::{DepthStencilMode, VertexFormat, VertexStepMode};

fn test_shader(id: u64, stride: usize, formats: &[VertexFormat]) -> Shader {
    let mut elements = Vec::new();
    for f in formats {
        elements.push(InputElement { format: *f });
    }
    Shader {
        id,
        reflected_shader: ReflectedShader {
            per_instance_input: PerInstanceInput { stride, elements },
        },
    }
}

fn bare_material(shader: Shader) -> Material {
    Material {
        shader,
        bind_group_holders: Vec::new(),
        semantic_inputs: Vec::new(),
        per_instance_properties: Vec::new(),
    }
}

#[test]
fn lookup_or_compile_is_idempotent() {
    let mut cache = PipelineCache::new();
    let key = PipelineKey {
        shader_id: 7,
        vertex_layout_id: 3,
        depth_stencil: DepthStencilMode::DepthOnly,
    };
    let p1 = cache.lookup_or_compile(key);
    let p2 = cache.lookup_or_compile(key);
    assert_eq!(p1, p2);
    assert_eq!(cache.compile_count(), 1);
    assert_eq!(cache.lookup(key), Some(p1));
}

#[test]
fn distinct_keys_compile_distinct_pipelines() {
    let mut cache = PipelineCache::new();
    let key1 = PipelineKey {
        shader_id: 1,
        vertex_layout_id: 0,
        depth_stencil: DepthStencilMode::Disabled,
    };
    let key2 = PipelineKey {
        shader_id: 1,
        vertex_layout_id: 0,
        depth_stencil: DepthStencilMode::DepthStencil,
    };
    let p1 = cache.lookup_or_compile(key1);
    let p2 = cache.lookup_or_compile(key2);
    assert_ne!(p1.pipeline_id, p2.pipeline_id);
    assert_eq!(cache.compile_count(), 2);
}

#[test]
fn two_renderables_share_one_compilation() {
    let mut shader_mgr = ShaderManager::new();
    shader_mgr.register(test_shader(5, 0, &[]));

    let mut provider_a = PipelineProvider::new(11, DepthStencilMode::DepthOnly);
    provider_a.set_shader(5);
    provider_a.set_material(bare_material(test_shader(5, 0, &[])));

    let mut provider_b = PipelineProvider::new(11, DepthStencilMode::DepthOnly);
    provider_b.set_shader(5);
    provider_b.set_material(bare_material(test_shader(5, 0, &[])));

    let mut cache = PipelineCache::new();
    let p1 = cache.obtain_pipeline(&provider_a, &shader_mgr).unwrap();
    let p2 = cache.obtain_pipeline(&provider_b, &shader_mgr).unwrap();
    assert_eq!(p1, p2);
    assert_eq!(cache.compile_count(), 1);
}

#[test]
fn obtain_pipeline_is_none_until_ready() {
    let shader_mgr = ShaderManager::new();
    let mut cache = PipelineCache::new();

    // no shader yet
    let mut provider = PipelineProvider::new(0, DepthStencilMode::DepthOnly);
    assert!(cache.obtain_pipeline(&provider, &shader_mgr).is_none());

    // shader set but not registered
    provider.set_shader(9);
    assert!(cache.obtain_pipeline(&provider, &shader_mgr).is_none());

    // registered but material still missing
    let mut shader_mgr = ShaderManager::new();
    shader_mgr.register(test_shader(9, 0, &[]));
    assert!(cache.obtain_pipeline(&provider, &shader_mgr).is_none());
    assert_eq!(cache.compile_count(), 0);

    // fully ready
    provider.set_material(bare_material(test_shader(9, 0, &[])));
    assert!(cache.obtain_pipeline(&provider, &shader_mgr).is_some());
    assert_eq!(cache.compile_count(), 1);
}

#[test]
fn invalidate_evicts_one_key() {
    let mut cache = PipelineCache::new();
    let key1 = PipelineKey {
        shader_id: 1,
        vertex_layout_id: 0,
        depth_stencil: DepthStencilMode::Disabled,
    };
    let key2 = PipelineKey {
        shader_id: 2,
        vertex_layout_id: 0,
        depth_stencil: DepthStencilMode::Disabled,
    };
    let p1 = cache.lookup_or_compile(key1);
    let p2 = cache.lookup_or_compile(key2);
    cache.invalidate(key1);
    assert_eq!(cache.lookup(key1), None);
    assert_eq!(cache.lookup(key2), Some(p2));
    let p1b = cache.lookup_or_compile(key1);
    assert_ne!(p1.pipeline_id, p1b.pipeline_id);
    assert_eq!(cache.compile_count(), 3);
}

#[test]
fn well_formed_accepts_a_valid_layout() {
    let mut m = bare_material(test_shader(1, 32, &[VertexFormat::Float32x4]));
    m.semantic_inputs.push((
        SemanticKey::TransformRow0,
        SemanticInputData { step_mode: VertexStepMode::Instance, index: 0, offset: 0 },
    ));
    assert!(m.well_formed());
}

#[test]
fn well_formed_rejects_overlap_and_overflow() {
    // two instance windows that overlap
    let mut m = bare_material(test_shader(
        1,
        32,
        &[VertexFormat::Float32x4, VertexFormat::Float32x4],
    ));
    m.semantic_inputs.push((
        SemanticKey::TransformRow0,
        SemanticInputData { step_mode: VertexStepMode::Instance, index: 0, offset: 0 },
    ));
    m.semantic_inputs.push((
        SemanticKey::TransformRow1,
        SemanticInputData { step_mode: VertexStepMode::Instance, index: 1, offset: 8 },
    ));
    assert!(!m.well_formed());

    // a window that runs past the stride
    let mut m = bare_material(test_shader(1, 8, &[VertexFormat::Float32x4]));
    m.semantic_inputs.push((
        SemanticKey::Custom(1),
        SemanticInputData { step_mode: VertexStepMode::Instance, index: 0, offset: 0 },
    ));
    assert!(!m.well_formed());

    // the same semantic key declared twice
    let mut m = bare_material(test_shader(
        1,
        64,
        &[VertexFormat::Float32x4, VertexFormat::Float32x4],
    ));
    m.semantic_inputs.push((
        SemanticKey::TransformRow0,
        SemanticInputData { step_mode: VertexStepMode::Instance, index: 0, offset: 0 },
    ));
    m.semantic_inputs.push((
        SemanticKey::TransformRow0,
        SemanticInputData { step_mode: VertexStepMode::Instance, index: 1, offset: 16 },
    ));
    assert!(!m.well_formed());
}
