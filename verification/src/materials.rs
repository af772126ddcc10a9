use vstd::prelude::*;

use crate::buffers::MAX_BUFFER_SIZE;
use crate::shaders::{clone_copy_vec, Shader, ShaderView};
use crate::vertex_format::{VertexFormat, VertexStepMode};

verus! {

/// Identifier of a per-instance data slot. The four transform-row keys
/// are the semantics this crate always knows how to populate from the
/// object's world matrix; every other semantic is engine- or
/// game-defined and is delegated back to the renderer.
#[derive(Clone, Copy, Debug, PartialEq, Eq, Hash, Structural)]
pub enum SemanticKey {
    TransformRow0,
    TransformRow1,
    TransformRow2,
    TransformRow3,
    Custom(u64),
}

impl SemanticKey {
    pub open spec fn is_transform_row(self) -> bool {
        self == SemanticKey::TransformRow0 || self == SemanticKey::TransformRow1 || self
            == SemanticKey::TransformRow2 || self == SemanticKey::TransformRow3
    }

    /// Which world-matrix row a transform-row key selects.
    pub open spec fn spec_row_index(self) -> int {
        match self {
            SemanticKey::TransformRow0 => 0,
            SemanticKey::TransformRow1 => 1,
            SemanticKey::TransformRow2 => 2,
            SemanticKey::TransformRow3 => 3,
            SemanticKey::Custom(_) => 0,
        }
    }
}

/// Where one semantic input lives: its step mode, the index of its
/// attribute in the shader's per-instance input layout, and its byte
/// offset inside the per-instance stride.
#[derive(Clone, Copy, Debug, PartialEq, Eq, Hash, Structural)]
pub struct SemanticInputData {
    pub step_mode: VertexStepMode,
    pub index: usize,
    pub offset: usize,
}

/// Identifier of a material property override.
pub type PropertyId = u64;

/// A value for a material property, already serialized into the bytes of
/// its declared vertex format.
pub struct PropertyValue {
    pub format: VertexFormat,
    pub bytes: Vec<u8>,
}

pub ghost struct PropertyValueView {
    pub format: VertexFormat,
    pub bytes: Seq<u8>,
}

impl View for PropertyValue {
    type V = PropertyValueView;

    open spec fn view(&self) -> PropertyValueView {
        PropertyValueView { format: self.format, bytes: self.bytes@ }
    }
}

impl Clone for PropertyValue {
    fn clone(&self) -> (r: Self)
        ensures
            r@ == self@,
    {
        PropertyValue { format: self.format, bytes: clone_copy_vec(&self.bytes) }
    }
}

/// A per-instance material property: a byte offset inside the stride,
/// and the override value if one has been set.
pub struct MaterialProperty {
    pub offset: usize,
    pub value: Option<PropertyValue>,
}

pub ghost struct MaterialPropertyView {
    pub offset: usize,
    pub value: Option<PropertyValueView>,
}

impl View for MaterialProperty {
    type V = MaterialPropertyView;

    open spec fn view(&self) -> MaterialPropertyView {
        MaterialPropertyView {
            offset: self.offset,
            value: match self.value {
                Option::Some(v) => Option::Some(v@),
                Option::None => Option::None,
            },
        }
    }
}

impl Clone for MaterialProperty {
    fn clone(&self) -> (r: Self)
        ensures
            r@ == self@,
    {
        MaterialProperty {
            offset: self.offset,
            value: match &self.value {
                Some(v) => Some(v.clone()),
                None => None,
            },
        }
    }
}

/// One binding-group slot of a material: the group index the shader
/// declares, and the compiled bind group once its resources (textures,
/// samplers, buffers) have finished loading.
#[derive(Clone, Copy, Debug)]
pub struct BindGroupHolder {
    pub group: u32,
    pub bind_group: Option<u64>,
}

/// A material: the shader it renders with, its binding-group slots, the
/// semantic inputs it declares, and its per-instance property overrides.
/// One material is shared by every renderable drawn with it.
pub struct Material {
    pub shader: Shader,
    pub bind_group_holders: Vec<BindGroupHolder>,
    pub semantic_inputs: Vec<(SemanticKey, SemanticInputData)>,
    pub per_instance_properties: Vec<(PropertyId, MaterialProperty)>,
}

pub ghost struct MaterialView {
    pub shader: ShaderView,
    pub bind_group_holders: Seq<BindGroupHolder>,
    pub semantic_inputs: Seq<(SemanticKey, SemanticInputData)>,
    pub per_instance_properties: Seq<(PropertyId, MaterialPropertyView)>,
}

impl View for Material {
    type V = MaterialView;

    open spec fn view(&self) -> MaterialView {
        MaterialView {
            shader: self.shader@,
            bind_group_holders: self.bind_group_holders@,
            semantic_inputs: self.semantic_inputs@,
            per_instance_properties: Seq::new(
                self.per_instance_properties@.len(),
                |i: int|
                    (
                        self.per_instance_properties@[i].0,
                        self.per_instance_properties@[i].1@,
                    ),
            ),
        }
    }
}

impl Clone for Material {
    fn clone(&self) -> (r: Self)
        ensures
            r@ == self@,
    {
        let mut props: Vec<(PropertyId, MaterialProperty)> = Vec::new();
        let n = self.per_instance_properties.len();
        let mut i: usize = 0;
        while i < n
            invariant
                i <= n,
                n == self.per_instance_properties@.len(),
                props@.len() == i,
                forall|j: int|
                    0 <= j < i ==> (#[trigger] props@[j]).0 == self.per_instance_properties@[j].0
                        && props@[j].1@ == self.per_instance_properties@[j].1@,
            decreases n - i,
        {
            let (id, p) = &self.per_instance_properties[i];
            props.push((*id, p.clone()));
            i = i + 1;
        }
        let r = Material {
            shader: self.shader.clone(),
            bind_group_holders: clone_copy_vec(&self.bind_group_holders),
            semantic_inputs: clone_copy_vec(&self.semantic_inputs),
            per_instance_properties: props,
        };
        proof {
            assert(r@.per_instance_properties =~= self@.per_instance_properties);
        }
        r
    }
}

/// The windows, relative to the start of one instance's data, that a
/// material's declarations write. Entry `k` of the semantic inputs
/// writes `[sem_lo, sem_hi)` when it steps per instance; property `k`
/// writes `[prop_lo, prop_hi)` when it has a value.
pub open spec fn sem_active(m: MaterialView, k: int) -> bool {
    0 <= k < m.semantic_inputs.len() && m.semantic_inputs[k].1.step_mode == VertexStepMode::Instance
}

pub open spec fn sem_lo(m: MaterialView, k: int) -> int {
    m.semantic_inputs[k].1.offset as int
}

pub open spec fn sem_size(m: MaterialView, k: int) -> int {
    m.shader.elements[m.semantic_inputs[k].1.index as int].format.spec_size() as int
}

pub open spec fn sem_hi(m: MaterialView, k: int) -> int {
    sem_lo(m, k) + sem_size(m, k)
}

pub open spec fn prop_active(m: MaterialView, k: int) -> bool {
    0 <= k < m.per_instance_properties.len() && m.per_instance_properties[k].1.value.is_some()
}

pub open spec fn prop_lo(m: MaterialView, k: int) -> int {
    m.per_instance_properties[k].1.offset as int
}

pub open spec fn prop_hi(m: MaterialView, k: int) -> int {
    prop_lo(m, k) + m.per_instance_properties[k].1.value.unwrap().format.spec_size() as int
}

/// Two byte windows do not overlap.
pub open spec fn windows_disjoint(lo1: int, hi1: int, lo2: int, hi2: int) -> bool {
    hi1 <= lo2 || hi2 <= lo1
}

/// Material well-formedness: every declared per-instance window lies
/// inside the shader's per-instance stride, transform rows carry a
/// full four-component row, present property values have the size of
/// their format, declared keys are unique, and no two windows that will
/// be written overlap.
pub open spec fn material_wf(m: MaterialView) -> bool {
    &&& m.shader.stride <= MAX_BUFFER_SIZE
    &&& forall|k: int|
        #[trigger] sem_active(m, k) ==> m.semantic_inputs[k].1.index < m.shader.elements.len() && 0
            <= sem_lo(m, k) && sem_hi(m, k) <= m.shader.stride
    &&& forall|k: int|
        #[trigger] sem_active(m, k) && m.semantic_inputs[k].0.is_transform_row()
            ==> m.shader.elements[m.semantic_inputs[k].1.index as int].format
            == VertexFormat::Float32x4
    &&& forall|k: int|
        #[trigger] prop_active(m, k) ==> m.per_instance_properties[k].1.value.unwrap().bytes.len()
            == m.per_instance_properties[k].1.value.unwrap().format.spec_size() && 0 <= prop_lo(
            m,
            k,
        ) && prop_hi(m, k) <= m.shader.stride
    &&& forall|k1: int, k2: int|
        #[trigger] sem_active(m, k1) && #[trigger] sem_active(m, k2) && k1 != k2
            ==> windows_disjoint(sem_lo(m, k1), sem_hi(m, k1), sem_lo(m, k2), sem_hi(m, k2))
    &&& forall|k1: int, k2: int|
        #[trigger] sem_active(m, k1) && #[trigger] prop_active(m, k2) ==> windows_disjoint(
            sem_lo(m, k1),
            sem_hi(m, k1),
            prop_lo(m, k2),
            prop_hi(m, k2),
        )
    &&& forall|k1: int, k2: int|
        #[trigger] prop_active(m, k1) && #[trigger] prop_active(m, k2) && k1 != k2
            ==> windows_disjoint(prop_lo(m, k1), prop_hi(m, k1), prop_lo(m, k2), prop_hi(m, k2))
    &&& forall|k1: int, k2: int|
        0 <= k1 < m.semantic_inputs.len() && 0 <= k2 < m.semantic_inputs.len() && k1 != k2 ==> (
        #[trigger] m.semantic_inputs[k1]).0 != (#[trigger] m.semantic_inputs[k2]).0
    &&& forall|k1: int, k2: int|
        0 <= k1 < m.per_instance_properties.len() && 0 <= k2 < m.per_instance_properties.len() && k1
            != k2 ==> (#[trigger] m.per_instance_properties[k1]).0 != (
        #[trigger] m.per_instance_properties[k2]).0
}

impl Material {
    /// The per-instance stride the material's shader declares.
    pub fn stride(&self) -> (r: usize)
        ensures
            r == self@.shader.stride,
    {
        self.shader.reflected_shader.per_instance_input.stride
    }

    /// Decides the material invariant at run time, so that an embedding
    /// can refuse an ill-formed material before handing it to command
    /// assembly.
    #[verifier::rlimit(100)]
    pub fn well_formed(&self) -> (r: bool)
        ensures
            r == material_wf(self@),
    {
        let ghost m = self@;
        let stride = self.shader.reflected_shader.per_instance_input.stride;
        if stride > MAX_BUFFER_SIZE {
            return false;
        }
        let ne = self.shader.reflected_shader.per_instance_input.elements.len();
        let ns = self.semantic_inputs.len();
        let np = self.per_instance_properties.len();

        let mut k: usize = 0;
        while k < ns
            invariant
                k <= ns,
                m == self@,
                ns == m.semantic_inputs.len(),
                ne == m.shader.elements.len(),
                stride == m.shader.stride,
                forall|a: int|
                    0 <= a < k && #[trigger] sem_active(m, a) ==> m.semantic_inputs[a].1.index < ne
                        && sem_hi(m, a) <= stride,
                forall|a: int|
                    0 <= a < k && #[trigger] sem_active(m, a)
                        && m.semantic_inputs[a].0.is_transform_row()
                        ==> m.shader.elements[m.semantic_inputs[a].1.index as int].format
                        == VertexFormat::Float32x4,
            decreases ns - k,
        {
            let (key, data) = self.semantic_inputs[k];
            if data.step_mode == VertexStepMode::Instance {
                proof {
                    assert(sem_active(m, k as int));
                }
                if data.index >= ne {
                    return false;
                }
                let fmt =
                    self.shader.reflected_shader.per_instance_input.elements[data.index].format;
                let fmt_size = fmt.size();
                if data.offset > stride || fmt_size > stride - data.offset {
                    return false;
                }
                let is_row = match key {
                    SemanticKey::Custom(_) => false,
                    _ => true,
                };
                if is_row && fmt != VertexFormat::Float32x4 {
                    return false;
                }
            }
            k = k + 1;
        }

        let mut k: usize = 0;
        while k < np
            invariant
                k <= np,
                m == self@,
                np == m.per_instance_properties.len(),
                stride == m.shader.stride,
                forall|a: int|
                    0 <= a < k && #[trigger] prop_active(m, a)
                        ==> m.per_instance_properties[a].1.value.unwrap().bytes.len()
                        == m.per_instance_properties[a].1.value.unwrap().format.spec_size()
                        && prop_hi(m, a) <= stride,
            decreases np - k,
        {
            let prop = &self.per_instance_properties[k].1;
            match &prop.value {
                Some(value) => {
                    proof {
                        assert(prop_active(m, k as int));
                    }
                    let fmt_size = value.format.size();
                    if value.bytes.len() != fmt_size {
                        return false;
                    }
                    if prop.offset > stride || fmt_size > stride - prop.offset {
                        return false;
                    }
                },
                None => {
                    proof {
                        assert(!prop_active(m, k as int));
                    }
                },
            }
            k = k + 1;
        }

        let mut a: usize = 0;
        while a < ns
            invariant
                a <= ns,
                m == self@,
                ns == m.semantic_inputs.len(),
                ne == m.shader.elements.len(),
                stride == m.shader.stride,
                stride <= MAX_BUFFER_SIZE,
                forall|x: int|
                    0 <= x < ns && #[trigger] sem_active(m, x)
                        ==> m.semantic_inputs[x].1.index < m.shader.elements.len() && sem_hi(m, x)
                        <= stride,
                forall|x: int, y: int|
                    0 <= x < a && 0 <= y < ns && x != y && #[trigger] sem_active(m, x) && (
                    #[trigger] sem_active(m, y)) ==> windows_disjoint(
                        sem_lo(m, x),
                        sem_hi(m, x),
                        sem_lo(m, y),
                        sem_hi(m, y),
                    ),
                forall|x: int, y: int|
                    0 <= x < a && 0 <= y < ns && x != y ==> (#[trigger] m.semantic_inputs[x]).0 != (
                    #[trigger] m.semantic_inputs[y]).0,
            decreases ns - a,
        {
            let (key_a, data_a) = self.semantic_inputs[a];
            let mut b: usize = 0;
            while b < ns
                invariant
                    b <= ns,
                    a < ns,
                    m == self@,
                    ns == m.semantic_inputs.len(),
                    ne == m.shader.elements.len(),
                    stride == m.shader.stride,
                    stride <= MAX_BUFFER_SIZE,
                    forall|x: int|
                        0 <= x < ns && #[trigger] sem_active(m, x)
                            ==> m.semantic_inputs[x].1.index < m.shader.elements.len() && sem_hi(m, x)
                            <= stride,
                    key_a == m.semantic_inputs[a as int].0,
                    data_a == m.semantic_inputs[a as int].1,
                    forall|y: int|
                        0 <= y < b && a != y && #[trigger] sem_active(m, y) && sem_active(m, a as int)
                            ==> windows_disjoint(
                            sem_lo(m, a as int),
                            sem_hi(m, a as int),
                            sem_lo(m, y),
                            sem_hi(m, y),
                        ),
                    forall|y: int|
                        0 <= y < b && a != y ==> m.semantic_inputs[a as int].0 != (
                        #[trigger] m.semantic_inputs[y]).0,
                decreases ns - b,
            {
                if b != a {
                    let (key_b, data_b) = self.semantic_inputs[b];
                    if key_a == key_b {
                        return false;
                    }
                    if data_a.step_mode == VertexStepMode::Instance && data_b.step_mode
                        == VertexStepMode::Instance {
                        proof {
                            assert(sem_active(m, a as int));
                            assert(sem_active(m, b as int));
                        }
                        let size_a = self
                            .shader
                            .reflected_shader
                            .per_instance_input
                            .elements[data_a.index]
                            .format
                            .size();
                        let size_b = self
                            .shader
                            .reflected_shader
                            .per_instance_input
                            .elements[data_b.index]
                            .format
                            .size();
                        if !(data_a.offset + size_a <= data_b.offset || data_b.offset + size_b
                            <= data_a.offset) {
                            return false;
                        }
                    }
                }
                b = b + 1;
            }
            a = a + 1;
        }

        let mut a: usize = 0;
        while a < np
            invariant
                a <= np,
                m == self@,
                np == m.per_instance_properties.len(),
                stride == m.shader.stride,
                stride <= MAX_BUFFER_SIZE,
                forall|x: int|
                    0 <= x < np && #[trigger] prop_active(m, x) ==> prop_hi(m, x) <= stride,
                forall|x: int, y: int|
                    0 <= x < a && 0 <= y < np && x != y && #[trigger] prop_active(m, x) && (
                    #[trigger] prop_active(m, y)) ==> windows_disjoint(
                        prop_lo(m, x),
                        prop_hi(m, x),
                        prop_lo(m, y),
                        prop_hi(m, y),
                    ),
                forall|x: int, y: int|
                    0 <= x < a && 0 <= y < np && x != y ==> (
                    #[trigger] m.per_instance_properties[x]).0 != (
                    #[trigger] m.per_instance_properties[y]).0,
            decreases np - a,
        {
            let mut b: usize = 0;
            while b < np
                invariant
                    b <= np,
                    a < np,
                    m == self@,
                    np == m.per_instance_properties.len(),
                    stride == m.shader.stride,
                    stride <= MAX_BUFFER_SIZE,
                    forall|x: int|
                        0 <= x < np && #[trigger] prop_active(m, x) ==> prop_hi(m, x) <= stride,
                    forall|y: int|
                        0 <= y < b && a != y && #[trigger] prop_active(m, y) && prop_active(
                            m,
                            a as int,
                        ) ==> windows_disjoint(
                            prop_lo(m, a as int),
                            prop_hi(m, a as int),
                            prop_lo(m, y),
                            prop_hi(m, y),
                        ),
                    forall|y: int|
                        0 <= y < b && a != y ==> m.per_instance_properties[a as int].0 != (
                        #[trigger] m.per_instance_properties[y]).0,
                decreases np - b,
            {
                if b != a {
                    if self.per_instance_properties[a].0 == self.per_instance_properties[b].0 {
                        proof {
                            assert(m.per_instance_properties[a as int].0
                                == m.per_instance_properties[b as int].0);
                        }
                        return false;
                    }
                    let pa = &self.per_instance_properties[a].1;
                    let pb = &self.per_instance_properties[b].1;
                    match (&pa.value, &pb.value) {
                        (Some(va), Some(vb)) => {
                            proof {
                                assert(prop_active(m, a as int));
                                assert(prop_active(m, b as int));
                            }
                            let size_a = va.format.size();
                            let size_b = vb.format.size();
                            if !(pa.offset + size_a <= pb.offset || pb.offset + size_b
                                <= pa.offset) {
                                return false;
                            }
                        },
                        _ => {},
                    }
                }
                b = b + 1;
            }
            a = a + 1;
        }

        let mut a: usize = 0;
        while a < ns
            invariant
                a <= ns,
                m == self@,
                ns == m.semantic_inputs.len(),
                np == m.per_instance_properties.len(),
                ne == m.shader.elements.len(),
                stride == m.shader.stride,
                stride <= MAX_BUFFER_SIZE,
                forall|x: int|
                    0 <= x < ns && #[trigger] sem_active(m, x)
                        ==> m.semantic_inputs[x].1.index < m.shader.elements.len() && sem_hi(m, x)
                        <= stride,
                forall|x: int|
                    0 <= x < np && #[trigger] prop_active(m, x) ==> prop_hi(m, x) <= stride,
                forall|x: int, y: int|
                    0 <= x < a && 0 <= y < np && #[trigger] sem_active(m, x) && (
                    #[trigger] prop_active(m, y)) ==> windows_disjoint(
                        sem_lo(m, x),
                        sem_hi(m, x),
                        prop_lo(m, y),
                        prop_hi(m, y),
                    ),
            decreases ns - a,
        {
            let (_key_a, data_a) = self.semantic_inputs[a];
            let mut b: usize = 0;
            while b < np
                invariant
                    b <= np,
                    a < ns,
                    m == self@,
                    ns == m.semantic_inputs.len(),
                    np == m.per_instance_properties.len(),
                    ne == m.shader.elements.len(),
                    stride == m.shader.stride,
                    stride <= MAX_BUFFER_SIZE,
                    forall|x: int|
                        0 <= x < ns && #[trigger] sem_active(m, x)
                            ==> m.semantic_inputs[x].1.index < m.shader.elements.len() && sem_hi(m, x)
                            <= stride,
                    forall|x: int|
                        0 <= x < np && #[trigger] prop_active(m, x) ==> prop_hi(m, x) <= stride,
                    data_a == m.semantic_inputs[a as int].1,
                    forall|y: int|
                        0 <= y < b && sem_active(m, a as int) && #[trigger] prop_active(m, y)
                            ==> windows_disjoint(
                            sem_lo(m, a as int),
                            sem_hi(m, a as int),
                            prop_lo(m, y),
                            prop_hi(m, y),
                        ),
                decreases np - b,
            {
                if data_a.step_mode == VertexStepMode::Instance {
                    let pb = &self.per_instance_properties[b].1;
                    match &pb.value {
                        Some(vb) => {
                            proof {
                                assert(sem_active(m, a as int));
                                assert(prop_active(m, b as int));
                            }
                            let size_a = self
                                .shader
                                .reflected_shader
                                .per_instance_input
                                .elements[data_a.index]
                                .format
                                .size();
                            let size_b = vb.format.size();
                            if !(data_a.offset + size_a <= pb.offset || pb.offset + size_b
                                <= data_a.offset) {
                                return false;
                            }
                        },
                        None => {},
                    }
                }
                b = b + 1;
            }
            a = a + 1;
        }

        true
    }
}

} // verus!
