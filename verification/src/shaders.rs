use vstd::prelude::*;

use crate::vertex_format::VertexFormat;

verus! {

/// One attribute of the per-instance input layout, as shader reflection
/// reports it.
#[derive(Clone, Copy, Debug, PartialEq, Eq, Hash, Structural)]
pub struct InputElement {
    pub format: VertexFormat,
}

/// The per-instance input contract a compiled shader declares: the byte
/// stride of one instance's data and the attributes that live inside it.
pub struct PerInstanceInput {
    pub stride: usize,
    pub elements: Vec<InputElement>,
}

/// Reflection data of a compiled shader, consumed as an opaque
/// descriptor: this crate only reads the per-instance input contract.
pub struct ReflectedShader {
    pub per_instance_input: PerInstanceInput,
}

/// A shader as the material layer sees it: its identity plus its
/// reflection data.
pub struct Shader {
    pub id: u64,
    pub reflected_shader: ReflectedShader,
}

pub ghost struct ShaderView {
    pub id: u64,
    pub stride: usize,
    pub elements: Seq<InputElement>,
}

impl View for Shader {
    type V = ShaderView;

    open spec fn view(&self) -> ShaderView {
        ShaderView {
            id: self.id,
            stride: self.reflected_shader.per_instance_input.stride,
            elements: self.reflected_shader.per_instance_input.elements@,
        }
    }
}

/// A copying helper for vectors of plain values.
pub(crate) fn clone_copy_vec<T: Copy>(v: &Vec<T>) -> (r: Vec<T>)
    ensures
        r@ == v@,
{
    let mut out: Vec<T> = Vec::new();
    let n = v.len();
    let mut i: usize = 0;
    while i < n
        invariant
            i <= n,
            n == v@.len(),
            out@ =~= v@.subrange(0, i as int),
        decreases n - i,
    {
        out.push(v[i]);
        proof {
            assert(out@ =~= v@.subrange(0, i as int + 1));
        }
        i = i + 1;
    }
    proof {
        assert(out@ =~= v@);
    }
    out
}

impl Clone for Shader {
    fn clone(&self) -> (r: Self)
        ensures
            r@ == self@,
    {
        Shader {
            id: self.id,
            reflected_shader: ReflectedShader {
                per_instance_input: PerInstanceInput {
                    stride: self.reflected_shader.per_instance_input.stride,
                    elements: clone_copy_vec(&self.reflected_shader.per_instance_input.elements),
                },
            },
        }
    }
}

/// Registry of the shaders whose assets have finished loading. A
/// renderable whose shader is not here yet is simply skipped this frame.
pub struct ShaderManager {
    pub shaders: Vec<Shader>,
}

impl ShaderManager {
    pub open spec fn spec_has(&self, shader_id: u64) -> bool {
        exists|i: int| 0 <= i < self.shaders@.len() && (#[trigger] self.shaders@[i])@.id == shader_id
    }

    pub fn new() -> (r: Self)
        ensures
            r.shaders@.len() == 0,
    {
        ShaderManager { shaders: Vec::new() }
    }

    /// Makes a loaded shader available for pipeline resolution.
    pub fn register(&mut self, shader: Shader)
        ensures
            final(self).shaders@ == old(self).shaders@.push(shader),
            final(self).spec_has(shader@.id),
            forall|id: u64| old(self).spec_has(id) ==> final(self).spec_has(id),
    {
        let ghost pre = self.shaders@;
        self.shaders.push(shader);
        proof {
            assert(self.shaders@[pre.len() as int]@.id == shader@.id);
            assert forall|id: u64| old(self).spec_has(id) implies self.spec_has(id) by {
                let i = choose|i: int|
                    0 <= i < pre.len() && (#[trigger] pre[i])@.id == id;
                assert(self.shaders@[i]@.id == id);
            }
        }
    }

    /// Whether the shader with this identity has been registered.
    pub fn has_shader(&self, shader_id: u64) -> (r: bool)
        ensures
            r == self.spec_has(shader_id),
    {
        let n = self.shaders.len();
        let mut i: usize = 0;
        while i < n
            invariant
                i <= n,
                n == self.shaders@.len(),
                forall|j: int| 0 <= j < i ==> (#[trigger] self.shaders@[j])@.id != shader_id,
            decreases n - i,
        {
            if self.shaders[i].id == shader_id {
                return true;
            }
            i = i + 1;
        }
        false
    }
}

} // verus!
