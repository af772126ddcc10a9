use vstd::prelude::*;

verus! {

/// Data format of one vertex attribute, as shader reflection reports it.
/// Only the byte size of a format matters to this crate: it decides how
/// many bytes a semantic input or a property override occupies inside the
/// per-instance stride.
#[derive(Clone, Copy, Debug, PartialEq, Eq, Hash, Structural)]
pub enum VertexFormat {
    Uint8x4,
    Uint32,
    Sint32,
    Float32,
    Float32x2,
    Float32x3,
    Float32x4,
}

impl VertexFormat {
    /// Byte size of one value of this format.
    pub open spec fn spec_size(self) -> usize {
        match self {
            VertexFormat::Uint8x4 => 4,
            VertexFormat::Uint32 => 4,
            VertexFormat::Sint32 => 4,
            VertexFormat::Float32 => 4,
            VertexFormat::Float32x2 => 8,
            VertexFormat::Float32x3 => 12,
            VertexFormat::Float32x4 => 16,
        }
    }

    #[verifier::when_used_as_spec(spec_size)]
    pub fn size(self) -> (r: usize)
        ensures
            r == self.spec_size(),
    {
        match self {
            VertexFormat::Uint8x4 => 4,
            VertexFormat::Uint32 => 4,
            VertexFormat::Sint32 => 4,
            VertexFormat::Float32 => 4,
            VertexFormat::Float32x2 => 8,
            VertexFormat::Float32x3 => 12,
            VertexFormat::Float32x4 => 16,
        }
    }
}

/// Whether a vertex attribute advances per vertex or per drawn instance.
#[derive(Clone, Copy, Debug, PartialEq, Eq, Hash, Structural)]
pub enum VertexStepMode {
    Vertex,
    Instance,
}

/// Depth/stencil configuration that is part of a pipeline's identity.
#[derive(Clone, Copy, Debug, PartialEq, Eq, Hash, Structural)]
pub enum DepthStencilMode {
    Disabled,
    DepthOnly,
    DepthStencil,
}

} // verus!
