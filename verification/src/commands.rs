use vstd::prelude::*;

use crate::buffers::{DeviceBuffer, GenericBufferAllocation, HostBuffer};
use crate::frame_allocator::{fba_wf, handle_current, FrameBufferAllocator};
use crate::materials::{
    prop_active, prop_hi, prop_lo, sem_active, sem_hi, sem_lo, BindGroupHolder, Material,
    MaterialView, SemanticKey,
};
use crate::pipelines::{
    obtain_post, provider_key, provider_ready, provider_wf, CachedPipeline, PipelineCache,
    PipelineProvider, ProviderView,
};
use crate::shaders::ShaderManager;
use crate::vertex_format::VertexStepMode;

verus! {

/// Identifier of a scene object.
pub type ObjectId = u64;

/// A 4x4 world transform, row-major, each row already serialized to the
/// 16 bytes of a four-component float attribute. The transform hierarchy
/// that computes matrices is an external collaborator; this crate only
/// moves their bytes into instance data.
pub struct Matrix {
    pub rows: Vec<Vec<u8>>,
}

impl View for Matrix {
    type V = Seq<Seq<u8>>;

    open spec fn view(&self) -> Seq<Seq<u8>> {
        Seq::new(self.rows@.len(), |i: int| self.rows@[i]@)
    }
}

/// A matrix holds exactly four rows of sixteen bytes.
pub open spec fn matrix_wf(m: Seq<Seq<u8>>) -> bool {
    m.len() == 4 && forall|i: int| 0 <= i < 4 ==> (#[trigger] m[i]).len() == 16
}

impl Matrix {
    /// One row's sixteen bytes.
    pub fn row(&self, i: usize) -> (r: &Vec<u8>)
        requires
            i < self@.len(),
        ensures
            r@ == self@[i as int],
    {
        &self.rows[i]
    }
}

/// The world matrices of the scene's objects, assumed already updated
/// for the current frame by the transform hierarchy.
pub struct ObjectHierarchy {
    pub(crate) entries: Vec<(ObjectId, Matrix)>,
}

impl View for ObjectHierarchy {
    type V = Seq<(ObjectId, Seq<Seq<u8>>)>;

    open(crate) spec fn view(&self) -> Seq<(ObjectId, Seq<Seq<u8>>)> {
        Seq::new(self.entries@.len(), |i: int| (self.entries@[i].0, self.entries@[i].1@))
    }
}

pub open spec fn hier_has(v: Seq<(ObjectId, Seq<Seq<u8>>)>, id: ObjectId) -> bool {
    exists|i: int| 0 <= i < v.len() && (#[trigger] v[i]).0 == id
}

/// The matrix registered for an object.
pub open spec fn hier_matrix(v: Seq<(ObjectId, Seq<Seq<u8>>)>, id: ObjectId) -> Seq<Seq<u8>> {
    let i = choose|i: int| 0 <= i < v.len() && (#[trigger] v[i]).0 == id;
    v[i].1
}

/// Hierarchy invariant: one matrix per object, all well formed.
pub open spec fn hier_wf(v: Seq<(ObjectId, Seq<Seq<u8>>)>) -> bool {
    &&& forall|i: int, j: int|
        0 <= i < v.len() && 0 <= j < v.len() && i != j ==> (#[trigger] v[i]).0 != (
        #[trigger] v[j]).0
    &&& forall|i: int| 0 <= i < v.len() ==> matrix_wf((#[trigger] v[i]).1)
}

impl ObjectHierarchy {
    pub fn new() -> (r: Self)
        ensures
            r@.len() == 0,
            hier_wf(r@),
    {
        ObjectHierarchy { entries: Vec::new() }
    }

    /// Records an object's world matrix for this frame.
    pub fn set_matrix(&mut self, object_id: ObjectId, matrix: Matrix)
        requires
            hier_wf(old(self)@),
            !hier_has(old(self)@, object_id),
            matrix_wf(matrix@),
        ensures
            hier_wf(final(self)@),
            final(self)@ == old(self)@.push((object_id, matrix@)),
            hier_has(final(self)@, object_id),
            hier_matrix(final(self)@, object_id) == matrix@,
            forall|id2: ObjectId|
                hier_has(old(self)@, id2) ==> #[trigger] hier_has(final(self)@, id2)
                    && hier_matrix(final(self)@, id2) == hier_matrix(old(self)@, id2),
    {
        let ghost pre = self@;
        self.entries.push((object_id, matrix));
        proof {
            let post = self@;
            assert(post =~= pre.push((object_id, matrix@)));
            let n = pre.len() as int;
            assert(post[n].0 == object_id);
            assert forall|i: int, j: int|
                0 <= i < post.len() && 0 <= j < post.len() && i != j implies (
            #[trigger] post[i]).0 != (#[trigger] post[j]).0 by {
                if i < n && j < n {
                    assert(post[i] == pre[i]);
                    assert(post[j] == pre[j]);
                } else if i == n {
                    assert(post[j] == pre[j]);
                    assert(!(0 <= j < pre.len() && pre[j].0 == object_id));
                } else {
                    assert(post[i] == pre[i]);
                    assert(!(0 <= i < pre.len() && pre[i].0 == object_id));
                }
            }
            lemma_hier_matrix_unique(post, object_id, n);
            assert forall|id2: ObjectId| hier_has(pre, id2) implies #[trigger] hier_has(post, id2)
                && hier_matrix(post, id2) == hier_matrix(pre, id2) by {
                let i = choose|i: int| 0 <= i < pre.len() && (#[trigger] pre[i]).0 == id2;
                assert(post[i].0 == id2);
                lemma_hier_matrix_unique(post, id2, i);
                lemma_hier_matrix_unique(pre, id2, i);
            }
        }
    }

    /// The object's world matrix; the object must be registered.
    pub fn matrix(&self, object_id: ObjectId) -> (r: &Matrix)
        requires
            hier_wf(self@),
            hier_has(self@, object_id),
        ensures
            r@ == hier_matrix(self@, object_id),
            matrix_wf(r@),
    {
        let n = self.entries.len();
        let mut i: usize = 0;
        while i < n
            invariant
                self@.len() == n,
                i <= n,
                hier_wf(self@),
                hier_has(self@, object_id),
                forall|j: int| 0 <= j < i ==> (#[trigger] self@[j]).0 != object_id,
            decreases n - i,
        {
            if self.entries[i].0 == object_id {
                proof {
                    lemma_hier_matrix_unique(self@, object_id, i as int);
                }
                return &self.entries[i].1;
            }
            i = i + 1;
        }
        proof {
            let w = choose|w: int| 0 <= w < self@.len() && (#[trigger] self@[w]).0 == object_id;
            assert(false);
        }
        vstd::pervasive::unreached()
    }

    pub fn has(&self, object_id: ObjectId) -> (r: bool)
        ensures
            r == hier_has(self@, object_id),
    {
        let n = self.entries.len();
        let mut i: usize = 0;
        while i < n
            invariant
                self@.len() == n,
                i <= n,
                forall|j: int| 0 <= j < i ==> (#[trigger] self@[j]).0 != object_id,
            decreases n - i,
        {
            if self.entries[i].0 == object_id {
                proof {
                    assert(self@[i as int].0 == object_id);
                }
                return true;
            }
            i = i + 1;
        }
        false
    }
}

/// In a well-formed hierarchy, the matrix under an id is the one at the
/// id's entry.
proof fn lemma_hier_matrix_unique(v: Seq<(ObjectId, Seq<Seq<u8>>)>, id: ObjectId, i: int)
    requires
        hier_wf(v),
        0 <= i < v.len(),
        v[i].0 == id,
    ensures
        hier_matrix(v, id) == v[i].1,
{
    let w = choose|w: int| 0 <= w < v.len() && (#[trigger] v[w]).0 == id;
    if w != i {
        assert(v[w].0 != v[i].0);
    }
}

/// One recorded draw-time operation. The embedding renderer replays
/// these against its render pass, mapping each identity back to the GPU
/// object it stands for.
#[derive(Clone, Copy, Debug, PartialEq, Eq, Hash, Structural)]
pub enum PassOp {
    SetPipeline { pipeline_id: u64 },
    SetBindGroup { group: u32, bind_group: u64 },
    SetVertexBuffer { slot: u32, buffer_id: u64, offset: usize, size: usize },
    Draw { first_vertex: u32, vertex_count: u32, first_instance: u32, instance_count: u32 },
}

/// Recorder for the draw-time operations of one frame, in submission
/// order.
pub struct RenderPass {
    pub(crate) ops: Vec<PassOp>,
}

impl View for RenderPass {
    type V = Seq<PassOp>;

    open(crate) spec fn view(&self) -> Seq<PassOp> {
        self.ops@
    }
}

impl RenderPass {
    pub fn new() -> (r: Self)
        ensures
            r@.len() == 0,
    {
        RenderPass { ops: Vec::new() }
    }

    pub fn ops(&self) -> (r: &Vec<PassOp>)
        ensures
            r@ == self@,
    {
        &self.ops
    }

    pub fn set_pipeline(&mut self, pipeline: &CachedPipeline)
        ensures
            final(self)@ == old(self)@.push(
                (PassOp::SetPipeline { pipeline_id: pipeline.pipeline_id }),
            ),
    {
        self.ops.push(PassOp::SetPipeline { pipeline_id: pipeline.pipeline_id });
    }

    pub fn set_bind_group(&mut self, group: u32, bind_group: u64)
        ensures
            final(self)@ == old(self)@.push((PassOp::SetBindGroup { group, bind_group })),
    {
        self.ops.push(PassOp::SetBindGroup { group, bind_group });
    }

    pub fn set_vertex_buffer(&mut self, slot: u32, buffer: &GenericBufferAllocation<DeviceBuffer>)
        ensures
            final(self)@ == old(self)@.push(
                (PassOp::SetVertexBuffer {
                    slot,
                    buffer_id: buffer.spec_buffer()@.id,
                    offset: buffer.spec_offset(),
                    size: buffer.spec_size(),
                }),
            ),
    {
        let op = PassOp::SetVertexBuffer {
            slot,
            buffer_id: buffer.buffer().id(),
            offset: buffer.offset(),
            size: buffer.size(),
        };
        self.ops.push(op);
    }

    pub fn draw(&mut self, vertex_count: u32, instance_count: u32)
        ensures
            final(self)@ == old(self)@.push(
                (PassOp::Draw { first_vertex: 0, vertex_count, first_instance: 0, instance_count }),
            ),
    {
        self.ops.push(
            PassOp::Draw { first_vertex: 0, vertex_count, first_instance: 0, instance_count },
        );
    }
}

/// The bind-group operations a sequence of holders contributes: each
/// holder whose bind group is compiled binds it at its declared group
/// index; the rest are skipped.
pub open spec fn holder_ops(holders: Seq<BindGroupHolder>) -> Seq<PassOp>
    decreases holders.len(),
{
    if holders.len() == 0 {
        Seq::empty()
    } else {
        let rest = holder_ops(holders.drop_last());
        match holders.last().bind_group {
            Option::Some(bg) => rest.push(
                PassOp::SetBindGroup { group: holders.last().group, bind_group: bg },
            ),
            Option::None => rest,
        }
    }
}

/// The vertex-buffer bindings of the per-vertex buffers, at sequential
/// slots starting at 0.
pub open spec fn vertex_buffer_ops(bufs: Seq<GenericBufferAllocation<DeviceBuffer>>) -> Seq<
    PassOp,
> {
    Seq::new(
        bufs.len(),
        |i: int|
            PassOp::SetVertexBuffer {
                slot: i as u32,
                buffer_id: bufs[i].spec_buffer()@.id,
                offset: bufs[i].spec_offset(),
                size: bufs[i].spec_size(),
            },
    )
}

/// Everything replaying a command records, in order: the pipeline bind,
/// the compiled bind groups, the per-vertex buffers at slots from 0, the
/// per-instance buffer (if any) at the next slot, and one draw covering
/// the object's vertices for a single instance.
pub open spec fn render_ops(cmd: &RenderingCommand) -> Seq<PassOp> {
    seq![(PassOp::SetPipeline { pipeline_id: cmd.pipeline.pipeline_id })] + holder_ops(
        cmd.material@.bind_group_holders,
    ) + vertex_buffer_ops(cmd.per_vertex_buffers@) + (match cmd.per_instance_buffer {
        Option::Some(b) => seq![
            (PassOp::SetVertexBuffer {
                slot: cmd.per_vertex_buffers@.len() as u32,
                buffer_id: b.spec_buffer()@.id,
                offset: b.spec_offset(),
                size: b.spec_size(),
            }),
        ],
        Option::None => Seq::empty(),
    }) + seq![
        (PassOp::Draw {
            first_vertex: 0,
            vertex_count: cmd.vertex_count,
            first_instance: 0,
            instance_count: 1,
        }),
    ]
}

/// An ephemeral bundle of everything one draw needs: the compiled
/// pipeline, the material being drawn, the object's per-vertex buffers
/// and the committed per-instance buffer. Built fresh each frame and
/// consumed by replay against a render pass.
pub struct RenderingCommand {
    pub pipeline: CachedPipeline,
    pub material: Material,
    pub vertex_count: u32,
    pub per_vertex_buffers: Vec<GenericBufferAllocation<DeviceBuffer>>,
    pub per_instance_buffer: Option<GenericBufferAllocation<DeviceBuffer>>,
}

impl RenderingCommand {
    /// Replays the command: records exactly `render_ops(self)` onto the
    /// pass, in order.
    pub fn render(&self, render_pass: &mut RenderPass)
        requires
            self.per_vertex_buffers@.len() < u32::MAX,
        ensures
            final(render_pass)@ == old(render_pass)@ + render_ops(self),
    {
        let ghost base = render_pass@;
        render_pass.set_pipeline(&self.pipeline);

        let ghost holders = self.material@.bind_group_holders;
        let nh = self.material.bind_group_holders.len();
        let mut i: usize = 0;
        proof {
            assert(holders.subrange(0, 0) =~= Seq::<BindGroupHolder>::empty());
            assert(render_pass@ =~= base + seq![
                (PassOp::SetPipeline { pipeline_id: self.pipeline.pipeline_id }),
            ] + holder_ops(holders.subrange(0, 0)));
        }
        while i < nh
            invariant
                i <= nh,
                nh == holders.len(),
                holders == self.material@.bind_group_holders,
                render_pass@ == base + seq![
                    (PassOp::SetPipeline { pipeline_id: self.pipeline.pipeline_id }),
                ] + holder_ops(holders.subrange(0, i as int)),
            decreases nh - i,
        {
            let holder = &self.material.bind_group_holders[i];
            proof {
                assert(holders.subrange(0, i as int + 1).drop_last() =~= holders.subrange(
                    0,
                    i as int,
                ));
                assert(holders.subrange(0, i as int + 1).last() == holders[i as int]);
            }
            match holder.bind_group {
                Some(bg) => {
                    render_pass.set_bind_group(holder.group, bg);
                },
                None => {},
            }
            i = i + 1;
        }
        proof {
            assert(holders.subrange(0, nh as int) =~= holders);
        }

        let ghost mid = render_pass@;
        let nv = self.per_vertex_buffers.len();
        let mut j: usize = 0;
        proof {
            assert(vertex_buffer_ops(self.per_vertex_buffers@.subrange(0, 0)) =~= Seq::<
                PassOp,
            >::empty());
            assert(render_pass@ =~= mid + vertex_buffer_ops(
                self.per_vertex_buffers@.subrange(0, 0),
            ));
        }
        while j < nv
            invariant
                j <= nv,
                nv == self.per_vertex_buffers@.len(),
                nv < u32::MAX,
                mid == base + seq![
                    (PassOp::SetPipeline { pipeline_id: self.pipeline.pipeline_id }),
                ] + holder_ops(self.material@.bind_group_holders),
                render_pass@ == mid + vertex_buffer_ops(
                    self.per_vertex_buffers@.subrange(0, j as int),
                ),
            decreases nv - j,
        {
            render_pass.set_vertex_buffer(j as u32, &self.per_vertex_buffers[j]);
            proof {
                assert(render_pass@ =~= mid + vertex_buffer_ops(
                    self.per_vertex_buffers@.subrange(0, j as int + 1),
                ));
            }
            j = j + 1;
        }
        proof {
            assert(self.per_vertex_buffers@.subrange(0, nv as int) =~= self.per_vertex_buffers@);
        }

        match &self.per_instance_buffer {
            Some(buffer) => {
                render_pass.set_vertex_buffer(nv as u32, buffer);
            },
            None => {},
        }

        render_pass.draw(self.vertex_count, 1);
        proof {
            assert(render_pass@ =~= old(render_pass)@ + render_ops(self));
        }
    }
}


/// The per-renderable capability the embedding renderer implements: it
/// supplies the pipeline provider, the object's geometry, and the bytes
/// of engine- or game-defined per-instance semantics this crate does not
/// know. An implementation of `copy_semantic_per_instance_input` may
/// write anything it wants inside the window it is handed, but nothing
/// outside it, and it must leave the provider and geometry alone.
pub trait Renderer {
    open spec fn provider_spec(&self) -> ProviderView {
        vstd::pervasive::arbitrary()
    }

    open spec fn vertex_count_spec(&self) -> u32 {
        vstd::pervasive::arbitrary()
    }

    open spec fn vertex_buffers_spec(&self) -> Seq<GenericBufferAllocation<DeviceBuffer>> {
        vstd::pervasive::arbitrary()
    }

    fn pipeline_provider(&self) -> (r: &PipelineProvider)
        ensures
            r@ == self.provider_spec(),
    ;

    fn vertex_count(&self) -> (r: u32)
        ensures
            r == self.vertex_count_spec(),
    ;

    fn vertex_buffers(&self) -> (r: Vec<GenericBufferAllocation<DeviceBuffer>>)
        ensures
            r@ == self.vertex_buffers_spec(),
    ;

    fn copy_semantic_per_instance_input(
        &mut self,
        key: SemanticKey,
        frame_buffer_allocator: &mut FrameBufferAllocator,
        allocation: &GenericBufferAllocation<HostBuffer>,
    )
        requires
            fba_wf(old(frame_buffer_allocator)@),
            handle_current(old(frame_buffer_allocator)@, allocation.spec_buffer()@),
            allocation.spec_buffer()@.start + allocation.spec_offset() + allocation.spec_size()
                <= old(frame_buffer_allocator)@.staging.len(),
        ensures
            fba_wf(final(frame_buffer_allocator)@),
            final(frame_buffer_allocator)@.generation == old(frame_buffer_allocator)@.generation,
            final(frame_buffer_allocator)@.pool == old(frame_buffer_allocator)@.pool,
            final(frame_buffer_allocator)@.held == old(frame_buffer_allocator)@.held,
            final(frame_buffer_allocator)@.staging.len() == old(frame_buffer_allocator)@.staging.len(),
            forall|x: int|
                0 <= x < old(frame_buffer_allocator)@.staging.len() && !(
                allocation.spec_buffer()@.start + allocation.spec_offset() <= x
                    < allocation.spec_buffer()@.start + allocation.spec_offset()
                    + allocation.spec_size()) ==> #[trigger] final(frame_buffer_allocator)@.staging[x] == old(frame_buffer_allocator)@.staging[x],
            final(self).provider_spec() == old(self).provider_spec(),
            final(self).vertex_count_spec() == old(self).vertex_count_spec(),
            final(self).vertex_buffers_spec() == old(self).vertex_buffers_spec(),
    ;
}

/// Every transform-row semantic the material declares holds the bytes of
/// its world-matrix row, at its declared offset from `base`.
pub open spec fn rows_written(m: MaterialView, mx: Seq<Seq<u8>>, base: int, s: Seq<u8>) -> bool {
    forall|k: int|
        #[trigger] sem_active(m, k) && m.semantic_inputs[k].0.is_transform_row() ==> s.subrange(
            base + sem_lo(m, k),
            base + sem_hi(m, k),
        ) == mx[m.semantic_inputs[k].0.spec_row_index()]
}

/// Every material property with a present value holds its serialized
/// bytes, at its declared offset from `base`.
pub open spec fn props_written(m: MaterialView, base: int, s: Seq<u8>) -> bool {
    forall|k: int|
        #[trigger] prop_active(m, k) ==> s.subrange(base + prop_lo(m, k), base + prop_hi(m, k))
            == m.per_instance_properties[k].1.value.unwrap().bytes
}

/// Writes one instance's data into the staging region: the four
/// well-known transform rows from the world matrix, the renderer's bytes
/// for every other instance-stepped semantic, and every present material
/// property override. All writes land inside the region; every byte of
/// the arena outside it is untouched.
#[verifier::rlimit(80)]
pub fn write_per_instance_data<R: Renderer>(
    renderer: &mut R,
    frame_buffer_allocator: &mut FrameBufferAllocator,
    staging: &HostBuffer,
    material: &Material,
    matrix: &Matrix,
)
    requires
        crate::materials::material_wf(material@),
        matrix_wf(matrix@),
        fba_wf(old(frame_buffer_allocator)@),
        handle_current(old(frame_buffer_allocator)@, staging@),
        staging@.size == material@.shader.stride,
        staging@.start + staging@.size <= old(frame_buffer_allocator)@.staging.len(),
    ensures
        fba_wf(final(frame_buffer_allocator)@),
        final(frame_buffer_allocator)@.generation == old(frame_buffer_allocator)@.generation,
        final(frame_buffer_allocator)@.pool == old(frame_buffer_allocator)@.pool,
        final(frame_buffer_allocator)@.held == old(frame_buffer_allocator)@.held,
        final(frame_buffer_allocator)@.staging.len() == old(frame_buffer_allocator)@.staging.len(),
        forall|x: int|
            0 <= x < old(frame_buffer_allocator)@.staging.len() && !(staging@.start <= x
                < staging@.start + staging@.size) ==> #[trigger] final(frame_buffer_allocator)@.staging[x] == old(frame_buffer_allocator)@.staging[x],
        rows_written(material@, matrix@, staging@.start as int, final(frame_buffer_allocator)@.staging),
        props_written(material@, staging@.start as int, final(frame_buffer_allocator)@.staging),
        final(renderer).provider_spec() == old(renderer).provider_spec(),
        final(renderer).vertex_count_spec() == old(renderer).vertex_count_spec(),
        final(renderer).vertex_buffers_spec() == old(renderer).vertex_buffers_spec(),
{
    let ghost m = material@;
    let ghost mx = matrix@;
    let ghost base = staging@.start as int;
    let ghost size = staging@.size as int;
    let ns = material.semantic_inputs.len();
    let mut i: usize = 0;
    while i < ns
        invariant
            i <= ns,
            ns == m.semantic_inputs.len(),
            m == material@,
            mx == matrix@,
            base == staging@.start as int,
            size == staging@.size as int,
            crate::materials::material_wf(m),
            matrix_wf(mx),
            staging@.size == m.shader.stride,
            fba_wf(frame_buffer_allocator@),
            frame_buffer_allocator@.generation == old(frame_buffer_allocator)@.generation,
            handle_current(frame_buffer_allocator@, staging@),
            frame_buffer_allocator@.pool == old(frame_buffer_allocator)@.pool,
            frame_buffer_allocator@.held == old(frame_buffer_allocator)@.held,
            frame_buffer_allocator@.staging.len() == old(frame_buffer_allocator)@.staging.len(),
            base + size <= frame_buffer_allocator@.staging.len(),
            forall|x: int|
                0 <= x < old(frame_buffer_allocator)@.staging.len() && !(base <= x < base + size)
                    ==> #[trigger] frame_buffer_allocator@.staging[x] == old(frame_buffer_allocator)@.staging[x],
            forall|k: int|
                0 <= k < i && #[trigger] sem_active(m, k)
                    && m.semantic_inputs[k].0.is_transform_row()
                    ==> frame_buffer_allocator@.staging.subrange(
                    base + sem_lo(m, k),
                    base + sem_hi(m, k),
                ) == mx[m.semantic_inputs[k].0.spec_row_index()],
            renderer.provider_spec() == old(renderer).provider_spec(),
            renderer.vertex_count_spec() == old(renderer).vertex_count_spec(),
            renderer.vertex_buffers_spec() == old(renderer).vertex_buffers_spec(),
        decreases ns - i,
    {
        let (key, input_data) = material.semantic_inputs[i];
        if input_data.step_mode == VertexStepMode::Instance {
            proof {
                assert(sem_active(m, i as int));
            }
            let fmt =
                material.shader.reflected_shader.per_instance_input.elements[input_data.index].format;
            let element_size = fmt.size();
            let allocation = match frame_buffer_allocator.slice(
                staging,
                input_data.offset,
                element_size,
            ) {
                Ok(a) => a,
                Err(_) => vstd::pervasive::unreached(),
            };
            let ghost before = frame_buffer_allocator@;
            let ghost lo = base + sem_lo(m, i as int);
            let ghost hi = base + sem_hi(m, i as int);
            match key {
                SemanticKey::TransformRow0 => {
                    let ok = frame_buffer_allocator.copy_from_slice(&allocation, matrix.row(0));
                    proof {
                        assert(ok.is_ok());
                    }
                },
                SemanticKey::TransformRow1 => {
                    let ok = frame_buffer_allocator.copy_from_slice(&allocation, matrix.row(1));
                    proof {
                        assert(ok.is_ok());
                    }
                },
                SemanticKey::TransformRow2 => {
                    let ok = frame_buffer_allocator.copy_from_slice(&allocation, matrix.row(2));
                    proof {
                        assert(ok.is_ok());
                    }
                },
                SemanticKey::TransformRow3 => {
                    let ok = frame_buffer_allocator.copy_from_slice(&allocation, matrix.row(3));
                    proof {
                        assert(ok.is_ok());
                    }
                },
                SemanticKey::Custom(_) => {
                    renderer.copy_semantic_per_instance_input(
                        key,
                        frame_buffer_allocator,
                        &allocation,
                    );
                },
            }
            proof {
                let now = frame_buffer_allocator@;
                assert forall|x: int| 0 <= x < now.staging.len() && !(lo <= x < hi)
                    implies now.staging[x] == before.staging[x] by {}
                assert forall|k: int|
                    0 <= k < i + 1 && #[trigger] sem_active(m, k)
                        && m.semantic_inputs[k].0.is_transform_row() implies now.staging.subrange(
                    base + sem_lo(m, k),
                    base + sem_hi(m, k),
                ) == mx[m.semantic_inputs[k].0.spec_row_index()] by {
                    if k < i {
                        assert(crate::materials::windows_disjoint(
                            sem_lo(m, k),
                            sem_hi(m, k),
                            sem_lo(m, i as int),
                            sem_hi(m, i as int),
                        ));
                        assert(now.staging.subrange(base + sem_lo(m, k), base + sem_hi(m, k))
                            =~= before.staging.subrange(base + sem_lo(m, k), base + sem_hi(m, k)));
                    } else {
                        assert(m.semantic_inputs[k].0 == key);
                    }
                }
            }
        } else {
            proof {
                assert(!sem_active(m, i as int));
                assert forall|k: int|
                    0 <= k < i + 1 && #[trigger] sem_active(m, k)
                        && m.semantic_inputs[k].0.is_transform_row()
                        implies frame_buffer_allocator@.staging.subrange(
                    base + sem_lo(m, k),
                    base + sem_hi(m, k),
                ) == mx[m.semantic_inputs[k].0.spec_row_index()] by {
                    assert(k < i);
                }
            }
        }
        i = i + 1;
    }

    let np = material.per_instance_properties.len();
    let mut j: usize = 0;
    while j < np
        invariant
            j <= np,
            np == m.per_instance_properties.len(),
            m == material@,
            mx == matrix@,
            base == staging@.start as int,
            size == staging@.size as int,
            crate::materials::material_wf(m),
            matrix_wf(mx),
            staging@.size == m.shader.stride,
            fba_wf(frame_buffer_allocator@),
            frame_buffer_allocator@.generation == old(frame_buffer_allocator)@.generation,
            handle_current(frame_buffer_allocator@, staging@),
            frame_buffer_allocator@.pool == old(frame_buffer_allocator)@.pool,
            frame_buffer_allocator@.held == old(frame_buffer_allocator)@.held,
            frame_buffer_allocator@.staging.len() == old(frame_buffer_allocator)@.staging.len(),
            base + size <= frame_buffer_allocator@.staging.len(),
            forall|x: int|
                0 <= x < old(frame_buffer_allocator)@.staging.len() && !(base <= x < base + size)
                    ==> #[trigger] frame_buffer_allocator@.staging[x] == old(frame_buffer_allocator)@.staging[x],
            rows_written(m, mx, base, frame_buffer_allocator@.staging),
            forall|k: int|
                0 <= k < j && #[trigger] prop_active(m, k)
                    ==> frame_buffer_allocator@.staging.subrange(
                    base + prop_lo(m, k),
                    base + prop_hi(m, k),
                ) == m.per_instance_properties[k].1.value.unwrap().bytes,
            renderer.provider_spec() == old(renderer).provider_spec(),
            renderer.vertex_count_spec() == old(renderer).vertex_count_spec(),
            renderer.vertex_buffers_spec() == old(renderer).vertex_buffers_spec(),
        decreases np - j,
    {
        let property = &material.per_instance_properties[j].1;
        match &property.value {
            Some(value) => {
                proof {
                    assert(prop_active(m, j as int));
                }
                let value_size = value.format.size();
                let allocation = match frame_buffer_allocator.slice(
                    staging,
                    property.offset,
                    value_size,
                ) {
                    Ok(a) => a,
                    Err(_) => vstd::pervasive::unreached(),
                };
                let ghost before = frame_buffer_allocator@;
                let ghost lo = base + prop_lo(m, j as int);
                let ghost hi = base + prop_hi(m, j as int);
                let ok = frame_buffer_allocator.copy_from_slice(&allocation, &value.bytes);
                proof {
                    assert(ok.is_ok());
                    let now = frame_buffer_allocator@;
                    assert forall|k: int|
                        #[trigger] sem_active(m, k) && m.semantic_inputs[k].0.is_transform_row()
                            implies now.staging.subrange(
                        base + sem_lo(m, k),
                        base + sem_hi(m, k),
                    ) == mx[m.semantic_inputs[k].0.spec_row_index()] by {
                        assert(crate::materials::windows_disjoint(
                            sem_lo(m, k),
                            sem_hi(m, k),
                            prop_lo(m, j as int),
                            prop_hi(m, j as int),
                        ));
                        assert(now.staging.subrange(base + sem_lo(m, k), base + sem_hi(m, k))
                            =~= before.staging.subrange(base + sem_lo(m, k), base + sem_hi(m, k)));
                    }
                    assert forall|k: int|
                        0 <= k < j + 1 && #[trigger] prop_active(m, k)
                            implies now.staging.subrange(
                        base + prop_lo(m, k),
                        base + prop_hi(m, k),
                    ) == m.per_instance_properties[k].1.value.unwrap().bytes by {
                        if k < j {
                            assert(crate::materials::windows_disjoint(
                                prop_lo(m, k),
                                prop_hi(m, k),
                                prop_lo(m, j as int),
                                prop_hi(m, j as int),
                            ));
                            assert(now.staging.subrange(base + prop_lo(m, k), base + prop_hi(m, k))
                                =~= before.staging.subrange(
                                base + prop_lo(m, k),
                                base + prop_hi(m, k),
                            ));
                        }
                    }
                }
            },
            None => {
                proof {
                    assert(!prop_active(m, j as int));
                    assert forall|k: int|
                        0 <= k < j + 1 && #[trigger] prop_active(m, k)
                            implies frame_buffer_allocator@.staging.subrange(
                        base + prop_lo(m, k),
                        base + prop_hi(m, k),
                    ) == m.per_instance_properties[k].1.value.unwrap().bytes by {
                        assert(k < j);
                    }
                }
            },
        }
        j = j + 1;
    }
}


/// Assembles the draw command for one renderable: resolves its pipeline
/// and material through the provider (returning nothing while either is
/// still loading), allocates a staging region of the material's
/// per-instance stride, fills it with transform rows, renderer-supplied
/// semantics and property overrides, commits it to a pooled device
/// buffer, and bundles the result. The provider is queried twice by
/// design — once to populate, once for the final handle — and both
/// resolutions observe the same material.
#[verifier::rlimit(100)]
pub fn build_rendering_command<R: Renderer>(
    object_id: ObjectId,
    object_hierarchy: &ObjectHierarchy,
    renderer: &mut R,
    shader_mgr: &ShaderManager,
    pipeline_cache: &mut PipelineCache,
    frame_buffer_allocator: &mut FrameBufferAllocator,
) -> (r: Option<RenderingCommand>)
    requires
        hier_wf(object_hierarchy@),
        hier_has(object_hierarchy@, object_id),
        provider_wf(old(renderer).provider_spec()),
        crate::pipelines::cache_wf(old(pipeline_cache)@),
        old(pipeline_cache)@.next_pipeline_id < u64::MAX,
        old(pipeline_cache)@.compile_count < u64::MAX,
        fba_wf(old(frame_buffer_allocator)@),
        old(frame_buffer_allocator)@.pool.next_id < u64::MAX,
        old(frame_buffer_allocator)@.staging.len() + crate::buffers::MAX_BUFFER_SIZE
            <= usize::MAX,
    ensures
        fba_wf(final(frame_buffer_allocator)@),
        crate::pipelines::cache_wf(final(pipeline_cache)@),
        final(renderer).provider_spec() == old(renderer).provider_spec(),
        r.is_some() <==> provider_ready(old(renderer).provider_spec(), shader_mgr),
        r.is_none() ==> final(pipeline_cache)@ == old(pipeline_cache)@ && final(frame_buffer_allocator)@ == old(frame_buffer_allocator)@,
        r.is_some() ==> ({
            let cmd = r.unwrap();
            let prov = old(renderer).provider_spec();
            let m = prov.material.unwrap();
            let mx = hier_matrix(object_hierarchy@, object_id);
            &&& obtain_post(
                old(pipeline_cache)@,
                provider_key(prov),
                final(pipeline_cache)@,
                cmd.pipeline,
            )
            &&& cmd.material@ == m
            &&& cmd.vertex_count == old(renderer).vertex_count_spec()
            &&& cmd.per_vertex_buffers@ == old(renderer).vertex_buffers_spec()
            &&& cmd.per_instance_buffer.is_some()
            &&& ({
                let ib = cmd.per_instance_buffer.unwrap();
                &&& ib.spec_offset() == 0
                &&& ib.spec_size() == m.shader.stride
                &&& ib.spec_buffer()@.contents.len() >= m.shader.stride
                &&& rows_written(m, mx, 0, ib.spec_buffer()@.contents)
                &&& props_written(m, 0, ib.spec_buffer()@.contents)
            })
            &&& final(frame_buffer_allocator)@.generation == old(frame_buffer_allocator)@.generation
            &&& final(frame_buffer_allocator)@.staging.len() == old(frame_buffer_allocator)@.staging.len() + m.shader.stride
            &&& final(frame_buffer_allocator)@.staging.subrange(
                0,
                old(frame_buffer_allocator)@.staging.len() as int,
            ) == old(frame_buffer_allocator)@.staging
        }),
{
    let matrix = object_hierarchy.matrix(object_id);
    let ghost prov = renderer.provider_spec();

    let pipeline_provider = renderer.pipeline_provider();
    let pipeline = match pipeline_cache.obtain_pipeline(pipeline_provider, shader_mgr) {
        Some(pipeline) => pipeline,
        None => {
            return None;
        },
    };
    let material = match pipeline_provider.material() {
        Some(material) => material.clone(),
        None => vstd::pervasive::unreached(),
    };
    let ghost m = material@;
    proof {
        assert(m == prov.material.unwrap());
    }

    let ghost arena0 = frame_buffer_allocator@.staging;
    let per_instance_staging = frame_buffer_allocator.alloc_staging_buffer(material.stride());
    let ghost base = per_instance_staging@.start as int;
    let ghost size = per_instance_staging@.size as int;

    write_per_instance_data(
        renderer,
        frame_buffer_allocator,
        &per_instance_staging,
        &material,
        matrix,
    );
    let ghost arena2 = frame_buffer_allocator@.staging;

    let per_instance_buffer = match frame_buffer_allocator.commit_staging_buffer(
        per_instance_staging,
    ) {
        Ok(a) => a,
        Err(_) => vstd::pervasive::unreached(),
    };
    proof {
        let cv = per_instance_buffer.spec_buffer()@.contents;
        let mx = hier_matrix(object_hierarchy@, object_id);
        assert(cv.subrange(0, size) == arena2.subrange(base, base + size));
        assert forall|k: int|
            #[trigger] sem_active(m, k) && m.semantic_inputs[k].0.is_transform_row()
                implies cv.subrange(sem_lo(m, k), sem_hi(m, k))
                == mx[m.semantic_inputs[k].0.spec_row_index()] by {
            assert(cv.subrange(sem_lo(m, k), sem_hi(m, k)) =~= arena2.subrange(
                base + sem_lo(m, k),
                base + sem_hi(m, k),
            )) by {
                assert forall|t: int| 0 <= t < sem_hi(m, k) - sem_lo(m, k) implies cv.subrange(
                    sem_lo(m, k),
                    sem_hi(m, k),
                )[t] == arena2.subrange(base + sem_lo(m, k), base + sem_hi(m, k))[t] by {
                    assert(cv[sem_lo(m, k) + t] == cv.subrange(0, size)[sem_lo(m, k) + t]);
                    assert(arena2.subrange(base, base + size)[sem_lo(m, k) + t] == arena2[base
                        + sem_lo(m, k) + t]);
                }
            }
        }
        assert forall|k: int| #[trigger] prop_active(m, k) implies cv.subrange(
            prop_lo(m, k),
            prop_hi(m, k),
        ) == m.per_instance_properties[k].1.value.unwrap().bytes by {
            assert(cv.subrange(prop_lo(m, k), prop_hi(m, k)) =~= arena2.subrange(
                base + prop_lo(m, k),
                base + prop_hi(m, k),
            )) by {
                assert forall|t: int| 0 <= t < prop_hi(m, k) - prop_lo(m, k) implies cv.subrange(
                    prop_lo(m, k),
                    prop_hi(m, k),
                )[t] == arena2.subrange(base + prop_lo(m, k), base + prop_hi(m, k))[t] by {
                    assert(cv[prop_lo(m, k) + t] == cv.subrange(0, size)[prop_lo(m, k) + t]);
                    assert(arena2.subrange(base, base + size)[prop_lo(m, k) + t] == arena2[base
                        + prop_lo(m, k) + t]);
                }
            }
        }
        assert(frame_buffer_allocator@.staging.subrange(0, arena0.len() as int) =~= arena0) by {
            assert forall|x: int| 0 <= x < arena0.len() implies frame_buffer_allocator@.staging[x]
                == arena0[x] by {
                assert(frame_buffer_allocator@.staging[x] == arena2[x]);
            }
        }
    }

    let vertex_count = renderer.vertex_count();
    let per_vertex_buffers = renderer.vertex_buffers();

    let second_provider = renderer.pipeline_provider();
    let material = match second_provider.material() {
        Some(material) => material.clone(),
        None => vstd::pervasive::unreached(),
    };

    Some(
        RenderingCommand {
            pipeline,
            material,
            vertex_count,
            per_vertex_buffers,
            per_instance_buffer: Some(per_instance_buffer),
        },
    )
}

} // verus!
