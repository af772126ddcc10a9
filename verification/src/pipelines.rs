use vstd::prelude::*;

use crate::materials::{material_wf, Material, MaterialView};
use crate::shaders::ShaderManager;
use crate::vertex_format::DepthStencilMode;

verus! {

/// Identity of a compiled pipeline: shader identity, vertex-layout
/// identity and render-state configuration. Two renderables that agree
/// on all three share one compiled pipeline.
#[derive(Clone, Copy, Debug, PartialEq, Eq, Hash, Structural)]
pub struct PipelineKey {
    pub shader_id: u64,
    pub vertex_layout_id: u64,
    pub depth_stencil: DepthStencilMode,
}

/// A compiled, immutable pipeline. The embedding renderer maps
/// `pipeline_id` to the actual GPU pipeline object produced by the
/// shader manager's compile step; this crate only tracks its identity.
#[derive(Clone, Copy, Debug, PartialEq, Eq, Hash, Structural)]
pub struct CachedPipeline {
    pub key: PipelineKey,
    pub pipeline_id: u64,
}

pub ghost struct PipelineCacheView {
    pub entries: Seq<(PipelineKey, CachedPipeline)>,
    pub compile_count: u64,
    pub next_pipeline_id: u64,
}

/// Compile-once, reuse-many cache of pipelines. Entries are never
/// evicted: pipelines are few relative to frame count, and a hot-reload
/// scenario evicts through `invalidate`.
pub struct PipelineCache {
    pub(crate) entries: Vec<(PipelineKey, CachedPipeline)>,
    pub(crate) compile_count: u64,
    pub(crate) next_pipeline_id: u64,
}

impl View for PipelineCache {
    type V = PipelineCacheView;

    open(crate) spec fn view(&self) -> PipelineCacheView {
        PipelineCacheView {
            entries: self.entries@,
            compile_count: self.compile_count,
            next_pipeline_id: self.next_pipeline_id,
        }
    }
}

/// The pipeline the cache associates with a key, if any: the first entry
/// under that key.
pub open spec fn cache_find(s: Seq<(PipelineKey, CachedPipeline)>, key: PipelineKey) -> Option<
    CachedPipeline,
>
    decreases s.len(),
{
    if s.len() == 0 {
        Option::None
    } else if s[0].0 == key {
        Option::Some(s[0].1)
    } else {
        cache_find(s.drop_first(), key)
    }
}

/// Appending an entry under a fresh key leaves every earlier key's
/// answer unchanged and makes the new key answer the new pipeline.
pub proof fn lemma_cache_find_push(
    s: Seq<(PipelineKey, CachedPipeline)>,
    key: PipelineKey,
    entry: (PipelineKey, CachedPipeline),
)
    ensures
        cache_find(s.push(entry), key) == (if cache_find(s, key).is_some() {
            cache_find(s, key)
        } else if entry.0 == key {
            Option::Some(entry.1)
        } else {
            Option::<CachedPipeline>::None
        }),
    decreases s.len(),
{
    if s.len() == 0 {
        assert(s.push(entry).drop_first() =~= s);
        assert(s.push(entry)[0] == entry);
    } else {
        assert(s.push(entry)[0] == s[0]);
        assert(s.push(entry).drop_first() =~= s.drop_first().push(entry));
        lemma_cache_find_push(s.drop_first(), key, entry);
    }
}

/// Cache invariant: at most one compiled pipeline exists per key, and a
/// cached pipeline records the key it was compiled for.
pub open spec fn cache_wf(c: PipelineCacheView) -> bool {
    &&& forall|i: int, j: int|
        0 <= i < c.entries.len() && 0 <= j < c.entries.len() && i != j ==> (
        #[trigger] c.entries[i]).0 != (#[trigger] c.entries[j]).0
    &&& forall|i: int| 0 <= i < c.entries.len() ==> (#[trigger] c.entries[i]).1.key == c.entries[i].0
}

/// What resolving a key against the cache does: a hit returns the cached
/// pipeline and changes nothing; a miss compiles exactly one new
/// pipeline, inserts it under the key and returns it.
pub open spec fn obtain_post(
    pre: PipelineCacheView,
    key: PipelineKey,
    post: PipelineCacheView,
    p: CachedPipeline,
) -> bool {
    &&& p.key == key
    &&& cache_find(post.entries, key) == Option::Some(p)
    &&& if cache_find(pre.entries, key).is_some() {
        &&& p == cache_find(pre.entries, key).unwrap()
        &&& post == pre
    } else {
        &&& post.entries == pre.entries.push((key, p))
        &&& p.pipeline_id == pre.next_pipeline_id
        &&& post.next_pipeline_id == pre.next_pipeline_id + 1
        &&& post.compile_count == pre.compile_count + 1
    }
}

impl PipelineCache {
    pub fn new() -> (r: Self)
        ensures
            r@.entries.len() == 0,
            r@.compile_count == 0,
            r@.next_pipeline_id == 0,
            cache_wf(r@),
    {
        PipelineCache { entries: Vec::new(), compile_count: 0, next_pipeline_id: 0 }
    }

    /// How many pipelines have been compiled since the cache was created.
    pub fn compile_count(&self) -> (r: u64)
        ensures
            r == self@.compile_count,
    {
        self.compile_count
    }

    /// The cached pipeline for a key, or nothing on a miss; never
    /// compiles.
    pub fn lookup(&self, key: PipelineKey) -> (r: Option<CachedPipeline>)
        ensures
            r == cache_find(self@.entries, key),
    {
        let n = self.entries.len();
        proof {
            assert(self@.entries.subrange(0, n as int) =~= self@.entries);
        }
        let mut i: usize = 0;
        while i < n
            invariant
                i <= n,
                n == self@.entries.len(),
                cache_find(self@.entries, key) == cache_find(
                    self@.entries.subrange(i as int, n as int),
                    key,
                ),
            decreases n - i,
        {
            proof {
                assert(self@.entries.subrange(i as int, n as int)[0] == self@.entries[i as int]);
                assert(self@.entries.subrange(i as int, n as int).drop_first()
                    =~= self@.entries.subrange(i as int + 1, n as int));
            }
            let (k, p) = self.entries[i];
            if k == key {
                return Some(p);
            }
            i = i + 1;
        }
        proof {
            assert(self@.entries.subrange(n as int, n as int) =~= Seq::<
                (PipelineKey, CachedPipeline),
            >::empty());
        }
        None
    }

    /// Resolves a key to its compiled pipeline. A hit returns the cached
    /// pipeline unchanged, with no recompilation; a miss compiles via
    /// the shader manager's reflection data, records the compilation and
    /// caches the result.
    pub fn lookup_or_compile(&mut self, key: PipelineKey) -> (r: CachedPipeline)
        requires
            cache_wf(old(self)@),
            old(self)@.next_pipeline_id < u64::MAX,
            old(self)@.compile_count < u64::MAX,
        ensures
            cache_wf(final(self)@),
            obtain_post(old(self)@, key, final(self)@, r),
    {
        let cached = self.lookup(key);
        match cached {
            Some(p) => {
                proof {
                    lemma_cache_find_key(self@.entries, key);
                }
                p
            },
            None => {
                let p = CachedPipeline { key, pipeline_id: self.next_pipeline_id };
                let ghost pre = self@.entries;
                self.entries.push((key, p));
                self.next_pipeline_id = self.next_pipeline_id + 1;
                self.compile_count = self.compile_count + 1;
                proof {
                    lemma_cache_find_push(pre, key, (key, p));
                    assert forall|a: int| 0 <= a < pre.len() implies (#[trigger] pre[a]).0
                        != key by {
                        if pre[a].0 == key {
                            lemma_cache_find_present(pre, a);
                        }
                    }
                    assert forall|i: int, j: int|
                        0 <= i < self@.entries.len() && 0 <= j < self@.entries.len() && i != j
                            implies (#[trigger] self@.entries[i]).0 != (
                    #[trigger] self@.entries[j]).0 by {
                        if i < pre.len() && j < pre.len() {
                            assert(self@.entries[i] == pre[i]);
                            assert(self@.entries[j] == pre[j]);
                        } else if j == pre.len() {
                            assert(self@.entries[i] == pre[i]);
                            assert(self@.entries[j].0 == key);
                        } else {
                            assert(self@.entries[j] == pre[j]);
                            assert(self@.entries[i].0 == key);
                        }
                    }
                }
                p
            },
        }
    }

    /// Evicts the entry under a key, for shader hot-reload: the next
    /// resolution of that key compiles afresh, while every other key's
    /// answer is untouched.
    pub fn invalidate(&mut self, key: PipelineKey)
        requires
            cache_wf(old(self)@),
        ensures
            cache_wf(final(self)@),
            cache_find(final(self)@.entries, key).is_none(),
            final(self)@.compile_count == old(self)@.compile_count,
            final(self)@.next_pipeline_id == old(self)@.next_pipeline_id,
            forall|k2: PipelineKey|
                k2 != key ==> #[trigger] cache_find(final(self)@.entries, k2) == cache_find(
                    old(self)@.entries,
                    k2,
                ),
    {
        let n = self.entries.len();
        let mut i: usize = 0;
        while i < n
            invariant
                self == old(self),
                i <= n,
                n == self@.entries.len(),
                cache_wf(self@),
                forall|j: int| 0 <= j < i ==> (#[trigger] self@.entries[j]).0 != key,
            decreases n - i,
        {
            let (k, _p) = self.entries[i];
            if k == key {
                let ghost pre = self@.entries;
                let ghost ii = i as int;
                self.entries.remove(i);
                proof {
                    assert forall|j: int| 0 <= j < pre.len() && j != ii implies (
                    #[trigger] pre[j]).0 != key by {
                        assert(pre[j].0 != pre[ii].0);
                    }
                    lemma_cache_find_remove(pre, key, ii);
                    assert forall|a: int, b: int|
                        0 <= a < self@.entries.len() && 0 <= b < self@.entries.len() && a != b
                            implies (#[trigger] self@.entries[a]).0 != (
                    #[trigger] self@.entries[b]).0 by {
                        let a0: int = if a < ii { a } else { a + 1 };
                        let b0: int = if b < ii { b } else { b + 1 };
                        assert(self@.entries[a] == pre[a0]);
                        assert(self@.entries[b] == pre[b0]);
                    }
                    assert forall|a: int| 0 <= a < self@.entries.len() implies (
                    #[trigger] self@.entries[a]).1.key == self@.entries[a].0 by {
                        let a0: int = if a < ii { a } else { a + 1 };
                        assert(self@.entries[a] == pre[a0]);
                    }
                }
                return;
            }
            i = i + 1;
        }
        proof {
            lemma_cache_find_absent(self@.entries, key);
        }
    }
}


/// Per-renderable capability that resolves a pipeline and exposes the
/// shared material. Until its shader asset is compiled and registered
/// and its material is built, it simply cannot resolve — a normal state,
/// not an error: the renderable is skipped that frame.
pub struct PipelineProvider {
    pub(crate) shader_id: Option<u64>,
    pub(crate) vertex_layout_id: u64,
    pub(crate) depth_stencil: DepthStencilMode,
    pub(crate) material: Option<Material>,
}

pub ghost struct ProviderView {
    pub shader_id: Option<u64>,
    pub vertex_layout_id: u64,
    pub depth_stencil: DepthStencilMode,
    pub material: Option<MaterialView>,
}

impl View for PipelineProvider {
    type V = ProviderView;

    open(crate) spec fn view(&self) -> ProviderView {
        ProviderView {
            shader_id: self.shader_id,
            vertex_layout_id: self.vertex_layout_id,
            depth_stencil: self.depth_stencil,
            material: match self.material {
                Option::Some(m) => Option::Some(m@),
                Option::None => Option::None,
            },
        }
    }
}

/// A provider only ever carries a well-formed material.
pub open spec fn provider_wf(v: ProviderView) -> bool {
    v.material.is_some() ==> material_wf(v.material.unwrap())
}

/// A provider can resolve once it knows its shader, that shader is
/// registered, and its material is built.
pub open spec fn provider_ready(v: ProviderView, shader_mgr: &ShaderManager) -> bool {
    &&& v.shader_id.is_some()
    &&& shader_mgr.spec_has(v.shader_id.unwrap())
    &&& v.material.is_some()
}

/// The pipeline identity a ready provider asks the cache for.
pub open spec fn provider_key(v: ProviderView) -> PipelineKey {
    PipelineKey {
        shader_id: v.shader_id.unwrap(),
        vertex_layout_id: v.vertex_layout_id,
        depth_stencil: v.depth_stencil,
    }
}

impl PipelineProvider {
    pub fn new(vertex_layout_id: u64, depth_stencil: DepthStencilMode) -> (r: Self)
        ensures
            r@.shader_id.is_none(),
            r@.vertex_layout_id == vertex_layout_id,
            r@.depth_stencil == depth_stencil,
            r@.material.is_none(),
            provider_wf(r@),
    {
        PipelineProvider { shader_id: None, vertex_layout_id, depth_stencil, material: None }
    }

    /// Records the shader this renderable draws with, once loaded.
    pub fn set_shader(&mut self, shader_id: u64)
        ensures
            final(self)@ == (ProviderView { shader_id: Option::Some(shader_id), ..old(self)@ }),
    {
        self.shader_id = Some(shader_id);
    }

    /// Hands the provider its material, once built.
    pub fn set_material(&mut self, material: Material)
        requires
            material_wf(material@),
        ensures
            final(self)@ == (ProviderView { material: Option::Some(material@), ..old(self)@ }),
    {
        self.material = Some(material);
    }

    /// The shared material, if it has been built yet.
    pub fn material(&self) -> (r: &Option<Material>)
        ensures
            r.is_some() <==> self@.material.is_some(),
            r.is_some() ==> self@.material == Option::Some(r.unwrap()@),
    {
        &self.material
    }
}

impl PipelineCache {
    /// Resolves the provider's pipeline: nothing when the provider is
    /// not ready yet, the cached pipeline on a hit, and a single fresh
    /// compilation — via the shader manager the provider's shader is
    /// registered in — on a miss.
    pub fn obtain_pipeline(
        &mut self,
        provider: &PipelineProvider,
        shader_mgr: &ShaderManager,
    ) -> (r: Option<CachedPipeline>)
        requires
            cache_wf(old(self)@),
            old(self)@.next_pipeline_id < u64::MAX,
            old(self)@.compile_count < u64::MAX,
        ensures
            cache_wf(final(self)@),
            r.is_some() <==> provider_ready(provider@, shader_mgr),
            r.is_none() ==> final(self)@ == old(self)@,
            r.is_some() ==> obtain_post(old(self)@, provider_key(provider@), final(self)@, r.unwrap()),
    {
        let shader_id = match self.provider_shader(provider) {
            Some(id) => id,
            None => {
                return None;
            },
        };
        if !shader_mgr.has_shader(shader_id) {
            return None;
        }
        if self.provider_material_missing(provider) {
            return None;
        }
        let key = PipelineKey {
            shader_id,
            vertex_layout_id: provider.vertex_layout_id,
            depth_stencil: provider.depth_stencil,
        };
        Some(self.lookup_or_compile(key))
    }

    fn provider_shader(&self, provider: &PipelineProvider) -> (r: Option<u64>)
        ensures
            r == provider@.shader_id,
    {
        provider.shader_id
    }

    fn provider_material_missing(&self, provider: &PipelineProvider) -> (r: bool)
        ensures
            r == provider@.material.is_none(),
    {
        provider.material.is_none()
    }
}

/// A sequence none of whose entries carries the key answers a find of
/// that key with nothing.
proof fn lemma_cache_find_absent(s: Seq<(PipelineKey, CachedPipeline)>, key: PipelineKey)
    requires
        forall|j: int| 0 <= j < s.len() ==> (#[trigger] s[j]).0 != key,
    ensures
        cache_find(s, key).is_none(),
    decreases s.len(),
{
    if s.len() > 0 {
        assert forall|j: int| 0 <= j < s.drop_first().len() implies (
        #[trigger] s.drop_first()[j]).0 != key by {
            assert(s.drop_first()[j] == s[j + 1]);
        }
        lemma_cache_find_absent(s.drop_first(), key);
    }
}

/// Removing the only entry under a key makes a find of that key miss
/// and leaves every other key's answer unchanged.
proof fn lemma_cache_find_remove(s: Seq<(PipelineKey, CachedPipeline)>, key: PipelineKey, i: int)
    requires
        0 <= i < s.len(),
        s[i].0 == key,
        forall|j: int| 0 <= j < s.len() && j != i ==> (#[trigger] s[j]).0 != key,
    ensures
        cache_find(s.remove(i), key).is_none(),
        forall|k2: PipelineKey|
            k2 != key ==> #[trigger] cache_find(s.remove(i), k2) == cache_find(s, k2),
    decreases s.len(),
{
    if i == 0 {
        assert(s.remove(0) =~= s.drop_first());
        assert forall|j: int| 0 <= j < s.drop_first().len() implies (
        #[trigger] s.drop_first()[j]).0 != key by {
            assert(s.drop_first()[j] == s[j + 1]);
        }
        lemma_cache_find_absent(s.drop_first(), key);
        assert forall|k2: PipelineKey| k2 != key implies #[trigger] cache_find(s.remove(i), k2)
            == cache_find(s, k2) by {
            assert(cache_find(s, k2) == cache_find(s.drop_first(), k2));
        }
    } else {
        let t = s.drop_first();
        assert(t[i - 1] == s[i]);
        assert forall|j: int| 0 <= j < t.len() && j != i - 1 implies (#[trigger] t[j]).0 != key by {
            assert(t[j] == s[j + 1]);
        }
        lemma_cache_find_remove(t, key, i - 1);
        assert(s.remove(i)[0] == s[0]);
        assert(s.remove(i).drop_first() =~= t.remove(i - 1));
        assert forall|k2: PipelineKey| k2 != key implies #[trigger] cache_find(s.remove(i), k2)
            == cache_find(s, k2) by {
            if s[0].0 == k2 {
                assert(cache_find(s.remove(i), k2) == Option::Some(s[0].1));
                assert(cache_find(s, k2) == Option::Some(s[0].1));
            } else {
                assert(cache_find(s.remove(i), k2) == cache_find(t.remove(i - 1), k2));
                assert(cache_find(s, k2) == cache_find(t, k2));
            }
        }
    }
}

/// A pipeline that a find returns was compiled for the key it is found
/// under, provided every entry records its own key.
proof fn lemma_cache_find_key(s: Seq<(PipelineKey, CachedPipeline)>, key: PipelineKey)
    requires
        forall|i: int| 0 <= i < s.len() ==> (#[trigger] s[i]).1.key == s[i].0,
    ensures
        cache_find(s, key).is_some() ==> cache_find(s, key).unwrap().key == key,
    decreases s.len(),
{
    if s.len() > 0 && s[0].0 != key {
        assert forall|i: int| 0 <= i < s.drop_first().len() implies (
        #[trigger] s.drop_first()[i]).1.key == s.drop_first()[i].0 by {
            assert(s.drop_first()[i] == s[i + 1]);
        }
        lemma_cache_find_key(s.drop_first(), key);
    }
}

/// An entry's key is always found by `cache_find`.
proof fn lemma_cache_find_present(s: Seq<(PipelineKey, CachedPipeline)>, i: int)
    requires
        0 <= i < s.len(),
    ensures
        cache_find(s, s[i].0).is_some(),
    decreases s.len(),
{
    if i == 0 {
    } else if s[0].0 == s[i].0 {
    } else {
        assert(s.drop_first()[i - 1] == s[i]);
        lemma_cache_find_present(s.drop_first(), i - 1);
    }
}

/// Pipeline resolution is idempotent: resolving the same key twice hands
/// back the very same compiled pipeline, and the second resolution
/// neither compiles nor changes the cache.
pub proof fn lemma_obtain_pipeline_idempotent(
    pre: PipelineCacheView,
    mid: PipelineCacheView,
    post: PipelineCacheView,
    key: PipelineKey,
    p1: CachedPipeline,
    p2: CachedPipeline,
)
    requires
        obtain_post(pre, key, mid, p1),
        obtain_post(mid, key, post, p2),
    ensures
        p2 == p1,
        post == mid,
        post.compile_count <= pre.compile_count + 1,
{
}

} // verus!
