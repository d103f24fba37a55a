//! The pipeline registry: three category stores mapping stable handles to
//! cache entries, with content-addressed, idempotent registration.

use vstd::prelude::*;

use crate::device::{
    build_result, ComputePipeline, Device, DeviceV, RasterPipeline, RayTracingPipeline,
};
use crate::shader::{
    any_stage_stale, clone_desc_list, compile_task_for_compute, compute_task, descs_view,
    multi_stage_stale, resolved_outcome, run_spec, shader_desc_list_eq, shader_source_eq,
    stale_contains, task_stale, tasks_view, CompilePipelineShaders, CompiledShaderV,
    ComputePipelineDesc, ComputePipelineDescV, PipelineShaderDesc, PipelineShaderDescV,
    PipelineShaderV, ShaderCompileError, ShaderCompileErrorV, ShaderCompileOutcomes,
    ShaderCompileTask, ShaderCompileTaskV, ShaderSourceV,
};
use vstd::pervasive::unreached;

verus! {

/// A stable identifier of one compute pipeline cache entry.
#[derive(Clone, Copy, PartialEq, Eq, Structural, Debug, Hash)]
pub struct ComputePipelineHandle(usize);

impl View for ComputePipelineHandle {
    type V = int;

    closed spec fn view(&self) -> int {
        self.0 as int
    }
}

/// A stable identifier of one raster pipeline cache entry.
#[derive(Clone, Copy, PartialEq, Eq, Structural, Debug, Hash)]
pub struct RasterPipelineHandle(usize);

impl View for RasterPipelineHandle {
    type V = int;

    closed spec fn view(&self) -> int {
        self.0 as int
    }
}

/// A stable identifier of one ray-tracing pipeline cache entry.
#[derive(Clone, Copy, PartialEq, Eq, Structural, Debug, Hash)]
pub struct RtPipelineHandle(usize);

impl View for RtPipelineHandle {
    type V = int;

    closed spec fn view(&self) -> int {
        self.0 as int
    }
}

/// Fixed-function state of a raster pipeline beyond its shader stages.
#[derive(Clone, Copy, PartialEq, Eq, Structural, Debug)]
pub struct RasterPipelineDesc {
    pub face_cull: bool,
    pub depth_write: bool,
    pub push_constants_bytes: u32,
}

/// Fixed-function state of a ray-tracing pipeline beyond its shader stages.
#[derive(Clone, Copy, PartialEq, Eq, Structural, Debug)]
pub struct RayTracingPipelineDesc {
    pub max_ray_recursion_depth: u32,
}

struct ComputePipelineCacheEntry {
    desc: ComputePipelineDesc,
    pipeline: Option<ComputePipeline>,
}

struct RasterPipelineCacheEntry {
    compile_task: CompilePipelineShaders,
    desc: RasterPipelineDesc,
    pipeline: Option<RasterPipeline>,
}

struct RtPipelineCacheEntry {
    compile_task: CompilePipelineShaders,
    desc: RayTracingPipelineDesc,
    pipeline: Option<RayTracingPipeline>,
}

/// Mathematical value of one compute cache entry.
#[verifier::ext_equal]
pub struct ComputeEntryV {
    pub desc: ComputePipelineDescV,
    pub pipeline: Option<ComputePipeline>,
}

/// Mathematical value of one raster cache entry: the ordered stage
/// descriptions are both its dedup key and its aggregate compile task.
#[verifier::ext_equal]
pub struct RasterEntryV {
    pub shaders: Seq<PipelineShaderDescV>,
    pub desc: RasterPipelineDesc,
    pub pipeline: Option<RasterPipeline>,
}

/// Mathematical value of one ray-tracing cache entry.
#[verifier::ext_equal]
pub struct RtEntryV {
    pub shaders: Seq<PipelineShaderDescV>,
    pub desc: RayTracingPipelineDesc,
    pub pipeline: Option<RayTracingPipeline>,
}

/// Mathematical value of the whole registry: the entry of handle `i` in a
/// category is the `i`-th element of that category's sequence.
#[verifier::ext_equal]
pub struct PipelineCacheV {
    pub compute: Seq<ComputeEntryV>,
    pub raster: Seq<RasterEntryV>,
    pub rt: Seq<RtEntryV>,
}

/// The registry's well-formedness: within each category, no two entries share
/// a dedup key (the shader source for compute pipelines, the ordered stage
/// list for raster and ray-tracing pipelines). This is what makes
/// registration idempotent and each compile task's result shared rather than
/// duplicated.
pub open spec fn cache_wf(c: PipelineCacheV) -> bool {
    &&& forall|i: int, j: int|
        0 <= i < j < c.compute.len() ==> c.compute[i].desc.source != c.compute[j].desc.source
    &&& forall|i: int, j: int|
        0 <= i < j < c.raster.len() ==> c.raster[i].shaders != c.raster[j].shaders
    &&& forall|i: int, j: int| 0 <= i < j < c.rt.len() ==> c.rt[i].shaders != c.rt[j].shaders
}

/// Holds of a compute entry whose shader source is `s`.
pub open spec fn compute_source_is(s: ShaderSourceV) -> spec_fn(int, ComputeEntryV) -> bool {
    |i: int, e: ComputeEntryV| e.desc.source == s
}

/// Holds of a raster entry whose ordered stage list is `s`.
pub open spec fn raster_shaders_are(s: Seq<PipelineShaderDescV>) -> spec_fn(
    int,
    RasterEntryV,
) -> bool {
    |i: int, e: RasterEntryV| e.shaders == s
}

/// Holds of a ray-tracing entry whose ordered stage list is `s`.
pub open spec fn rt_shaders_are(s: Seq<PipelineShaderDescV>) -> spec_fn(int, RtEntryV) -> bool {
    |i: int, e: RtEntryV| e.shaders == s
}

/// The handle a compute shader source is registered under, if any.
pub open spec fn find_compute(c: Seq<ComputeEntryV>, s: ShaderSourceV) -> Option<int> {
    crate::search::first_where(c, compute_source_is(s))
}

/// The handle an ordered stage list is registered under among raster
/// pipelines, if any.
pub open spec fn find_raster(c: Seq<RasterEntryV>, s: Seq<PipelineShaderDescV>) -> Option<int> {
    crate::search::first_where(c, raster_shaders_are(s))
}

/// The handle an ordered stage list is registered under among ray-tracing
/// pipelines, if any.
pub open spec fn find_rt(c: Seq<RtEntryV>, s: Seq<PipelineShaderDescV>) -> Option<int> {
    crate::search::first_where(c, rt_shaders_are(s))
}

/// One compute entry after invalidation: a built pipeline whose compile task
/// went stale is discarded; everything else is untouched.
pub open spec fn compute_entry_invalidated(
    e: ComputeEntryV,
    stale: Seq<ShaderCompileTaskV>,
) -> ComputeEntryV {
    if e.pipeline is Some && task_stale(stale, compute_task(e.desc.source)) {
        ComputeEntryV { desc: e.desc, pipeline: None }
    } else {
        e
    }
}

/// One raster entry after invalidation; stale as soon as any stage is.
pub open spec fn raster_entry_invalidated(
    e: RasterEntryV,
    stale: Seq<ShaderCompileTaskV>,
) -> RasterEntryV {
    if e.pipeline is Some && multi_stage_stale(e.shaders, stale) {
        RasterEntryV { shaders: e.shaders, desc: e.desc, pipeline: None }
    } else {
        e
    }
}

/// One ray-tracing entry after invalidation; stale as soon as any stage is.
pub open spec fn rt_entry_invalidated(e: RtEntryV, stale: Seq<ShaderCompileTaskV>) -> RtEntryV {
    if e.pipeline is Some && multi_stage_stale(e.shaders, stale) {
        RtEntryV { shaders: e.shaders, desc: e.desc, pipeline: None }
    } else {
        e
    }
}

/// The whole registry after invalidation, entry by entry.
pub open spec fn invalidate_spec(c: PipelineCacheV, stale: Seq<ShaderCompileTaskV>) -> PipelineCacheV {
    PipelineCacheV {
        compute: Seq::new(c.compute.len(), |i: int| compute_entry_invalidated(c.compute[i], stale)),
        raster: Seq::new(c.raster.len(), |i: int| raster_entry_invalidated(c.raster[i], stale)),
        rt: Seq::new(c.rt.len(), |i: int| rt_entry_invalidated(c.rt[i], stale)),
    }
}

/// What registering a compute pipeline does: return the handle already
/// mapped to the shader source, or issue the next handle and store a new,
/// unbuilt entry.
pub open spec fn register_compute_spec(c: PipelineCacheV, desc: ComputePipelineDescV) -> (
    PipelineCacheV,
    int,
) {
    match find_compute(c.compute, desc.source) {
        Some(i) => (c, i),
        None => (
            PipelineCacheV {
                compute: c.compute.push(ComputeEntryV { desc, pipeline: None }),
                raster: c.raster,
                rt: c.rt,
            },
            c.compute.len() as int,
        ),
    }
}

/// What registering a raster pipeline does, keyed by the ordered stage list.
pub open spec fn register_raster_spec(
    c: PipelineCacheV,
    shaders: Seq<PipelineShaderDescV>,
    desc: RasterPipelineDesc,
) -> (PipelineCacheV, int) {
    match find_raster(c.raster, shaders) {
        Some(i) => (c, i),
        None => (
            PipelineCacheV {
                compute: c.compute,
                raster: c.raster.push(RasterEntryV { shaders, desc, pipeline: None }),
                rt: c.rt,
            },
            c.raster.len() as int,
        ),
    }
}

/// What registering a ray-tracing pipeline does, keyed by the stage list.
pub open spec fn register_ray_tracing_spec(
    c: PipelineCacheV,
    shaders: Seq<PipelineShaderDescV>,
    desc: RayTracingPipelineDesc,
) -> (PipelineCacheV, int) {
    match find_rt(c.rt, shaders) {
        Some(i) => (c, i),
        None => (
            PipelineCacheV {
                compute: c.compute,
                raster: c.raster,
                rt: c.rt.push(RtEntryV { shaders, desc, pipeline: None }),
            },
            c.rt.len() as int,
        ),
    }
}

/// The pipeline category an error arose in.
#[derive(Clone, Copy, PartialEq, Eq, Structural, Debug)]
pub enum PipelineKind {
    Compute,
    Raster,
    RayTracing,
}

/// Why a frame preparation failed. A shader compile failure fails the whole
/// batch before any device object is created; a device build failure names
/// the category and handle the device rejected. Either way the affected
/// entries stay unbuilt and are retried by the next frame preparation.
pub enum PipelineCacheError {
    ShaderCompile(ShaderCompileError),
    PipelineBuild { kind: PipelineKind, index: usize, message: String },
}

/// Mathematical value of a [`PipelineCacheError`].
pub enum PipelineCacheErrorV {
    ShaderCompile(ShaderCompileErrorV),
    PipelineBuild { kind: PipelineKind, index: int, message: Seq<char> },
}

impl View for PipelineCacheError {
    type V = PipelineCacheErrorV;

    open spec fn view(&self) -> PipelineCacheErrorV {
        match self {
            PipelineCacheError::ShaderCompile(e) => PipelineCacheErrorV::ShaderCompile(e@),
            PipelineCacheError::PipelineBuild { kind, index, message } => {
                PipelineCacheErrorV::PipelineBuild {
                    kind: *kind,
                    index: *index as int,
                    message: message@,
                }
            },
        }
    }
}

/// The mathematical value of a frame preparation's result.
pub open spec fn frame_result_view(r: Result<usize, PipelineCacheError>) -> Result<
    nat,
    PipelineCacheErrorV,
> {
    match r {
        Ok(n) => Ok(n as nat),
        Err(e) => Err(e@),
    }
}

/// Holds of an entry that awaits compilation and device construction.
pub open spec fn compute_pending() -> spec_fn(int, ComputeEntryV) -> bool {
    |i: int, e: ComputeEntryV| e.pipeline is None
}

/// Holds of a raster entry that awaits compilation and device construction.
pub open spec fn raster_pending() -> spec_fn(int, RasterEntryV) -> bool {
    |i: int, e: RasterEntryV| e.pipeline is None
}

/// Holds of a ray-tracing entry that awaits compilation and construction.
pub open spec fn rt_pending() -> spec_fn(int, RtEntryV) -> bool {
    |i: int, e: RtEntryV| e.pipeline is None
}

/// How many entries, over all three categories, a frame preparation has to
/// process: those without a built pipeline object.
pub open spec fn pending_count(c: PipelineCacheV) -> nat {
    crate::search::count_where(c.compute, compute_pending()) + crate::search::count_where(
        c.raster,
        raster_pending(),
    ) + crate::search::count_where(c.rt, rt_pending())
}

/// Holds of a pending compute entry whose shader compile failed this frame.
pub open spec fn compute_compile_failed(
    o: Seq<(ShaderCompileTaskV, Result<CompiledShaderV, Seq<char>>)>,
) -> spec_fn(int, ComputeEntryV) -> bool {
    |i: int, e: ComputeEntryV|
        e.pipeline is None && resolved_outcome(o, compute_task(e.desc.source)) is Err
}

/// Holds of a pending raster entry whose aggregate compile failed this frame.
pub open spec fn raster_compile_failed(
    o: Seq<(ShaderCompileTaskV, Result<CompiledShaderV, Seq<char>>)>,
) -> spec_fn(int, RasterEntryV) -> bool {
    |i: int, e: RasterEntryV| e.pipeline is None && run_spec(e.shaders, o) is Err
}

/// Holds of a pending ray-tracing entry whose aggregate compile failed.
pub open spec fn rt_compile_failed(
    o: Seq<(ShaderCompileTaskV, Result<CompiledShaderV, Seq<char>>)>,
) -> spec_fn(int, RtEntryV) -> bool {
    |i: int, e: RtEntryV| e.pipeline is None && run_spec(e.shaders, o) is Err
}

/// The message of a failed compile; empty where it did not fail.
pub open spec fn outcome_err_msg(r: Result<CompiledShaderV, Seq<char>>) -> Seq<char> {
    match r {
        Err(m) => m,
        Ok(_) => Seq::empty(),
    }
}

/// The error of a failed aggregate compile; a placeholder where it did not
/// fail.
pub open spec fn run_err(r: Result<Seq<PipelineShaderV>, ShaderCompileErrorV>) -> ShaderCompileErrorV {
    match r {
        Err(e) => e,
        Ok(_) => ShaderCompileErrorV {
            task: ShaderCompileTaskV::Rust { entry: Seq::empty() },
            message: Seq::empty(),
        },
    }
}

/// The first failed compile among the frame's pending entries, scanning
/// compute entries first, then raster, then ray-tracing, each in handle
/// order. A frame preparation fails with this error, before any device
/// object is created, exactly when it is not `None`.
pub open spec fn first_compile_error(
    c: PipelineCacheV,
    o: Seq<(ShaderCompileTaskV, Result<CompiledShaderV, Seq<char>>)>,
) -> Option<ShaderCompileErrorV> {
    match crate::search::first_where(c.compute, compute_compile_failed(o)) {
        Some(i) => Some(
            ShaderCompileErrorV {
                task: compute_task(c.compute[i].desc.source),
                message: outcome_err_msg(resolved_outcome(o, compute_task(c.compute[i].desc.source))),
            },
        ),
        None => match crate::search::first_where(c.raster, raster_compile_failed(o)) {
            Some(i) => Some(run_err(run_spec(c.raster[i].shaders, o))),
            None => match crate::search::first_where(c.rt, rt_compile_failed(o)) {
                Some(i) => Some(run_err(run_spec(c.rt[i].shaders, o))),
                None => None,
            },
        },
    }
}

/// Holds of a pending compute entry whose device build was rejected.
pub open spec fn compute_build_failed(d: DeviceV) -> spec_fn(int, ComputeEntryV) -> bool {
    |i: int, e: ComputeEntryV| e.pipeline is None && build_result(d.compute, i) is Err
}

/// Holds of a pending raster entry whose device build was rejected.
pub open spec fn raster_build_failed(d: DeviceV) -> spec_fn(int, RasterEntryV) -> bool {
    |i: int, e: RasterEntryV| e.pipeline is None && build_result(d.raster, i) is Err
}

/// Holds of a pending ray-tracing entry whose device build was rejected.
pub open spec fn rt_build_failed(d: DeviceV) -> spec_fn(int, RtEntryV) -> bool {
    |i: int, e: RtEntryV| e.pipeline is None && build_result(d.rt, i) is Err
}

/// The message of a rejected build; empty where it was not rejected.
pub open spec fn build_err_msg<T>(r: Result<T, Seq<char>>) -> Seq<char> {
    match r {
        Err(m) => m,
        Ok(_) => Seq::empty(),
    }
}

/// A built object where the device returned one, else the old state.
pub open spec fn built_opt<T>(r: Result<T, Seq<char>>, keep: Option<T>) -> Option<T> {
    match r {
        Ok(p) => Some(p),
        Err(_) => keep,
    }
}

/// The compute entries after the build pass reached (but did not process)
/// index `stop`: every pending entry below `stop` holds the object the
/// device built for its handle; everything else is untouched.
pub open spec fn built_compute(c: Seq<ComputeEntryV>, d: DeviceV, stop: int) -> Seq<ComputeEntryV> {
    Seq::new(
        c.len(),
        |i: int|
            if c[i].pipeline is None && i < stop {
                ComputeEntryV {
                    desc: c[i].desc,
                    pipeline: built_opt(build_result(d.compute, i), c[i].pipeline),
                }
            } else {
                c[i]
            },
    )
}

/// The raster entries after the build pass reached index `stop`.
pub open spec fn built_raster(c: Seq<RasterEntryV>, d: DeviceV, stop: int) -> Seq<RasterEntryV> {
    Seq::new(
        c.len(),
        |i: int|
            if c[i].pipeline is None && i < stop {
                RasterEntryV {
                    shaders: c[i].shaders,
                    desc: c[i].desc,
                    pipeline: built_opt(build_result(d.raster, i), c[i].pipeline),
                }
            } else {
                c[i]
            },
    )
}

/// The ray-tracing entries after the build pass reached index `stop`.
pub open spec fn built_rt(c: Seq<RtEntryV>, d: DeviceV, stop: int) -> Seq<RtEntryV> {
    Seq::new(
        c.len(),
        |i: int|
            if c[i].pipeline is None && i < stop {
                RtEntryV {
                    shaders: c[i].shaders,
                    desc: c[i].desc,
                    pipeline: built_opt(build_result(d.rt, i), c[i].pipeline),
                }
            } else {
                c[i]
            },
    )
}

/// What one compile-and-build pass does. If any pending entry's shader
/// compile failed, the pass fails with the first such error and changes
/// nothing. Otherwise device objects are constructed sequentially — all
/// pending compute entries in handle order, then raster, then ray-tracing —
/// and each success is stored at once; the first rejected build stops the
/// pass with that category's error, keeping the objects already stored. With
/// no failure at all the pass reports how many entries it processed.
pub open spec fn parallel_compile_spec(
    c: PipelineCacheV,
    o: Seq<(ShaderCompileTaskV, Result<CompiledShaderV, Seq<char>>)>,
    d: DeviceV,
) -> (PipelineCacheV, Result<nat, PipelineCacheErrorV>) {
    match first_compile_error(c, o) {
        Some(e) => (c, Err(PipelineCacheErrorV::ShaderCompile(e))),
        None => match crate::search::first_where(c.compute, compute_build_failed(d)) {
            Some(i) => (
                PipelineCacheV {
                    compute: built_compute(c.compute, d, i),
                    raster: c.raster,
                    rt: c.rt,
                },
                Err(
                    PipelineCacheErrorV::PipelineBuild {
                        kind: PipelineKind::Compute,
                        index: i,
                        message: build_err_msg(build_result(d.compute, i)),
                    },
                ),
            ),
            None => match crate::search::first_where(c.raster, raster_build_failed(d)) {
                Some(i) => (
                    PipelineCacheV {
                        compute: built_compute(c.compute, d, c.compute.len() as int),
                        raster: built_raster(c.raster, d, i),
                        rt: c.rt,
                    },
                    Err(
                        PipelineCacheErrorV::PipelineBuild {
                            kind: PipelineKind::Raster,
                            index: i,
                            message: build_err_msg(build_result(d.raster, i)),
                        },
                    ),
                ),
                None => match crate::search::first_where(c.rt, rt_build_failed(d)) {
                    Some(i) => (
                        PipelineCacheV {
                            compute: built_compute(c.compute, d, c.compute.len() as int),
                            raster: built_raster(c.raster, d, c.raster.len() as int),
                            rt: built_rt(c.rt, d, i),
                        },
                        Err(
                            PipelineCacheErrorV::PipelineBuild {
                                kind: PipelineKind::RayTracing,
                                index: i,
                                message: build_err_msg(build_result(d.rt, i)),
                            },
                        ),
                    ),
                    None => (
                        PipelineCacheV {
                            compute: built_compute(c.compute, d, c.compute.len() as int),
                            raster: built_raster(c.raster, d, c.raster.len() as int),
                            rt: built_rt(c.rt, d, c.rt.len() as int),
                        },
                        Ok(pending_count(c)),
                    ),
                },
            },
        },
    }
}

/// Invalidation never touches an entry's dedup key, so it keeps the registry
/// well-formed.
pub proof fn lemma_invalidate_wf(c: PipelineCacheV, stale: Seq<ShaderCompileTaskV>)
    requires
        cache_wf(c),
    ensures
        cache_wf(invalidate_spec(c, stale)),
{
    let c1 = invalidate_spec(c, stale);
    assert forall|i: int, j: int| 0 <= i < j < c1.compute.len() implies c1.compute[i].desc.source
        != c1.compute[j].desc.source by {
        assert(c1.compute[i].desc == c.compute[i].desc);
        assert(c1.compute[j].desc == c.compute[j].desc);
    }
    assert forall|i: int, j: int| 0 <= i < j < c1.raster.len() implies c1.raster[i].shaders
        != c1.raster[j].shaders by {
        assert(c1.raster[i].shaders == c.raster[i].shaders);
        assert(c1.raster[j].shaders == c.raster[j].shaders);
    }
    assert forall|i: int, j: int| 0 <= i < j < c1.rt.len() implies c1.rt[i].shaders
        != c1.rt[j].shaders by {
        assert(c1.rt[i].shaders == c.rt[i].shaders);
        assert(c1.rt[j].shaders == c.rt[j].shaders);
    }
}

/// The build pass never touches an entry's dedup key either, wherever it
/// stops in each category.
pub proof fn lemma_built_wf(c: PipelineCacheV, d: DeviceV, s1: int, s2: int, s3: int)
    requires
        cache_wf(c),
    ensures
        cache_wf(
            PipelineCacheV {
                compute: built_compute(c.compute, d, s1),
                raster: built_raster(c.raster, d, s2),
                rt: built_rt(c.rt, d, s3),
            },
        ),
{
    let cc = built_compute(c.compute, d, s1);
    let cr = built_raster(c.raster, d, s2);
    let ct = built_rt(c.rt, d, s3);
    assert forall|i: int, j: int| 0 <= i < j < cc.len() implies cc[i].desc.source
        != cc[j].desc.source by {
        assert(cc[i].desc == c.compute[i].desc);
        assert(cc[j].desc == c.compute[j].desc);
    }
    assert forall|i: int, j: int| 0 <= i < j < cr.len() implies cr[i].shaders != cr[j].shaders by {
        assert(cr[i].shaders == c.raster[i].shaders);
        assert(cr[j].shaders == c.raster[j].shaders);
    }
    assert forall|i: int, j: int| 0 <= i < j < ct.len() implies ct[i].shaders != ct[j].shaders by {
        assert(ct[i].shaders == c.rt[i].shaders);
        assert(ct[j].shaders == c.rt[j].shaders);
    }
}

/// What one whole frame preparation does: invalidation of stale built
/// pipelines, then the compile-and-build pass on the invalidated state.
pub open spec fn prepare_frame_spec(
    c: PipelineCacheV,
    stale: Seq<ShaderCompileTaskV>,
    o: Seq<(ShaderCompileTaskV, Result<CompiledShaderV, Seq<char>>)>,
    d: DeviceV,
) -> (PipelineCacheV, Result<nat, PipelineCacheErrorV>) {
    parallel_compile_spec(invalidate_spec(c, stale), o, d)
}

/// The pipeline registry. Entries are created by registration, never removed;
/// a handle is the index its entry was created at, so handles stay valid for
/// the registry's lifetime.
pub struct PipelineCache {
    compute_entries: Vec<ComputePipelineCacheEntry>,
    raster_entries: Vec<RasterPipelineCacheEntry>,
    rt_entries: Vec<RtPipelineCacheEntry>,
}

impl View for PipelineCache {
    type V = PipelineCacheV;

    closed spec fn view(&self) -> PipelineCacheV {
        PipelineCacheV {
            compute: self.compute_entries@.map_values(
                |e: ComputePipelineCacheEntry|
                    ComputeEntryV { desc: e.desc@, pipeline: e.pipeline },
            ),
            raster: self.raster_entries@.map_values(
                |e: RasterPipelineCacheEntry|
                    RasterEntryV { shaders: e.compile_task@, desc: e.desc, pipeline: e.pipeline },
            ),
            rt: self.rt_entries@.map_values(
                |e: RtPipelineCacheEntry|
                    RtEntryV { shaders: e.compile_task@, desc: e.desc, pipeline: e.pipeline },
            ),
        }
    }
}

impl PipelineCache {
    /// The registry's well-formedness, over its mathematical value.
    pub open spec fn wf(&self) -> bool {
        cache_wf(self@)
    }

    /// An empty registry.
    pub fn new() -> (c: PipelineCache)
        ensures
            c.wf(),
            c@ == (PipelineCacheV { compute: Seq::empty(), raster: Seq::empty(), rt: Seq::empty() }),
    {
        let c = PipelineCache {
            compute_entries: Vec::new(),
            raster_entries: Vec::new(),
            rt_entries: Vec::new(),
        };
        proof {
            assert(c@.compute =~= Seq::<ComputeEntryV>::empty());
            assert(c@.raster =~= Seq::<RasterEntryV>::empty());
            assert(c@.rt =~= Seq::<RtEntryV>::empty());
        }
        c
    }

    fn find_compute_index(&self, source: &crate::shader::ShaderSource) -> (r: Option<usize>)
        ensures
            (match r {
                Some(i) => find_compute(self@.compute, source@) == Some(i as int),
                None => find_compute(self@.compute, source@) is None,
            }),
    {
        let ghost p = compute_source_is(source@);
        let n = self.compute_entries.len();
        for i in 0..n
            invariant
                n == self.compute_entries.len(),
                p == compute_source_is(source@),
                forall|j: int| 0 <= j < i ==> !p(j, self@.compute[j]),
        {
            proof {
                assert(self@.compute[i as int].desc.source == self.compute_entries@[i as int].desc@.source);
            }
            if shader_source_eq(&self.compute_entries[i].desc.source, source) {
                proof {
                    crate::search::lemma_first_where_is(self@.compute, p, i as int);
                }
                return Some(i);
            }
        }
        proof {
            crate::search::lemma_first_where(self@.compute, p);
        }
        None
    }

    /// Registers a compute pipeline. If the shader source is already
    /// registered, the existing handle is returned and nothing changes;
    /// otherwise the next handle is issued and a new entry stored, unbuilt,
    /// whose compile is scheduled by the next frame preparation.
    pub fn register_compute(&mut self, desc: &ComputePipelineDesc) -> (h: ComputePipelineHandle)
        requires
            old(self).wf(),
        ensures
            final(self).wf(),
            final(self)@ == register_compute_spec(old(self)@, desc@).0,
            h@ == register_compute_spec(old(self)@, desc@).1,
    {
        match self.find_compute_index(&desc.source) {
            Some(i) => ComputePipelineHandle(i),
            None => {
                let i = self.compute_entries.len();
                self.compute_entries.push(
                    ComputePipelineCacheEntry { desc: desc.clone(), pipeline: None },
                );
                proof {
                    assert(self@.compute =~= old(self)@.compute.push(
                        ComputeEntryV { desc: desc@, pipeline: None },
                    ));
                    assert(self@.raster =~= old(self)@.raster);
                    assert(self@.rt =~= old(self)@.rt);
                    crate::search::lemma_first_where(
                        old(self)@.compute,
                        compute_source_is(desc.source@),
                    );
                    assert forall|a: int, b: int|
                        0 <= a < b < self@.compute.len() implies self@.compute[a].desc.source
                        != self@.compute[b].desc.source by {
                        if b < old(self)@.compute.len() {
                            assert(old(self)@.compute[a].desc.source != old(
                                self,
                            )@.compute[b].desc.source);
                        } else {
                            assert(!compute_source_is(desc.source@)(a, old(self)@.compute[a]));
                        }
                    }
                }
                ComputePipelineHandle(i)
            },
        }
    }

    fn find_raster_index(&self, shaders: &Vec<PipelineShaderDesc>) -> (r: Option<usize>)
        ensures
            (match r {
                Some(i) => find_raster(self@.raster, descs_view(shaders@)) == Some(i as int),
                None => find_raster(self@.raster, descs_view(shaders@)) is None,
            }),
    {
        let ghost p = raster_shaders_are(descs_view(shaders@));
        let n = self.raster_entries.len();
        for i in 0..n
            invariant
                n == self.raster_entries.len(),
                p == raster_shaders_are(descs_view(shaders@)),
                forall|j: int| 0 <= j < i ==> !p(j, self@.raster[j]),
        {
            proof {
                assert(self@.raster[i as int].shaders == self.raster_entries@[i as int].compile_task@);
            }
            if shader_desc_list_eq(&self.raster_entries[i].compile_task.shader_descs, shaders) {
                proof {
                    crate::search::lemma_first_where_is(self@.raster, p, i as int);
                }
                return Some(i);
            }
        }
        proof {
            crate::search::lemma_first_where(self@.raster, p);
        }
        None
    }

    fn find_rt_index(&self, shaders: &Vec<PipelineShaderDesc>) -> (r: Option<usize>)
        ensures
            (match r {
                Some(i) => find_rt(self@.rt, descs_view(shaders@)) == Some(i as int),
                None => find_rt(self@.rt, descs_view(shaders@)) is None,
            }),
    {
        let ghost p = rt_shaders_are(descs_view(shaders@));
        let n = self.rt_entries.len();
        for i in 0..n
            invariant
                n == self.rt_entries.len(),
                p == rt_shaders_are(descs_view(shaders@)),
                forall|j: int| 0 <= j < i ==> !p(j, self@.rt[j]),
        {
            proof {
                assert(self@.rt[i as int].shaders == self.rt_entries@[i as int].compile_task@);
            }
            if shader_desc_list_eq(&self.rt_entries[i].compile_task.shader_descs, shaders) {
                proof {
                    crate::search::lemma_first_where_is(self@.rt, p, i as int);
                }
                return Some(i);
            }
        }
        proof {
            crate::search::lemma_first_where(self@.rt, p);
        }
        None
    }

    /// Registers a raster pipeline, keyed by its full ordered stage list: two
    /// pipelines share a handle, an aggregate compile and its result exactly
    /// when they declare the same stages in the same order, whatever their
    /// fixed-function state. If the list is new, the next handle is issued
    /// and the aggregate compile of the whole list becomes the entry's task.
    pub fn register_raster(
        &mut self,
        shaders: &Vec<PipelineShaderDesc>,
        desc: &RasterPipelineDesc,
    ) -> (h: RasterPipelineHandle)
        requires
            old(self).wf(),
        ensures
            final(self).wf(),
            final(self)@ == register_raster_spec(old(self)@, descs_view(shaders@), *desc).0,
            h@ == register_raster_spec(old(self)@, descs_view(shaders@), *desc).1,
    {
        match self.find_raster_index(shaders) {
            Some(i) => RasterPipelineHandle(i),
            None => {
                let i = self.raster_entries.len();
                self.raster_entries.push(
                    RasterPipelineCacheEntry {
                        compile_task: CompilePipelineShaders {
                            shader_descs: clone_desc_list(shaders),
                        },
                        desc: *desc,
                        pipeline: None,
                    },
                );
                proof {
                    assert(self@.raster =~= old(self)@.raster.push(
                        RasterEntryV { shaders: descs_view(shaders@), desc: *desc, pipeline: None },
                    ));
                    assert(self@.compute =~= old(self)@.compute);
                    assert(self@.rt =~= old(self)@.rt);
                    crate::search::lemma_first_where(
                        old(self)@.raster,
                        raster_shaders_are(descs_view(shaders@)),
                    );
                    assert forall|a: int, b: int|
                        0 <= a < b < self@.raster.len() implies self@.raster[a].shaders
                        != self@.raster[b].shaders by {
                        if b < old(self)@.raster.len() {
                            assert(old(self)@.raster[a].shaders != old(self)@.raster[b].shaders);
                        } else {
                            assert(!raster_shaders_are(descs_view(shaders@))(
                                a,
                                old(self)@.raster[a],
                            ));
                        }
                    }
                }
                RasterPipelineHandle(i)
            },
        }
    }

    /// Registers a ray-tracing pipeline; the dedup-then-allocate pattern of
    /// `register_raster`, over the ray-tracing category.
    pub fn register_ray_tracing(
        &mut self,
        shaders: &Vec<PipelineShaderDesc>,
        desc: &RayTracingPipelineDesc,
    ) -> (h: RtPipelineHandle)
        requires
            old(self).wf(),
        ensures
            final(self).wf(),
            final(self)@ == register_ray_tracing_spec(old(self)@, descs_view(shaders@), *desc).0,
            h@ == register_ray_tracing_spec(old(self)@, descs_view(shaders@), *desc).1,
    {
        match self.find_rt_index(shaders) {
            Some(i) => RtPipelineHandle(i),
            None => {
                let i = self.rt_entries.len();
                self.rt_entries.push(
                    RtPipelineCacheEntry {
                        compile_task: CompilePipelineShaders {
                            shader_descs: clone_desc_list(shaders),
                        },
                        desc: *desc,
                        pipeline: None,
                    },
                );
                proof {
                    assert(self@.rt =~= old(self)@.rt.push(
                        RtEntryV { shaders: descs_view(shaders@), desc: *desc, pipeline: None },
                    ));
                    assert(self@.compute =~= old(self)@.compute);
                    assert(self@.raster =~= old(self)@.raster);
                    crate::search::lemma_first_where(
                        old(self)@.rt,
                        rt_shaders_are(descs_view(shaders@)),
                    );
                    assert forall|a: int, b: int|
                        0 <= a < b < self@.rt.len() implies self@.rt[a].shaders
                        != self@.rt[b].shaders by {
                        if b < old(self)@.rt.len() {
                            assert(old(self)@.rt[a].shaders != old(self)@.rt[b].shaders);
                        } else {
                            assert(!rt_shaders_are(descs_view(shaders@))(a, old(self)@.rt[a]));
                        }
                    }
                }
                RtPipelineHandle(i)
            },
        }
    }

    /// The built pipeline object of a handle whose last frame preparation
    /// succeeded. Asking for a handle that was never successfully built is a
    /// programming error, ruled out by the precondition.
    pub fn get_compute(&self, handle: ComputePipelineHandle) -> (p: ComputePipeline)
        requires
            0 <= handle@ < self@.compute.len(),
            self@.compute[handle@].pipeline is Some,
        ensures
            self@.compute[handle@].pipeline == Some(p),
    {
        match self.compute_entries[handle.0].pipeline {
            Some(p) => p,
            None => unreached(),
        }
    }

    /// The built raster pipeline object of a handle; see `get_compute`.
    pub fn get_raster(&self, handle: RasterPipelineHandle) -> (p: RasterPipeline)
        requires
            0 <= handle@ < self@.raster.len(),
            self@.raster[handle@].pipeline is Some,
        ensures
            self@.raster[handle@].pipeline == Some(p),
    {
        match self.raster_entries[handle.0].pipeline {
            Some(p) => p,
            None => unreached(),
        }
    }

    /// The built ray-tracing pipeline object of a handle; see `get_compute`.
    pub fn get_ray_tracing(&self, handle: RtPipelineHandle) -> (p: RayTracingPipeline)
        requires
            0 <= handle@ < self@.rt.len(),
            self@.rt[handle@].pipeline is Some,
        ensures
            self@.rt[handle@].pipeline == Some(p),
    {
        match self.rt_entries[handle.0].pipeline {
            Some(p) => p,
            None => unreached(),
        }
    }

    /// Discards every built pipeline whose memoized compilation went stale,
    /// category by category, as `invalidate_spec` states; the entry itself
    /// stays, so the handle is rebuilt by the next frame preparation.
    fn invalidate_stale_pipelines(&mut self, stale: &Vec<ShaderCompileTask>)
        requires
            old(self).wf(),
        ensures
            final(self).wf(),
            final(self)@ == invalidate_spec(old(self)@, tasks_view(stale@)),
    {
        proof {
            lemma_invalidate_wf(self@, tasks_view(stale@));
        }
        let ghost c0 = self@;
        let ghost st = tasks_view(stale@);
        let n = self.compute_entries.len();
        for i in 0..n
            invariant
                n == self.compute_entries.len(),
                c0.compute.len() == n,
                st == tasks_view(stale@),
                self@.raster == c0.raster,
                self@.rt == c0.rt,
                forall|j: int|
                    0 <= j < i ==> self@.compute[j] == compute_entry_invalidated(c0.compute[j], st),
                forall|j: int| i <= j < n ==> self@.compute[j] == c0.compute[j],
        {
            let ghost pre = self@;
            let ghost pre_entries = self.compute_entries@;
            proof {
                assert(self@.compute[i as int] == c0.compute[i as int]);
                assert(self@.compute[i as int].desc.source
                    == self.compute_entries@[i as int].desc@.source);
                assert(self@.compute[i as int].pipeline == self.compute_entries@[i as int].pipeline);
            }
            let is_built = self.compute_entries[i].pipeline.is_some();
            if is_built {
                let task = compile_task_for_compute(&self.compute_entries[i].desc.source);
                assert(task@ == compute_task(c0.compute[i as int].desc.source));
                if stale_contains(stale, &task) {
                    let entry = &mut self.compute_entries[i];
                    entry.pipeline = None;
                    proof {
                        assert forall|j: int| 0 <= j < n && j != i implies self@.compute[j]
                            == pre.compute[j] by {
                            assert(self.compute_entries@[j] == pre_entries[j]);
                        }
                        assert(self@.compute[i as int] == (ComputeEntryV {
                            desc: c0.compute[i as int].desc,
                            pipeline: None,
                        }));
                        assert(self@.compute[i as int] == compute_entry_invalidated(
                            c0.compute[i as int],
                            st,
                        ));
                    }
                } else {
                    assert(self@.compute[i as int] == compute_entry_invalidated(
                        c0.compute[i as int],
                        st,
                    ));
                }
            } else {
                assert(self@.compute[i as int] == compute_entry_invalidated(
                    c0.compute[i as int],
                    st,
                ));
            }
            proof {
                assert forall|j: int| 0 <= j < i + 1 implies self@.compute[j]
                    == compute_entry_invalidated(c0.compute[j], st) by {
                    if j < i as int {
                        assert(self@.compute[j] == pre.compute[j]);
                    }
                }
                assert forall|j: int| i + 1 <= j < n implies self@.compute[j] == c0.compute[j] by {
                    assert(self@.compute[j] == pre.compute[j]);
                }
            }
        }
        let n = self.raster_entries.len();
        for i in 0..n
            invariant
                n == self.raster_entries.len(),
                c0.raster.len() == n,
                st == tasks_view(stale@),
                self@.compute.len() == c0.compute.len(),
                forall|j: int|
                    0 <= j < c0.compute.len() ==> self@.compute[j] == compute_entry_invalidated(
                        c0.compute[j],
                        st,
                    ),
                self@.rt == c0.rt,
                forall|j: int|
                    0 <= j < i ==> self@.raster[j] == raster_entry_invalidated(c0.raster[j], st),
                forall|j: int| i <= j < n ==> self@.raster[j] == c0.raster[j],
        {
            let ghost pre = self@;
            let ghost pre_entries = self.raster_entries@;
            proof {
                assert(self@.raster[i as int] == c0.raster[i as int]);
                assert(self@.raster[i as int].shaders
                    == self.raster_entries@[i as int].compile_task@);
                assert(self@.raster[i as int].pipeline == self.raster_entries@[i as int].pipeline);
            }
            let is_built = self.raster_entries[i].pipeline.is_some();
            if is_built {
                if any_stage_stale(&self.raster_entries[i].compile_task.shader_descs, stale) {
                    let entry = &mut self.raster_entries[i];
                    entry.pipeline = None;
                    proof {
                        assert forall|j: int| 0 <= j < n && j != i implies self@.raster[j]
                            == pre.raster[j] by {
                            assert(self.raster_entries@[j] == pre_entries[j]);
                        }
                        assert(self@.raster[i as int] == (RasterEntryV {
                            shaders: c0.raster[i as int].shaders,
                            desc: c0.raster[i as int].desc,
                            pipeline: None,
                        }));
                    }
                }
            }
            proof {
                assert forall|j: int| 0 <= j < i + 1 implies self@.raster[j]
                    == raster_entry_invalidated(c0.raster[j], st) by {
                    if j < i as int {
                        assert(self@.raster[j] == pre.raster[j]);
                    } else {
                        assert(self@.raster[j] == raster_entry_invalidated(c0.raster[j], st));
                    }
                }
                assert forall|j: int| i + 1 <= j < n implies self@.raster[j] == c0.raster[j] by {
                    assert(self@.raster[j] == pre.raster[j]);
                }
                assert(self@.compute =~= pre.compute);
                assert(self@.rt =~= pre.rt);
            }
        }
        let n = self.rt_entries.len();
        for i in 0..n
            invariant
                n == self.rt_entries.len(),
                c0.rt.len() == n,
                st == tasks_view(stale@),
                self@.compute.len() == c0.compute.len(),
                forall|j: int|
                    0 <= j < c0.compute.len() ==> self@.compute[j] == compute_entry_invalidated(
                        c0.compute[j],
                        st,
                    ),
                self@.raster.len() == c0.raster.len(),
                forall|j: int|
                    0 <= j < c0.raster.len() ==> self@.raster[j] == raster_entry_invalidated(
                        c0.raster[j],
                        st,
                    ),
                forall|j: int| 0 <= j < i ==> self@.rt[j] == rt_entry_invalidated(c0.rt[j], st),
                forall|j: int| i <= j < n ==> self@.rt[j] == c0.rt[j],
        {
            let ghost pre = self@;
            let ghost pre_entries = self.rt_entries@;
            proof {
                assert(self@.rt[i as int] == c0.rt[i as int]);
                assert(self@.rt[i as int].shaders == self.rt_entries@[i as int].compile_task@);
                assert(self@.rt[i as int].pipeline == self.rt_entries@[i as int].pipeline);
            }
            let is_built = self.rt_entries[i].pipeline.is_some();
            if is_built {
                if any_stage_stale(&self.rt_entries[i].compile_task.shader_descs, stale) {
                    let entry = &mut self.rt_entries[i];
                    entry.pipeline = None;
                    proof {
                        assert forall|j: int| 0 <= j < n && j != i implies self@.rt[j]
                            == pre.rt[j] by {
                            assert(self.rt_entries@[j] == pre_entries[j]);
                        }
                        assert(self@.rt[i as int] == (RtEntryV {
                            shaders: c0.rt[i as int].shaders,
                            desc: c0.rt[i as int].desc,
                            pipeline: None,
                        }));
                    }
                }
            }
            proof {
                assert forall|j: int| 0 <= j < i + 1 implies self@.rt[j] == rt_entry_invalidated(
                    c0.rt[j],
                    st,
                ) by {
                    if j < i as int {
                        assert(self@.rt[j] == pre.rt[j]);
                    } else {
                        assert(self@.rt[j] == rt_entry_invalidated(c0.rt[j], st));
                    }
                }
                assert forall|j: int| i + 1 <= j < n implies self@.rt[j] == c0.rt[j] by {
                    assert(self@.rt[j] == pre.rt[j]);
                }
                assert(self@.compute =~= pre.compute);
                assert(self@.raster =~= pre.raster);
            }
        }
        proof {
            assert(self@.compute =~= invalidate_spec(c0, st).compute);
            assert(self@.raster =~= invalidate_spec(c0, st).raster);
            assert(self@.rt =~= invalidate_spec(c0, st).rt);
        }
    }

    /// Prepares one frame, as `prepare_frame_spec` states: first discards
    /// every built pipeline whose compile task is among the stale ones, then
    /// runs the compile-and-build pass on the result. Returns how many
    /// entries were processed, or the frame's first error; a failed frame
    /// leaves every affected entry unbuilt, to be retried by the next one.
    pub fn prepare_frame(
        &mut self,
        stale: &Vec<ShaderCompileTask>,
        outcomes: &ShaderCompileOutcomes,
        device: &Device,
    ) -> (r: Result<usize, PipelineCacheError>)
        requires
            old(self).wf(),
            old(self)@.compute.len() + old(self)@.raster.len() + old(self)@.rt.len() <= usize::MAX,
        ensures
            final(self).wf(),
            final(self)@ == prepare_frame_spec(
                old(self)@,
                tasks_view(stale@),
                outcomes@,
                device@,
            ).0,
            frame_result_view(r) == prepare_frame_spec(
                old(self)@,
                tasks_view(stale@),
                outcomes@,
                device@,
            ).1,
    {
        self.invalidate_stale_pipelines(stale);
        self.parallel_compile_shaders(outcomes, device)
    }

    /// How many registered entries currently await compilation and device
    /// construction; the next frame preparation processes exactly these.
    pub fn pending_pipeline_count(&self) -> (r: usize)
        requires
            self@.compute.len() + self@.raster.len() + self@.rt.len() <= usize::MAX,
        ensures
            r as nat == pending_count(self@),
    {
        let ghost c0 = self@;
        let mut count: usize = 0;
        let n = self.compute_entries.len();
        for i in 0..n
            invariant
                self@ == c0,
                n == self.compute_entries.len(),
                n == c0.compute.len(),
                count as nat == crate::search::count_where_to(
                    c0.compute,
                    compute_pending(),
                    i as int,
                ),
                count <= i,
        {
            proof {
                assert(c0.compute[i as int].pipeline == self.compute_entries@[i as int].pipeline);
            }
            if self.compute_entries[i].pipeline.is_none() {
                count = count + 1;
            }
        }
        let n = self.raster_entries.len();
        for i in 0..n
            invariant
                self@ == c0,
                n == self.raster_entries.len(),
                n == c0.raster.len(),
                c0.compute.len() + c0.raster.len() + c0.rt.len() <= usize::MAX,
                count as nat == crate::search::count_where(c0.compute, compute_pending())
                    + crate::search::count_where_to(c0.raster, raster_pending(), i as int),
                count <= c0.compute.len() + i,
        {
            proof {
                assert(c0.raster[i as int].pipeline == self.raster_entries@[i as int].pipeline);
                crate::search::lemma_count_where_to_le(
                    c0.compute,
                    compute_pending(),
                    c0.compute.len() as int,
                );
            }
            if self.raster_entries[i].pipeline.is_none() {
                count = count + 1;
            }
        }
        let n = self.rt_entries.len();
        for i in 0..n
            invariant
                self@ == c0,
                n == self.rt_entries.len(),
                n == c0.rt.len(),
                c0.compute.len() + c0.raster.len() + c0.rt.len() <= usize::MAX,
                count as nat == crate::search::count_where(c0.compute, compute_pending())
                    + crate::search::count_where(c0.raster, raster_pending())
                    + crate::search::count_where_to(c0.rt, rt_pending(), i as int),
                count <= c0.compute.len() + c0.raster.len() + i,
        {
            proof {
                assert(c0.rt[i as int].pipeline == self.rt_entries@[i as int].pipeline);
                crate::search::lemma_count_where_to_le(
                    c0.compute,
                    compute_pending(),
                    c0.compute.len() as int,
                );
                crate::search::lemma_count_where_to_le(
                    c0.raster,
                    raster_pending(),
                    c0.raster.len() as int,
                );
            }
            if self.rt_entries[i].pipeline.is_none() {
                count = count + 1;
            }
        }
        count
    }

    /// Whether a compute handle is valid and its pipeline currently built, so
    /// that `get_compute` may be called. A host checks this before asking for
    /// the object; asking without it is a programming error.
    pub fn compute_pipeline_ready(&self, handle: ComputePipelineHandle) -> (r: bool)
        ensures
            r == (0 <= handle@ < self@.compute.len() && self@.compute[handle@].pipeline is Some),
    {
        handle.0 < self.compute_entries.len() && self.compute_entries[handle.0].pipeline.is_some()
    }

    /// One compile-and-build pass, as `parallel_compile_spec` states. The
    /// frame's resolved shader compiles and the device's build responses are
    /// handed in as values: evaluating the memoized compile tasks and calling
    /// the graphics API are the host's outside work, and the pass is correct
    /// for every outcome they may produce. If any pending entry's compile
    /// failed, the pass returns that error and changes nothing, so every
    /// pending entry is retried by the next pass; otherwise it stores the
    /// device's objects sequentially, stops at the first rejected build, and
    /// on full success reports how many entries it processed.
    pub fn parallel_compile_shaders(
        &mut self,
        outcomes: &ShaderCompileOutcomes,
        device: &Device,
    ) -> (r: Result<usize, PipelineCacheError>)
        requires
            old(self).wf(),
            old(self)@.compute.len() + old(self)@.raster.len() + old(self)@.rt.len() <= usize::MAX,
        ensures
            final(self).wf(),
            final(self)@ == parallel_compile_spec(old(self)@, outcomes@, device@).0,
            frame_result_view(r) == parallel_compile_spec(old(self)@, outcomes@, device@).1,
    {
        let ghost c0 = self@;
        let ghost o = outcomes@;
        let ghost d = device@;
        let ghost ccf = compute_compile_failed(o);
        let ghost rcf = raster_compile_failed(o);
        let ghost tcf = rt_compile_failed(o);

        let mut num_tasks: usize = 0;

        // Every pending compute entry's shader compile must have resolved to
        // bytecode; the first that did not fails the whole pass.
        let n = self.compute_entries.len();
        for i in 0..n
            invariant
                self@ == c0,
                self.wf(),
                n == self.compute_entries.len(),
                n == c0.compute.len(),
                o == outcomes@,
                ccf == compute_compile_failed(o),
                num_tasks as nat == crate::search::count_where_to(
                    c0.compute,
                    compute_pending(),
                    i as int,
                ),
                num_tasks <= i,
                forall|j: int| 0 <= j < i ==> !ccf(j, c0.compute[j]),
        {
            proof {
                assert(c0.compute[i as int].desc.source
                    == self.compute_entries@[i as int].desc@.source);
                assert(c0.compute[i as int].pipeline == self.compute_entries@[i as int].pipeline);
            }
            let e = &self.compute_entries[i];
            if e.pipeline.is_none() {
                num_tasks = num_tasks + 1;
                let task = compile_task_for_compute(&e.desc.source);
                match outcomes.resolve(&task) {
                    Ok(_) => {
                        proof {
                            assert(!ccf(i as int, c0.compute[i as int]));
                        }
                    },
                    Err(message) => {
                        proof {
                            assert(ccf(i as int, c0.compute[i as int]));
                            crate::search::lemma_first_where_is(c0.compute, ccf, i as int);
                            assert(first_compile_error(c0, o) == Some(
                                ShaderCompileErrorV { task: task@, message: message@ },
                            ));
                        }
                        return Err(
                            PipelineCacheError::ShaderCompile(
                                ShaderCompileError { task, message },
                            ),
                        );
                    },
                }
            } else {
                proof {
                    assert(!ccf(i as int, c0.compute[i as int]));
                }
            }
        }

        // The same for the raster aggregates.
        let n = self.raster_entries.len();
        for i in 0..n
            invariant
                self@ == c0,
                self.wf(),
                n == self.raster_entries.len(),
                n == c0.raster.len(),
                c0.compute.len() + c0.raster.len() + c0.rt.len() <= usize::MAX,
                o == outcomes@,
                ccf == compute_compile_failed(o),
                rcf == raster_compile_failed(o),
                forall|j: int| 0 <= j < c0.compute.len() ==> !ccf(j, c0.compute[j]),
                num_tasks as nat == crate::search::count_where(c0.compute, compute_pending())
                    + crate::search::count_where_to(c0.raster, raster_pending(), i as int),
                num_tasks <= c0.compute.len() + i,
                forall|j: int| 0 <= j < i ==> !rcf(j, c0.raster[j]),
        {
            proof {
                assert(c0.raster[i as int].shaders == self.raster_entries@[i as int].compile_task@);
                assert(c0.raster[i as int].pipeline == self.raster_entries@[i as int].pipeline);
                crate::search::lemma_count_where_to_le(c0.compute, compute_pending(), c0.compute.len() as int);
            }
            if self.raster_entries[i].pipeline.is_none() {
                num_tasks = num_tasks + 1;
                match self.raster_entries[i].compile_task.run(outcomes) {
                    Ok(_) => {
                        proof {
                            assert(!rcf(i as int, c0.raster[i as int]));
                        }
                    },
                    Err(err) => {
                        proof {
                            assert(rcf(i as int, c0.raster[i as int]));
                            crate::search::lemma_first_where_is(c0.raster, rcf, i as int);
                            crate::search::lemma_first_where(c0.compute, ccf);
                            assert(crate::search::first_where(c0.compute, ccf) is None);
                            assert(first_compile_error(c0, o) == Some(err@));
                        }
                        return Err(PipelineCacheError::ShaderCompile(err));
                    },
                }
            } else {
                proof {
                    assert(!rcf(i as int, c0.raster[i as int]));
                }
            }
        }

        // And for the ray-tracing aggregates.
        let n = self.rt_entries.len();
        for i in 0..n
            invariant
                self@ == c0,
                self.wf(),
                n == self.rt_entries.len(),
                n == c0.rt.len(),
                c0.compute.len() + c0.raster.len() + c0.rt.len() <= usize::MAX,
                o == outcomes@,
                ccf == compute_compile_failed(o),
                rcf == raster_compile_failed(o),
                tcf == rt_compile_failed(o),
                forall|j: int| 0 <= j < c0.compute.len() ==> !ccf(j, c0.compute[j]),
                forall|j: int| 0 <= j < c0.raster.len() ==> !rcf(j, c0.raster[j]),
                num_tasks as nat == crate::search::count_where(c0.compute, compute_pending())
                    + crate::search::count_where(c0.raster, raster_pending())
                    + crate::search::count_where_to(c0.rt, rt_pending(), i as int),
                num_tasks <= c0.compute.len() + c0.raster.len() + i,
                forall|j: int| 0 <= j < i ==> !tcf(j, c0.rt[j]),
        {
            proof {
                assert(c0.rt[i as int].shaders == self.rt_entries@[i as int].compile_task@);
                assert(c0.rt[i as int].pipeline == self.rt_entries@[i as int].pipeline);
                crate::search::lemma_count_where_to_le(c0.compute, compute_pending(), c0.compute.len() as int);
                crate::search::lemma_count_where_to_le(c0.raster, raster_pending(), c0.raster.len() as int);
            }
            if self.rt_entries[i].pipeline.is_none() {
                num_tasks = num_tasks + 1;
                match self.rt_entries[i].compile_task.run(outcomes) {
                    Ok(_) => {
                        proof {
                            assert(!tcf(i as int, c0.rt[i as int]));
                        }
                    },
                    Err(err) => {
                        proof {
                            assert(tcf(i as int, c0.rt[i as int]));
                            crate::search::lemma_first_where_is(c0.rt, tcf, i as int);
                            crate::search::lemma_first_where(c0.compute, ccf);
                            assert(crate::search::first_where(c0.compute, ccf) is None);
                            crate::search::lemma_first_where(c0.raster, rcf);
                            assert(crate::search::first_where(c0.raster, rcf) is None);
                            assert(first_compile_error(c0, o) == Some(err@));
                        }
                        return Err(PipelineCacheError::ShaderCompile(err));
                    },
                }
            } else {
                proof {
                    assert(!tcf(i as int, c0.rt[i as int]));
                }
            }
        }

        proof {
            crate::search::lemma_first_where(c0.compute, ccf);
            assert(crate::search::first_where(c0.compute, ccf) is None);
            crate::search::lemma_first_where(c0.raster, rcf);
            assert(crate::search::first_where(c0.raster, rcf) is None);
            crate::search::lemma_first_where(c0.rt, tcf);
            assert(crate::search::first_where(c0.rt, tcf) is None);
            assert(first_compile_error(c0, o) is None);
            assert(num_tasks as nat == pending_count(c0));
        }

        self.build_pending_pipelines(device, num_tasks, Ghost(o))
    }

    /// The sequential device-build pass that follows a fully successful
    /// compile batch: constructs every pending entry's object in handle
    /// order — compute, then raster, then ray-tracing — storing each success
    /// at once and stopping at the first rejected build.
    fn build_pending_pipelines(
        &mut self,
        device: &Device,
        num_tasks: usize,
        Ghost(o): Ghost<Seq<(ShaderCompileTaskV, Result<CompiledShaderV, Seq<char>>)>>,
    ) -> (r: Result<usize, PipelineCacheError>)
        requires
            old(self).wf(),
            first_compile_error(old(self)@, o) is None,
            num_tasks as nat == pending_count(old(self)@),
        ensures
            final(self).wf(),
            final(self)@ == parallel_compile_spec(old(self)@, o, device@).0,
            frame_result_view(r) == parallel_compile_spec(old(self)@, o, device@).1,
    {
        let ghost c0 = self@;
        let ghost d = device@;
        let ghost cbf = compute_build_failed(d);
        let ghost rbf = raster_build_failed(d);
        let ghost tbf = rt_build_failed(d);

        let n = self.compute_entries.len();
        for i in 0..n
            invariant
                self.wf(),
                c0 == old(self)@,
                cache_wf(c0),
                n == self.compute_entries.len(),
                n == c0.compute.len(),
                d == device@,
                cbf == compute_build_failed(d),
                first_compile_error(c0, o) is None,
                self@.compute == built_compute(c0.compute, d, i as int),
                self@.raster == c0.raster,
                self@.rt == c0.rt,
                forall|j: int| 0 <= j < i ==> !cbf(j, c0.compute[j]),
        {
            let ghost pre = self@;
            let ghost pre_entries = self.compute_entries@;
            proof {
                assert(self@.compute[i as int] == built_compute(c0.compute, d, i as int)[i as int]);
                assert(self@.compute[i as int] == c0.compute[i as int]);
                assert(self@.compute[i as int].pipeline == self.compute_entries@[i as int].pipeline);
            }
            if self.compute_entries[i].pipeline.is_none() {
                match device.build_compute(i) {
                    Ok(p) => {
                        let entry = &mut self.compute_entries[i];
                        entry.pipeline = Some(p);
                        proof {
                            assert forall|j: int| 0 <= j < n && j != i implies self@.compute[j]
                                == pre.compute[j] by {
                                assert(self.compute_entries@[j] == pre_entries[j]);
                            }
                            assert(self@.compute[i as int] == (ComputeEntryV {
                                desc: c0.compute[i as int].desc,
                                pipeline: Some(p),
                            }));
                            assert(build_result(d.compute, i as int) == Ok::<
                                ComputePipeline,
                                Seq<char>,
                            >(p));
                            assert(built_compute(c0.compute, d, i as int + 1)[i as int]
                                == self@.compute[i as int]);
                            assert(self@.compute.len() == n);
                            assert forall|j: int| 0 <= j < n implies self@.compute[j]
                                == built_compute(c0.compute, d, i as int + 1)[j] by {
                                if j != i as int {
                                    assert(self@.compute[j] == pre.compute[j]);
                                    assert(pre.compute[j] == built_compute(
                                        c0.compute,
                                        d,
                                        i as int,
                                    )[j]);
                                }
                            }
                            assert(self@.compute =~= built_compute(c0.compute, d, i as int + 1));
                        }
                    },
                    Err(message) => {
                        proof {
                            assert(cbf(i as int, c0.compute[i as int]));
                            crate::search::lemma_first_where_is(c0.compute, cbf, i as int);
                            lemma_built_wf(c0, d, i as int, 0, 0);
                            assert(self@.raster =~= built_raster(c0.raster, d, 0));
                            assert(self@.rt =~= built_rt(c0.rt, d, 0));
                            assert(self@ == parallel_compile_spec(c0, o, d).0);
                        }
                        return Err(
                            PipelineCacheError::PipelineBuild {
                                kind: PipelineKind::Compute,
                                index: i,
                                message,
                            },
                        );
                    },
                }
            } else {
                proof {
                    assert(!cbf(i as int, c0.compute[i as int]));
                    assert(self@.compute =~= built_compute(c0.compute, d, i + 1));
                }
            }
        }

        let n = self.raster_entries.len();
        for i in 0..n
            invariant
                self.wf(),
                c0 == old(self)@,
                cache_wf(c0),
                n == self.raster_entries.len(),
                n == c0.raster.len(),
                d == device@,
                cbf == compute_build_failed(d),
                rbf == raster_build_failed(d),
                first_compile_error(c0, o) is None,
                forall|j: int| 0 <= j < c0.compute.len() ==> !cbf(j, c0.compute[j]),
                self@.compute == built_compute(c0.compute, d, c0.compute.len() as int),
                self@.raster == built_raster(c0.raster, d, i as int),
                self@.rt == c0.rt,
                forall|j: int| 0 <= j < i ==> !rbf(j, c0.raster[j]),
        {
            let ghost pre = self@;
            let ghost pre_entries = self.raster_entries@;
            proof {
                assert(self@.raster[i as int] == built_raster(c0.raster, d, i as int)[i as int]);
                assert(self@.raster[i as int] == c0.raster[i as int]);
                assert(self@.raster[i as int].pipeline == self.raster_entries@[i as int].pipeline);
            }
            if self.raster_entries[i].pipeline.is_none() {
                match device.build_raster(i) {
                    Ok(p) => {
                        let entry = &mut self.raster_entries[i];
                        entry.pipeline = Some(p);
                        proof {
                            assert forall|j: int| 0 <= j < n && j != i implies self@.raster[j]
                                == pre.raster[j] by {
                                assert(self.raster_entries@[j] == pre_entries[j]);
                            }
                            assert(self@.raster[i as int] == (RasterEntryV {
                                shaders: c0.raster[i as int].shaders,
                                desc: c0.raster[i as int].desc,
                                pipeline: Some(p),
                            }));
                            assert(build_result(d.raster, i as int) == Ok::<
                                RasterPipeline,
                                Seq<char>,
                            >(p));
                            assert forall|j: int| 0 <= j < n implies self@.raster[j]
                                == built_raster(c0.raster, d, i as int + 1)[j] by {
                                if j != i as int {
                                    assert(self@.raster[j] == pre.raster[j]);
                                    assert(pre.raster[j] == built_raster(
                                        c0.raster,
                                        d,
                                        i as int,
                                    )[j]);
                                }
                            }
                            assert(self@.raster =~= built_raster(c0.raster, d, i as int + 1));
                            assert(self@.compute =~= built_compute(
                                c0.compute,
                                d,
                                c0.compute.len() as int,
                            ));
                        }
                    },
                    Err(message) => {
                        proof {
                            assert(rbf(i as int, c0.raster[i as int]));
                            crate::search::lemma_first_where_is(c0.raster, rbf, i as int);
                            crate::search::lemma_first_where(c0.compute, cbf);
                            assert(crate::search::first_where(c0.compute, cbf) is None);
                            lemma_built_wf(c0, d, c0.compute.len() as int, i as int, 0);
                            assert(self@.rt =~= built_rt(c0.rt, d, 0));
                            assert(self@ == parallel_compile_spec(c0, o, d).0);
                        }
                        return Err(
                            PipelineCacheError::PipelineBuild {
                                kind: PipelineKind::Raster,
                                index: i,
                                message,
                            },
                        );
                    },
                }
            } else {
                proof {
                    assert(!rbf(i as int, c0.raster[i as int]));
                    assert(self@.raster =~= built_raster(c0.raster, d, i + 1));
                }
            }
        }

        let n = self.rt_entries.len();
        for i in 0..n
            invariant
                self.wf(),
                c0 == old(self)@,
                cache_wf(c0),
                n == self.rt_entries.len(),
                n == c0.rt.len(),
                d == device@,
                cbf == compute_build_failed(d),
                rbf == raster_build_failed(d),
                tbf == rt_build_failed(d),
                first_compile_error(c0, o) is None,
                forall|j: int| 0 <= j < c0.compute.len() ==> !cbf(j, c0.compute[j]),
                forall|j: int| 0 <= j < c0.raster.len() ==> !rbf(j, c0.raster[j]),
                self@.compute == built_compute(c0.compute, d, c0.compute.len() as int),
                self@.raster == built_raster(c0.raster, d, c0.raster.len() as int),
                self@.rt == built_rt(c0.rt, d, i as int),
                forall|j: int| 0 <= j < i ==> !tbf(j, c0.rt[j]),
        {
            let ghost pre = self@;
            let ghost pre_entries = self.rt_entries@;
            proof {
                assert(self@.rt[i as int] == built_rt(c0.rt, d, i as int)[i as int]);
                assert(self@.rt[i as int] == c0.rt[i as int]);
                assert(self@.rt[i as int].pipeline == self.rt_entries@[i as int].pipeline);
            }
            if self.rt_entries[i].pipeline.is_none() {
                match device.build_ray_tracing(i) {
                    Ok(p) => {
                        let entry = &mut self.rt_entries[i];
                        entry.pipeline = Some(p);
                        proof {
                            assert forall|j: int| 0 <= j < n && j != i implies self@.rt[j]
                                == pre.rt[j] by {
                                assert(self.rt_entries@[j] == pre_entries[j]);
                            }
                            assert(self@.rt[i as int] == (RtEntryV {
                                shaders: c0.rt[i as int].shaders,
                                desc: c0.rt[i as int].desc,
                                pipeline: Some(p),
                            }));
                            assert(build_result(d.rt, i as int) == Ok::<
                                RayTracingPipeline,
                                Seq<char>,
                            >(p));
                            assert forall|j: int| 0 <= j < n implies self@.rt[j] == built_rt(
                                c0.rt,
                                d,
                                i as int + 1,
                            )[j] by {
                                if j != i as int {
                                    assert(self@.rt[j] == pre.rt[j]);
                                    assert(pre.rt[j] == built_rt(c0.rt, d, i as int)[j]);
                                }
                            }
                            assert(self@.rt =~= built_rt(c0.rt, d, i as int + 1));
                            assert(self@.compute =~= built_compute(
                                c0.compute,
                                d,
                                c0.compute.len() as int,
                            ));
                            assert(self@.raster =~= built_raster(
                                c0.raster,
                                d,
                                c0.raster.len() as int,
                            ));
                        }
                    },
                    Err(message) => {
                        proof {
                            assert(tbf(i as int, c0.rt[i as int]));
                            crate::search::lemma_first_where_is(c0.rt, tbf, i as int);
                            crate::search::lemma_first_where(c0.compute, cbf);
                            assert(crate::search::first_where(c0.compute, cbf) is None);
                            crate::search::lemma_first_where(c0.raster, rbf);
                            assert(crate::search::first_where(c0.raster, rbf) is None);
                            lemma_built_wf(
                                c0,
                                d,
                                c0.compute.len() as int,
                                c0.raster.len() as int,
                                i as int,
                            );
                            assert(self@ == parallel_compile_spec(c0, o, d).0);
                        }
                        return Err(
                            PipelineCacheError::PipelineBuild {
                                kind: PipelineKind::RayTracing,
                                index: i,
                                message,
                            },
                        );
                    },
                }
            } else {
                proof {
                    assert(!tbf(i as int, c0.rt[i as int]));
                    assert(self@.rt =~= built_rt(c0.rt, d, i + 1));
                }
            }
        }

        proof {
            crate::search::lemma_first_where(c0.compute, cbf);
            assert(crate::search::first_where(c0.compute, cbf) is None);
            crate::search::lemma_first_where(c0.raster, rbf);
            assert(crate::search::first_where(c0.raster, rbf) is None);
            crate::search::lemma_first_where(c0.rt, tbf);
            assert(crate::search::first_where(c0.rt, tbf) is None);
            lemma_built_wf(c0, d, c0.compute.len() as int, c0.raster.len() as int, c0.rt.len() as int);
            assert(self@ == parallel_compile_spec(c0, o, d).0);
        }
        Ok(num_tasks)
    }

    /// Whether a raster handle is valid and its pipeline currently built.
    pub fn raster_pipeline_ready(&self, handle: RasterPipelineHandle) -> (r: bool)
        ensures
            r == (0 <= handle@ < self@.raster.len() && self@.raster[handle@].pipeline is Some),
    {
        handle.0 < self.raster_entries.len() && self.raster_entries[handle.0].pipeline.is_some()
    }

    /// Whether a ray-tracing handle is valid and its pipeline currently built.
    pub fn ray_tracing_pipeline_ready(&self, handle: RtPipelineHandle) -> (r: bool)
        ensures
            r == (0 <= handle@ < self@.rt.len() && self@.rt[handle@].pipeline is Some),
    {
        handle.0 < self.rt_entries.len() && self.rt_entries[handle.0].pipeline.is_some()
    }
}

} // verus!
