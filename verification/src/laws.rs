//! The cache's governing laws, proved over its mathematical model.

use vstd::prelude::*;

use crate::cache::{
    built_opt, cache_wf, compute_build_failed, compute_pending, compute_source_is,
    first_compile_error, invalidate_spec, parallel_compile_spec, pending_count,
    prepare_frame_spec, raster_build_failed, raster_pending, raster_shaders_are,
    register_compute_spec, register_raster_spec, rt_build_failed, rt_pending,
    PipelineCacheErrorV, PipelineCacheV, RasterPipelineDesc,
};
use crate::device::{build_result, DeviceV};
use crate::shader::{
    compute_task, multi_stage_stale, task_stale, CompiledShaderV, ComputePipelineDescV,
    PipelineShaderDescV, ShaderCompileTaskV,
};

verus! {

/// Law: registering a compute pipeline twice for the same shader source
/// returns the same handle both times and leaves the registry unchanged the
/// second time, so exactly one compile task is ever created for that source.
pub proof fn lemma_register_compute_idempotent(
    c: PipelineCacheV,
    d1: ComputePipelineDescV,
    d2: ComputePipelineDescV,
)
    requires
        cache_wf(c),
        d1.source == d2.source,
    ensures
        ({
            let (c1, h1) = register_compute_spec(c, d1);
            let (c2, h2) = register_compute_spec(c1, d2);
            c2 == c1 && h2 == h1
        }),
{
    let (c1, h1) = register_compute_spec(c, d1);
    let p = compute_source_is(d1.source);
    crate::search::lemma_first_where(c.compute, p);
    match crate::search::first_where(c.compute, p) {
        Some(i) => {
            assert(compute_source_is(d2.source) == p);
        },
        None => {
            let n = c.compute.len() as int;
            assert(p(n, c1.compute[n]));
            assert forall|j: int| 0 <= j < n implies !p(j, c1.compute[j]) by {
                assert(c1.compute[j] == c.compute[j]);
            }
            crate::search::lemma_first_where_is(c1.compute, p, n);
            assert(compute_source_is(d2.source) == p);
        },
    }
}

/// Law: two raster pipelines registered with the same ordered stage list
/// share one handle and one cache entry, whatever their fixed-function state:
/// the second registration returns the first one's handle and changes
/// nothing, so the stage list's aggregate compile — the entry's task — is
/// reused for both.
pub proof fn lemma_register_raster_shares_aggregate(
    c: PipelineCacheV,
    shaders: Seq<PipelineShaderDescV>,
    d1: RasterPipelineDesc,
    d2: RasterPipelineDesc,
)
    requires
        cache_wf(c),
    ensures
        ({
            let (c1, h1) = register_raster_spec(c, shaders, d1);
            let (c2, h2) = register_raster_spec(c1, shaders, d2);
            &&& c2 == c1
            &&& h2 == h1
            &&& c1.raster[h1].shaders == shaders
        }),
{
    let (c1, h1) = register_raster_spec(c, shaders, d1);
    let p = raster_shaders_are(shaders);
    crate::search::lemma_first_where(c.raster, p);
    match crate::search::first_where(c.raster, p) {
        Some(i) => {
        },
        None => {
            let n = c.raster.len() as int;
            assert(p(n, c1.raster[n]));
            assert forall|j: int| 0 <= j < n implies !p(j, c1.raster[j]) by {
                assert(c1.raster[j] == c.raster[j]);
            }
            crate::search::lemma_first_where_is(c1.raster, p, n);
        },
    }
}

/// Law: a frame preparation that succeeds while reporting no pending work
/// changes nothing: every previously built handle keeps the very pipeline
/// object it was built with in the frame it first succeeded, so the
/// accessors keep returning stable references.
pub proof fn lemma_prepare_frame_steady_state(
    c: PipelineCacheV,
    stale: Seq<ShaderCompileTaskV>,
    o: Seq<(ShaderCompileTaskV, Result<CompiledShaderV, Seq<char>>)>,
    d: DeviceV,
)
    requires
        cache_wf(c),
        prepare_frame_spec(c, stale, o, d).1 == Ok::<nat, PipelineCacheErrorV>(0),
    ensures
        prepare_frame_spec(c, stale, o, d).0 == c,
{
    let ci = invalidate_spec(c, stale);
    match first_compile_error(ci, o) {
        Some(_) => {
            assert(false);
        },
        None => {},
    }
    match crate::search::first_where(ci.compute, compute_build_failed(d)) {
        Some(_) => {
            assert(false);
        },
        None => {},
    }
    match crate::search::first_where(ci.raster, raster_build_failed(d)) {
        Some(_) => {
            assert(false);
        },
        None => {},
    }
    match crate::search::first_where(ci.rt, rt_build_failed(d)) {
        Some(_) => {
            assert(false);
        },
        None => {},
    }
    assert(pending_count(ci) == 0);
    crate::search::lemma_count_where_to_zero(ci.compute, compute_pending(), ci.compute.len() as int);
    crate::search::lemma_count_where_to_zero(ci.raster, raster_pending(), ci.raster.len() as int);
    crate::search::lemma_count_where_to_zero(ci.rt, rt_pending(), ci.rt.len() as int);
    assert forall|i: int| 0 <= i < c.compute.len() implies ci.compute[i] == c.compute[i] by {
        assert(!compute_pending()(i, ci.compute[i]));
    }
    assert forall|i: int| 0 <= i < c.raster.len() implies ci.raster[i] == c.raster[i] by {
        assert(!raster_pending()(i, ci.raster[i]));
    }
    assert forall|i: int| 0 <= i < c.rt.len() implies ci.rt[i] == c.rt[i] by {
        assert(!rt_pending()(i, ci.rt[i]));
    }
    assert(ci =~= c);
    let c1 = prepare_frame_spec(c, stale, o, d).0;
    assert forall|i: int| 0 <= i < c.compute.len() implies c1.compute[i] == ci.compute[i] by {
        assert(!compute_pending()(i, ci.compute[i]));
    }
    assert forall|i: int| 0 <= i < c.raster.len() implies c1.raster[i] == ci.raster[i] by {
        assert(!raster_pending()(i, ci.raster[i]));
    }
    assert forall|i: int| 0 <= i < c.rt.len() implies c1.rt[i] == ci.rt[i] by {
        assert(!rt_pending()(i, ci.rt[i]));
    }
    assert(c1 =~= c);
}

/// Law: if any pending entry's shader compile failed, the whole pass fails
/// and changes nothing — no device pipeline object is created for any entry
/// of the batch, and every pending entry remains unbuilt, to be retried.
pub proof fn lemma_compile_failure_changes_nothing(
    c: PipelineCacheV,
    o: Seq<(ShaderCompileTaskV, Result<CompiledShaderV, Seq<char>>)>,
    d: DeviceV,
)
    requires
        first_compile_error(c, o) is Some,
    ensures
        parallel_compile_spec(c, o, d).0 == c,
        parallel_compile_spec(c, o, d).1 is Err,
{
}

/// Law: after some compile tasks go stale, a successful frame preparation
/// rebuilds exactly the built entries that depend on a stale task — each
/// ends with the object the device newly built for its handle — and hands
/// every unaffected entry back untouched, object included.
pub proof fn lemma_prepare_frame_rebuilds_stale(
    c: PipelineCacheV,
    stale: Seq<ShaderCompileTaskV>,
    o: Seq<(ShaderCompileTaskV, Result<CompiledShaderV, Seq<char>>)>,
    d: DeviceV,
)
    requires
        cache_wf(c),
        forall|i: int| 0 <= i < c.compute.len() ==> c.compute[i].pipeline is Some,
        forall|i: int| 0 <= i < c.raster.len() ==> c.raster[i].pipeline is Some,
        forall|i: int| 0 <= i < c.rt.len() ==> c.rt[i].pipeline is Some,
        prepare_frame_spec(c, stale, o, d).1 is Ok,
    ensures
        ({
            let c1 = prepare_frame_spec(c, stale, o, d).0;
            &&& c1.compute.len() == c.compute.len()
            &&& c1.raster.len() == c.raster.len()
            &&& c1.rt.len() == c.rt.len()
            &&& forall|i: int|
                0 <= i < c.compute.len() && !task_stale(
                    stale,
                    compute_task(c.compute[i].desc.source),
                ) ==> c1.compute[i] == c.compute[i]
            &&& forall|i: int|
                0 <= i < c.compute.len() && task_stale(
                    stale,
                    compute_task(c.compute[i].desc.source),
                ) ==> c1.compute[i].desc == c.compute[i].desc && c1.compute[i].pipeline
                    == built_opt(build_result(d.compute, i), Option::None)
                    && c1.compute[i].pipeline is Some
            &&& forall|i: int|
                0 <= i < c.raster.len() && !multi_stage_stale(c.raster[i].shaders, stale)
                    ==> c1.raster[i] == c.raster[i]
            &&& forall|i: int|
                0 <= i < c.raster.len() && multi_stage_stale(c.raster[i].shaders, stale)
                    ==> c1.raster[i].shaders == c.raster[i].shaders && c1.raster[i].desc
                    == c.raster[i].desc && c1.raster[i].pipeline == built_opt(
                    build_result(d.raster, i),
                    Option::None,
                ) && c1.raster[i].pipeline is Some
            &&& forall|i: int|
                0 <= i < c.rt.len() && !multi_stage_stale(c.rt[i].shaders, stale) ==> c1.rt[i]
                    == c.rt[i]
            &&& forall|i: int|
                0 <= i < c.rt.len() && multi_stage_stale(c.rt[i].shaders, stale) ==> c1.rt[i].shaders
                    == c.rt[i].shaders && c1.rt[i].desc == c.rt[i].desc && c1.rt[i].pipeline
                    == built_opt(build_result(d.rt, i), Option::None) && c1.rt[i].pipeline is Some
        }),
{
    let ci = invalidate_spec(c, stale);
    match first_compile_error(ci, o) {
        Some(_) => {
            assert(false);
        },
        None => {},
    }
    match crate::search::first_where(ci.compute, compute_build_failed(d)) {
        Some(_) => {
            assert(false);
        },
        None => {},
    }
    match crate::search::first_where(ci.raster, raster_build_failed(d)) {
        Some(_) => {
            assert(false);
        },
        None => {},
    }
    match crate::search::first_where(ci.rt, rt_build_failed(d)) {
        Some(_) => {
            assert(false);
        },
        None => {},
    }
    crate::search::lemma_first_where(ci.compute, compute_build_failed(d));
    crate::search::lemma_first_where(ci.raster, raster_build_failed(d));
    crate::search::lemma_first_where(ci.rt, rt_build_failed(d));
    let c1 = prepare_frame_spec(c, stale, o, d).0;
    assert forall|i: int|
        0 <= i < c.compute.len() && task_stale(
            stale,
            compute_task(c.compute[i].desc.source),
        ) implies c1.compute[i].desc == c.compute[i].desc && c1.compute[i].pipeline == built_opt(
        build_result(d.compute, i),
        Option::None,
    ) && c1.compute[i].pipeline is Some by {
        assert(ci.compute[i].pipeline is None);
        assert(!compute_build_failed(d)(i, ci.compute[i]));
        assert(build_result(d.compute, i) is Ok);
    }
    assert forall|i: int|
        0 <= i < c.raster.len() && multi_stage_stale(c.raster[i].shaders, stale) implies c1.raster[i].shaders
        == c.raster[i].shaders && c1.raster[i].desc == c.raster[i].desc && c1.raster[i].pipeline
        == built_opt(build_result(d.raster, i), Option::None) && c1.raster[i].pipeline is Some by {
        assert(ci.raster[i].pipeline is None);
        assert(!raster_build_failed(d)(i, ci.raster[i]));
        assert(build_result(d.raster, i) is Ok);
    }
    assert forall|i: int|
        0 <= i < c.rt.len() && multi_stage_stale(c.rt[i].shaders, stale) implies c1.rt[i].shaders
        == c.rt[i].shaders && c1.rt[i].desc == c.rt[i].desc && c1.rt[i].pipeline == built_opt(
        build_result(d.rt, i),
        Option::None,
    ) && c1.rt[i].pipeline is Some by {
        assert(ci.rt[i].pipeline is None);
        assert(!rt_build_failed(d)(i, ci.rt[i]));
        assert(build_result(d.rt, i) is Ok);
    }
}

} // verus!
