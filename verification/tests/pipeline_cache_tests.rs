use pipeline_cache::cache::{
    PipelineCache, PipelineCacheError, PipelineKind, RasterPipelineDesc, RayTracingPipelineDesc,
};
use pipeline_cache::device::{ComputePipeline, Device, RasterPipeline, RayTracingPipeline};
use pipeline_cache::shader::{
    compile_task_for_compute, compile_task_for_stage, shader_compile_task_eq, CompilePipelineShaders,
    CompiledShader, ComputePipelineDesc, PipelineShaderDesc, ShaderCompileOutcomes,
    ShaderCompileTask, ShaderPipelineStage, ShaderSource,
};

fn rust_source(entry: &str) -> ShaderSource {
    ShaderSource::Rust { entry: entry.to_string() }
}

fn hlsl_source(path: &str) -> ShaderSource {
    ShaderSource::Hlsl { path: path.to_string() }
}

fn compute_desc(source: ShaderSource) -> ComputePipelineDesc {
    ComputePipelineDesc { source, push_constants_bytes: 0 }
}

fn stage_desc(stage: ShaderPipelineStage, source: ShaderSource, entry: &str) -> PipelineShaderDesc {
    PipelineShaderDesc { stage, source, entry: entry.to_string() }
}

fn raster_desc(depth_write: bool) -> RasterPipelineDesc {
    RasterPipelineDesc { face_cull: true, depth_write, push_constants_bytes: 0 }
}

fn ok_shader(name: &str) -> Result<CompiledShader, String> {
    Ok(CompiledShader { name: name.to_string(), spirv: vec![1, 2, 3, 4] })
}

fn empty_outcomes() -> ShaderCompileOutcomes {
    ShaderCompileOutcomes { results: Vec::new() }
}

fn empty_device() -> Device {
    Device { compute_builds: Vec::new(), raster_builds: Vec::new(), rt_builds: Vec::new() }
}

fn no_stale() -> Vec<ShaderCompileTask> {
    Vec::new()
}

#[test]
fn register_compute_twice_returns_same_handle() {
    let mut cache = PipelineCache::new();
    let desc = compute_desc(rust_source("ssgi"));
    let h1 = cache.register_compute(&desc);
    let h2 = cache.register_compute(&desc);
    assert_eq!(h1, h2);
    // One entry means one memoized compile task was ever created for it.
    assert_eq!(cache.pending_pipeline_count(), 1);
}

#[test]
fn register_compute_different_sources_get_fresh_handles() {
    let mut cache = PipelineCache::new();
    let h1 = cache.register_compute(&compute_desc(rust_source("ssgi")));
    let h2 = cache.register_compute(&compute_desc(hlsl_source("shaders/blur.hlsl")));
    assert_ne!(h1, h2);
    assert_eq!(cache.pending_pipeline_count(), 2);
}

#[test]
fn compute_frame_succeeds_and_object_is_returned() {
    let mut cache = PipelineCache::new();
    let desc = compute_desc(rust_source("ssgi"));
    let h = cache.register_compute(&desc);

    let task = compile_task_for_compute(&desc.source);
    let outcomes = ShaderCompileOutcomes { results: vec![(task, ok_shader("ssgi"))] };
    let device = Device {
        compute_builds: vec![(0, Ok(ComputePipeline { raw: 7 }))],
        raster_builds: Vec::new(),
        rt_builds: Vec::new(),
    };

    let r = cache.prepare_frame(&no_stale(), &outcomes, &device);
    assert_eq!(r.ok(), Some(1));
    assert!(cache.compute_pipeline_ready(h));
    assert_eq!(cache.get_compute(h).raw, 7);

    // Re-registering the identical description returns the same handle and
    // schedules no work: the next frame finds nothing pending, so it never
    // asks the compiler backends for anything (an empty outcome table works).
    let h2 = cache.register_compute(&desc);
    assert_eq!(h, h2);
    assert_eq!(cache.pending_pipeline_count(), 0);
    let r2 = cache.prepare_frame(&no_stale(), &empty_outcomes(), &empty_device());
    assert_eq!(r2.ok(), Some(0));
    assert_eq!(cache.get_compute(h).raw, 7);
}

#[test]
fn raster_pipelines_with_same_stage_list_share_handle() {
    let mut cache = PipelineCache::new();
    let shaders = vec![
        stage_desc(ShaderPipelineStage::Vertex, hlsl_source("shaders/mesh.hlsl"), "vs_main"),
        stage_desc(ShaderPipelineStage::Pixel, hlsl_source("shaders/mesh.hlsl"), "ps_main"),
    ];
    // Different blend-like state, identical ordered stage list.
    let h1 = cache.register_raster(&shaders, &raster_desc(true));
    let h2 = cache.register_raster(&shaders, &raster_desc(false));
    assert_eq!(h1, h2);
    assert_eq!(cache.pending_pipeline_count(), 1);
}

#[test]
fn raster_pipelines_with_reordered_stages_do_not_share() {
    let mut cache = PipelineCache::new();
    let vs = stage_desc(ShaderPipelineStage::Vertex, hlsl_source("shaders/mesh.hlsl"), "vs_main");
    let ps = stage_desc(ShaderPipelineStage::Pixel, hlsl_source("shaders/mesh.hlsl"), "ps_main");
    let h1 = cache.register_raster(&vec![vs.clone(), ps.clone()], &raster_desc(true));
    let h2 = cache.register_raster(&vec![ps, vs], &raster_desc(true));
    assert_ne!(h1, h2);
}

#[test]
fn raster_second_stage_failure_fails_frame_and_keeps_handle_unready() {
    let mut cache = PipelineCache::new();
    let shaders = vec![
        stage_desc(ShaderPipelineStage::Vertex, hlsl_source("shaders/mesh.hlsl"), "vs_main"),
        stage_desc(ShaderPipelineStage::Pixel, hlsl_source("shaders/broken.hlsl"), "ps_main"),
    ];
    let h = cache.register_raster(&shaders, &raster_desc(true));

    let t_vs = compile_task_for_stage(&shaders[0]);
    let t_ps = compile_task_for_stage(&shaders[1]);
    let outcomes = ShaderCompileOutcomes {
        results: vec![
            (t_vs, ok_shader("mesh_vs")),
            (t_ps.clone(), Err("syntax error at line 3".to_string())),
        ],
    };
    let device = Device {
        compute_builds: Vec::new(),
        raster_builds: vec![(0, Ok(RasterPipeline { raw: 11 }))],
        rt_builds: Vec::new(),
    };

    let r = cache.prepare_frame(&no_stale(), &outcomes, &device);
    match r {
        Err(PipelineCacheError::ShaderCompile(e)) => {
            assert!(shader_compile_task_eq(&e.task, &t_ps));
            assert_eq!(e.message, "syntax error at line 3");
        }
        _ => panic!("expected a shader compile error"),
    }
    // The handle stays invalid to ask for: nothing was built.
    assert!(!cache.raster_pipeline_ready(h));
    assert_eq!(cache.pending_pipeline_count(), 1);
}

#[test]
fn steady_frame_keeps_built_objects_stable() {
    let mut cache = PipelineCache::new();
    let d1 = compute_desc(rust_source("ssgi"));
    let d2 = compute_desc(rust_source("taa"));
    let h1 = cache.register_compute(&d1);
    let h2 = cache.register_compute(&d2);

    let outcomes = ShaderCompileOutcomes {
        results: vec![
            (compile_task_for_compute(&d1.source), ok_shader("ssgi")),
            (compile_task_for_compute(&d2.source), ok_shader("taa")),
        ],
    };
    let device = Device {
        compute_builds: vec![
            (0, Ok(ComputePipeline { raw: 100 })),
            (1, Ok(ComputePipeline { raw: 200 })),
        ],
        raster_builds: Vec::new(),
        rt_builds: Vec::new(),
    };
    assert_eq!(cache.prepare_frame(&no_stale(), &outcomes, &device).ok(), Some(2));
    let before = (cache.get_compute(h1).raw, cache.get_compute(h2).raw);

    // A frame with nothing stale and nothing pending changes nothing, even if
    // a device table full of different objects is on offer.
    let other_device = Device {
        compute_builds: vec![
            (0, Ok(ComputePipeline { raw: 999 })),
            (1, Ok(ComputePipeline { raw: 998 })),
        ],
        raster_builds: Vec::new(),
        rt_builds: Vec::new(),
    };
    assert_eq!(cache.prepare_frame(&no_stale(), &empty_outcomes(), &other_device).ok(), Some(0));
    let after = (cache.get_compute(h1).raw, cache.get_compute(h2).raw);
    assert_eq!(before, after);
    assert_eq!(before, (100, 200));
}

#[test]
fn stale_entry_is_recompiled_alone() {
    let mut cache = PipelineCache::new();
    let d1 = compute_desc(rust_source("ssgi"));
    let d2 = compute_desc(rust_source("taa"));
    let h1 = cache.register_compute(&d1);
    let h2 = cache.register_compute(&d2);

    let t1 = compile_task_for_compute(&d1.source);
    let t2 = compile_task_for_compute(&d2.source);
    let outcomes = ShaderCompileOutcomes {
        results: vec![(t1.clone(), ok_shader("ssgi")), (t2, ok_shader("taa"))],
    };
    let device = Device {
        compute_builds: vec![
            (0, Ok(ComputePipeline { raw: 100 })),
            (1, Ok(ComputePipeline { raw: 200 })),
        ],
        raster_builds: Vec::new(),
        rt_builds: Vec::new(),
    };
    assert_eq!(cache.prepare_frame(&no_stale(), &outcomes, &device).ok(), Some(2));

    // The first pipeline's source changed on disk: its task goes stale.
    let stale = vec![t1];
    let rebuild_device = Device {
        compute_builds: vec![
            (0, Ok(ComputePipeline { raw: 101 })),
            (1, Ok(ComputePipeline { raw: 201 })),
        ],
        raster_builds: Vec::new(),
        rt_builds: Vec::new(),
    };
    // Exactly one entry is recompiled and rebuilt.
    let r = cache.prepare_frame(&stale, &outcomes, &rebuild_device);
    assert_eq!(r.ok(), Some(1));
    assert_eq!(cache.get_compute(h1).raw, 101);
    assert_eq!(cache.get_compute(h2).raw, 200);
}

#[test]
fn one_failing_compile_fails_whole_batch_without_building_anything() {
    let mut cache = PipelineCache::new();
    let d1 = compute_desc(rust_source("good"));
    let h1 = cache.register_compute(&d1);
    let shaders = vec![
        stage_desc(ShaderPipelineStage::Vertex, hlsl_source("shaders/bad.hlsl"), "vs_main"),
    ];
    let h2 = cache.register_raster(&shaders, &raster_desc(true));

    let t1 = compile_task_for_compute(&d1.source);
    let t_vs = compile_task_for_stage(&shaders[0]);
    let failing = ShaderCompileOutcomes {
        results: vec![
            (t1.clone(), ok_shader("good")),
            (t_vs.clone(), Err("missing file".to_string())),
        ],
    };
    let device = Device {
        compute_builds: vec![(0, Ok(ComputePipeline { raw: 1 }))],
        raster_builds: vec![(0, Ok(RasterPipeline { raw: 2 }))],
        rt_builds: Vec::new(),
    };

    let r = cache.prepare_frame(&no_stale(), &failing, &device);
    assert!(matches!(r, Err(PipelineCacheError::ShaderCompile(_))));
    // No device object was created for any entry of the batch.
    assert!(!cache.compute_pipeline_ready(h1));
    assert!(!cache.raster_pipeline_ready(h2));
    assert_eq!(cache.pending_pipeline_count(), 2);

    // Both entries stayed eligible: the next frame retries and succeeds.
    let fixed = ShaderCompileOutcomes {
        results: vec![(t1, ok_shader("good")), (t_vs, ok_shader("bad_fixed"))],
    };
    assert_eq!(cache.prepare_frame(&no_stale(), &fixed, &device).ok(), Some(2));
    assert!(cache.compute_pipeline_ready(h1));
    assert!(cache.raster_pipeline_ready(h2));
}

#[test]
fn rejected_raster_device_build_is_a_frame_error() {
    let mut cache = PipelineCache::new();
    let shaders = vec![
        stage_desc(ShaderPipelineStage::Vertex, hlsl_source("shaders/mesh.hlsl"), "vs_main"),
    ];
    let h = cache.register_raster(&shaders, &raster_desc(true));
    let outcomes = ShaderCompileOutcomes {
        results: vec![(compile_task_for_stage(&shaders[0]), ok_shader("mesh_vs"))],
    };
    let device = Device {
        compute_builds: Vec::new(),
        raster_builds: vec![(0, Err("incompatible render target".to_string()))],
        rt_builds: Vec::new(),
    };
    let r = cache.prepare_frame(&no_stale(), &outcomes, &device);
    match r {
        Err(PipelineCacheError::PipelineBuild { kind, index, message }) => {
            assert!(matches!(kind, PipelineKind::Raster));
            assert_eq!(index, 0);
            assert_eq!(message, "incompatible render target");
        }
        _ => panic!("expected a device build error"),
    }
    assert!(!cache.raster_pipeline_ready(h));
}

#[test]
fn rejected_ray_tracing_build_propagates_instead_of_aborting() {
    let mut cache = PipelineCache::new();
    let shaders = vec![
        stage_desc(ShaderPipelineStage::RayGen, hlsl_source("shaders/rt.hlsl"), "rgen"),
        stage_desc(ShaderPipelineStage::RayMiss, hlsl_source("shaders/rt.hlsl"), "rmiss"),
    ];
    let h = cache.register_ray_tracing(&shaders, &RayTracingPipelineDesc {
        max_ray_recursion_depth: 1,
    });
    let outcomes = ShaderCompileOutcomes {
        results: vec![
            (compile_task_for_stage(&shaders[0]), ok_shader("rgen")),
            (compile_task_for_stage(&shaders[1]), ok_shader("rmiss")),
        ],
    };
    let device = Device {
        compute_builds: Vec::new(),
        raster_builds: Vec::new(),
        rt_builds: vec![(0, Err("ray tracing not supported".to_string()))],
    };
    let r = cache.prepare_frame(&no_stale(), &outcomes, &device);
    assert!(matches!(
        r,
        Err(PipelineCacheError::PipelineBuild { kind: PipelineKind::RayTracing, .. })
    ));
    assert!(!cache.ray_tracing_pipeline_ready(h));

    // The failure is recoverable: a device that accepts the build succeeds.
    let good_device = Device {
        compute_builds: Vec::new(),
        raster_builds: Vec::new(),
        rt_builds: vec![(0, Ok(RayTracingPipeline { raw: 42 }))],
    };
    assert_eq!(cache.prepare_frame(&no_stale(), &outcomes, &good_device).ok(), Some(1));
    assert_eq!(cache.get_ray_tracing(h).raw, 42);
}

#[test]
fn ray_tracing_registration_is_deduplicated_by_stage_list() {
    let mut cache = PipelineCache::new();
    let shaders = vec![
        stage_desc(ShaderPipelineStage::RayGen, hlsl_source("shaders/rt.hlsl"), "rgen"),
    ];
    let h1 = cache.register_ray_tracing(&shaders, &RayTracingPipelineDesc {
        max_ray_recursion_depth: 1,
    });
    let h2 = cache.register_ray_tracing(&shaders, &RayTracingPipelineDesc {
        max_ray_recursion_depth: 4,
    });
    assert_eq!(h1, h2);
}

#[test]
fn unresolved_compile_counts_as_failed() {
    let mut cache = PipelineCache::new();
    let h = cache.register_compute(&compute_desc(rust_source("ssgi")));
    let r = cache.prepare_frame(&no_stale(), &empty_outcomes(), &empty_device());
    match r {
        Err(PipelineCacheError::ShaderCompile(e)) => {
            assert_eq!(e.message, "");
        }
        _ => panic!("expected a shader compile error"),
    }
    assert!(!cache.compute_pipeline_ready(h));
}

#[test]
fn stage_profiles_follow_the_pipeline_stage() {
    let cases = [
        (ShaderPipelineStage::Vertex, "vs"),
        (ShaderPipelineStage::Pixel, "ps"),
        (ShaderPipelineStage::RayGen, "lib"),
        (ShaderPipelineStage::RayMiss, "lib"),
        (ShaderPipelineStage::RayClosestHit, "lib"),
    ];
    for (stage, expected) in cases {
        let task = compile_task_for_stage(&stage_desc(stage, hlsl_source("shaders/a.hlsl"), "main"));
        match task {
            ShaderCompileTask::Hlsl { path, profile } => {
                assert_eq!(path, "shaders/a.hlsl");
                assert_eq!(profile, expected);
            }
            _ => panic!("a file-based stage compiles through the file backend"),
        }
    }
    // The compute path always uses the compute profile.
    match compile_task_for_compute(&hlsl_source("shaders/b.hlsl")) {
        ShaderCompileTask::Hlsl { profile, .. } => assert_eq!(profile, "cs"),
        _ => panic!("a file-based compute shader compiles through the file backend"),
    }
    // An embedded-source shader is keyed by its entry point alone.
    match compile_task_for_compute(&rust_source("ssgi")) {
        ShaderCompileTask::Rust { entry } => assert_eq!(entry, "ssgi"),
        _ => panic!("an embedded-source shader compiles through the embedded backend"),
    }
}

#[test]
fn aggregate_run_zips_results_with_descriptions_in_order() {
    let shaders = vec![
        stage_desc(ShaderPipelineStage::Vertex, hlsl_source("shaders/mesh.hlsl"), "vs_main"),
        stage_desc(ShaderPipelineStage::Pixel, hlsl_source("shaders/mesh.hlsl"), "ps_main"),
    ];
    let aggregate = CompilePipelineShaders { shader_descs: shaders.clone() };
    let outcomes = ShaderCompileOutcomes {
        results: vec![
            (compile_task_for_stage(&shaders[0]), ok_shader("mesh_vs")),
            (compile_task_for_stage(&shaders[1]), ok_shader("mesh_ps")),
        ],
    };
    let compiled = match aggregate.run(&outcomes) {
        Ok(c) => c,
        Err(_) => panic!("every stage resolved"),
    };
    assert_eq!(compiled.shaders.len(), 2);
    assert_eq!(compiled.shaders[0].code.name, "mesh_vs");
    assert_eq!(compiled.shaders[0].desc.entry, "vs_main");
    assert_eq!(compiled.shaders[1].code.name, "mesh_ps");
    assert_eq!(compiled.shaders[1].desc.entry, "ps_main");
}

#[test]
fn aggregate_run_reports_first_failing_stage() {
    let shaders = vec![
        stage_desc(ShaderPipelineStage::Vertex, hlsl_source("shaders/mesh.hlsl"), "vs_main"),
        stage_desc(ShaderPipelineStage::Pixel, hlsl_source("shaders/mesh.hlsl"), "ps_main"),
    ];
    let aggregate = CompilePipelineShaders { shader_descs: shaders.clone() };
    let t_vs = compile_task_for_stage(&shaders[0]);
    let t_ps = compile_task_for_stage(&shaders[1]);
    let outcomes = ShaderCompileOutcomes {
        results: vec![
            (t_vs.clone(), Err("first".to_string())),
            (t_ps, Err("second".to_string())),
        ],
    };
    let e = match aggregate.run(&outcomes) {
        Ok(_) => panic!("the aggregate fails"),
        Err(e) => e,
    };
    assert!(shader_compile_task_eq(&e.task, &t_vs));
    assert_eq!(e.message, "first");
}

#[test]
fn irrelevant_staleness_changes_nothing() {
    let mut cache = PipelineCache::new();
    let desc = compute_desc(rust_source("ssgi"));
    let h = cache.register_compute(&desc);
    let outcomes = ShaderCompileOutcomes {
        results: vec![(compile_task_for_compute(&desc.source), ok_shader("ssgi"))],
    };
    let device = Device {
        compute_builds: vec![(0, Ok(ComputePipeline { raw: 5 }))],
        raster_builds: Vec::new(),
        rt_builds: Vec::new(),
    };
    assert_eq!(cache.prepare_frame(&no_stale(), &outcomes, &device).ok(), Some(1));

    // A stale task nothing depends on invalidates nothing.
    let stale = vec![ShaderCompileTask::Rust { entry: "unrelated".to_string() }];
    assert_eq!(cache.prepare_frame(&stale, &empty_outcomes(), &empty_device()).ok(), Some(0));
    assert_eq!(cache.get_compute(h).raw, 5);
}

#[test]
fn empty_cache_prepares_frames_trivially() {
    let mut cache = PipelineCache::new();
    assert_eq!(cache.pending_pipeline_count(), 0);
    let r = cache.prepare_frame(&no_stale(), &empty_outcomes(), &empty_device());
    assert_eq!(r.ok(), Some(0));
}

#[test]
fn shared_stage_compile_needs_only_one_outcome() {
    // Two different raster pipelines that share a vertex shader: the shared
    // stage is one compile task, so one recorded outcome serves both.
    let mut cache = PipelineCache::new();
    let vs = stage_desc(ShaderPipelineStage::Vertex, hlsl_source("shaders/common.hlsl"), "vs_main");
    let ps_a = stage_desc(ShaderPipelineStage::Pixel, hlsl_source("shaders/a.hlsl"), "ps_main");
    let ps_b = stage_desc(ShaderPipelineStage::Pixel, hlsl_source("shaders/b.hlsl"), "ps_main");
    let ha = cache.register_raster(&vec![vs.clone(), ps_a.clone()], &raster_desc(true));
    let hb = cache.register_raster(&vec![vs.clone(), ps_b.clone()], &raster_desc(true));
    assert_ne!(ha, hb);

    let outcomes = ShaderCompileOutcomes {
        results: vec![
            (compile_task_for_stage(&vs), ok_shader("common_vs")),
            (compile_task_for_stage(&ps_a), ok_shader("a_ps")),
            (compile_task_for_stage(&ps_b), ok_shader("b_ps")),
        ],
    };
    let device = Device {
        compute_builds: Vec::new(),
        raster_builds: vec![
            (0, Ok(RasterPipeline { raw: 10 })),
            (1, Ok(RasterPipeline { raw: 20 })),
        ],
        rt_builds: Vec::new(),
    };
    assert_eq!(cache.prepare_frame(&no_stale(), &outcomes, &device).ok(), Some(2));
    assert_eq!(cache.get_raster(ha).raw, 10);
    assert_eq!(cache.get_raster(hb).raw, 20);

    // Marking the shared vertex shader stale invalidates both pipelines.
    let stale = vec![compile_task_for_stage(&vs)];
    let rebuild = Device {
        compute_builds: Vec::new(),
        raster_builds: vec![
            (0, Ok(RasterPipeline { raw: 11 })),
            (1, Ok(RasterPipeline { raw: 21 })),
        ],
        rt_builds: Vec::new(),
    };
    assert_eq!(cache.prepare_frame(&stale, &outcomes, &rebuild).ok(), Some(2));
    assert_eq!(cache.get_raster(ha).raw, 11);
    assert_eq!(cache.get_raster(hb).raw, 21);
}
