//! Shader source descriptions, pipeline stages, and compile-task identities.

use vstd::prelude::*;

verus! {

/// Where a shader's source lives: a source file in the file-based dialect,
/// or an entry point of the embedded-source dialect.
pub enum ShaderSource {
    Hlsl { path: String },
    Rust { entry: String },
}

/// Mathematical value of a [`ShaderSource`].
pub enum ShaderSourceV {
    Hlsl { path: Seq<char> },
    Rust { entry: Seq<char> },
}

impl View for ShaderSource {
    type V = ShaderSourceV;

    open spec fn view(&self) -> ShaderSourceV {
        match self {
            ShaderSource::Hlsl { path } => ShaderSourceV::Hlsl { path: path@ },
            ShaderSource::Rust { entry } => ShaderSourceV::Rust { entry: entry@ },
        }
    }
}

impl Clone for ShaderSource {
    fn clone(&self) -> (r: Self)
        ensures
            r@ == self@,
    {
        match self {
            ShaderSource::Hlsl { path } => ShaderSource::Hlsl { path: path.clone() },
            ShaderSource::Rust { entry } => ShaderSource::Rust { entry: entry.clone() },
        }
    }
}

/// Decides whether two shader sources denote the same source text location.
pub fn shader_source_eq(a: &ShaderSource, b: &ShaderSource) -> (r: bool)
    ensures
        r == (a@ == b@),
{
    match (a, b) {
        (ShaderSource::Hlsl { path: pa }, ShaderSource::Hlsl { path: pb }) => *pa == *pb,
        (ShaderSource::Rust { entry: ea }, ShaderSource::Rust { entry: eb }) => *ea == *eb,
        _ => false,
    }
}

/// The description of a compute pipeline: its single shader source, and the
/// fixed state beyond it. Compute pipelines are deduplicated by source alone.
pub struct ComputePipelineDesc {
    pub source: ShaderSource,
    pub push_constants_bytes: u32,
}

/// Mathematical value of a [`ComputePipelineDesc`].
#[verifier::ext_equal]
pub struct ComputePipelineDescV {
    pub source: ShaderSourceV,
    pub push_constants_bytes: u32,
}

impl View for ComputePipelineDesc {
    type V = ComputePipelineDescV;

    open spec fn view(&self) -> ComputePipelineDescV {
        ComputePipelineDescV { source: self.source@, push_constants_bytes: self.push_constants_bytes }
    }
}

impl Clone for ComputePipelineDesc {
    fn clone(&self) -> (r: Self)
        ensures
            r@ == self@,
    {
        ComputePipelineDesc {
            source: self.source.clone(),
            push_constants_bytes: self.push_constants_bytes,
        }
    }
}

/// The pipeline stage a shader is compiled for; it selects the target profile
/// handed to the file-based compiler backend.
#[derive(Clone, Copy, PartialEq, Eq, Structural, Debug, Hash)]
pub enum ShaderPipelineStage {
    Vertex,
    Pixel,
    RayGen,
    RayMiss,
    RayClosestHit,
}

/// One stage of a multi-stage (raster or ray-tracing) pipeline.
pub struct PipelineShaderDesc {
    pub stage: ShaderPipelineStage,
    pub source: ShaderSource,
    pub entry: String,
}

/// Mathematical value of a [`PipelineShaderDesc`].
#[verifier::ext_equal]
pub struct PipelineShaderDescV {
    pub stage: ShaderPipelineStage,
    pub source: ShaderSourceV,
    pub entry: Seq<char>,
}

impl View for PipelineShaderDesc {
    type V = PipelineShaderDescV;

    open spec fn view(&self) -> PipelineShaderDescV {
        PipelineShaderDescV { stage: self.stage, source: self.source@, entry: self.entry@ }
    }
}

impl Clone for PipelineShaderDesc {
    fn clone(&self) -> (r: Self)
        ensures
            r@ == self@,
    {
        PipelineShaderDesc {
            stage: self.stage,
            source: self.source.clone(),
            entry: self.entry.clone(),
        }
    }
}

/// Decides whether two stage descriptions are the same stage of the same
/// source with the same entry point.
pub fn pipeline_shader_desc_eq(a: &PipelineShaderDesc, b: &PipelineShaderDesc) -> (r: bool)
    ensures
        r == (a@ == b@),
{
    let stage_eq = match (a.stage, b.stage) {
        (ShaderPipelineStage::Vertex, ShaderPipelineStage::Vertex) => true,
        (ShaderPipelineStage::Pixel, ShaderPipelineStage::Pixel) => true,
        (ShaderPipelineStage::RayGen, ShaderPipelineStage::RayGen) => true,
        (ShaderPipelineStage::RayMiss, ShaderPipelineStage::RayMiss) => true,
        (ShaderPipelineStage::RayClosestHit, ShaderPipelineStage::RayClosestHit) => true,
        _ => false,
    };
    stage_eq && shader_source_eq(&a.source, &b.source) && a.entry == b.entry
}

/// The deep view of an ordered stage-description list.
pub open spec fn descs_view(s: Seq<PipelineShaderDesc>) -> Seq<PipelineShaderDescV> {
    s.map_values(|d: PipelineShaderDesc| d@)
}

/// Decides whether two ordered stage-description lists are equal.
pub fn shader_desc_list_eq(a: &Vec<PipelineShaderDesc>, b: &Vec<PipelineShaderDesc>) -> (r: bool)
    ensures
        r == (descs_view(a@) == descs_view(b@)),
{
    if a.len() != b.len() {
        assert(descs_view(a@).len() != descs_view(b@).len());
        return false;
    }
    let n = a.len();
    for i in 0..n
        invariant
            n == a.len() == b.len(),
            forall|j: int| 0 <= j < i ==> descs_view(a@)[j] == descs_view(b@)[j],
    {
        if !pipeline_shader_desc_eq(&a[i], &b[i]) {
            assert(descs_view(a@)[i as int] != descs_view(b@)[i as int]);
            return false;
        }
    }
    assert(descs_view(a@) =~= descs_view(b@));
    true
}

/// Clones an ordered stage-description list, stage by stage.
pub fn clone_desc_list(a: &Vec<PipelineShaderDesc>) -> (r: Vec<PipelineShaderDesc>)
    ensures
        descs_view(r@) == descs_view(a@),
{
    let mut out: Vec<PipelineShaderDesc> = Vec::new();
    let n = a.len();
    for i in 0..n
        invariant
            n == a.len(),
            out.len() == i,
            forall|j: int| 0 <= j < i ==> descs_view(out@)[j] == descs_view(a@)[j],
    {
        out.push(a[i].clone());
    }
    assert(descs_view(out@) =~= descs_view(a@));
    out
}

/// Identity of one memoized shader compilation: the embedded-source backend is
/// keyed by its entry point, the file-based backend by source path and target
/// profile. Two compiles with the same identity share one result.
pub enum ShaderCompileTask {
    Rust { entry: String },
    Hlsl { path: String, profile: String },
}

/// Mathematical value of a [`ShaderCompileTask`].
pub enum ShaderCompileTaskV {
    Rust { entry: Seq<char> },
    Hlsl { path: Seq<char>, profile: Seq<char> },
}

impl View for ShaderCompileTask {
    type V = ShaderCompileTaskV;

    open spec fn view(&self) -> ShaderCompileTaskV {
        match self {
            ShaderCompileTask::Rust { entry } => ShaderCompileTaskV::Rust { entry: entry@ },
            ShaderCompileTask::Hlsl { path, profile } => ShaderCompileTaskV::Hlsl {
                path: path@,
                profile: profile@,
            },
        }
    }
}

impl Clone for ShaderCompileTask {
    fn clone(&self) -> (r: Self)
        ensures
            r@ == self@,
    {
        match self {
            ShaderCompileTask::Rust { entry } => ShaderCompileTask::Rust { entry: entry.clone() },
            ShaderCompileTask::Hlsl { path, profile } => ShaderCompileTask::Hlsl {
                path: path.clone(),
                profile: profile.clone(),
            },
        }
    }
}

/// Decides whether two compile-task identities are the same.
pub fn shader_compile_task_eq(a: &ShaderCompileTask, b: &ShaderCompileTask) -> (r: bool)
    ensures
        r == (a@ == b@),
{
    match (a, b) {
        (ShaderCompileTask::Rust { entry: ea }, ShaderCompileTask::Rust { entry: eb }) => *ea
            == *eb,
        (
            ShaderCompileTask::Hlsl { path: pa, profile: fa },
            ShaderCompileTask::Hlsl { path: pb, profile: fb },
        ) => *pa == *pb && *fa == *fb,
        _ => false,
    }
}

/// The target profile the file-based backend is given for a pipeline stage.
pub open spec fn stage_profile(stage: ShaderPipelineStage) -> Seq<char> {
    match stage {
        ShaderPipelineStage::Vertex => "vs"@,
        ShaderPipelineStage::Pixel => "ps"@,
        ShaderPipelineStage::RayGen => "lib"@,
        ShaderPipelineStage::RayMiss => "lib"@,
        ShaderPipelineStage::RayClosestHit => "lib"@,
    }
}

/// The compile-task identity of one stage of a multi-stage pipeline.
pub open spec fn stage_task(d: PipelineShaderDescV) -> ShaderCompileTaskV {
    match d.source {
        ShaderSourceV::Rust { entry } => ShaderCompileTaskV::Rust { entry },
        ShaderSourceV::Hlsl { path } => ShaderCompileTaskV::Hlsl {
            path,
            profile: stage_profile(d.stage),
        },
    }
}

/// The compile-task identity of a compute shader: the file-based backend is
/// always given the compute profile.
pub open spec fn compute_task(s: ShaderSourceV) -> ShaderCompileTaskV {
    match s {
        ShaderSourceV::Rust { entry } => ShaderCompileTaskV::Rust { entry },
        ShaderSourceV::Hlsl { path } => ShaderCompileTaskV::Hlsl { path, profile: "cs"@ },
    }
}

/// Builds the compile task for one stage of a multi-stage pipeline.
pub fn compile_task_for_stage(d: &PipelineShaderDesc) -> (t: ShaderCompileTask)
    ensures
        t@ == stage_task(d@),
{
    match &d.source {
        ShaderSource::Rust { entry } => ShaderCompileTask::Rust { entry: entry.clone() },
        ShaderSource::Hlsl { path } => {
            let profile: String = match d.stage {
                ShaderPipelineStage::Vertex => String::from_str("vs"),
                ShaderPipelineStage::Pixel => String::from_str("ps"),
                ShaderPipelineStage::RayGen => String::from_str("lib"),
                ShaderPipelineStage::RayMiss => String::from_str("lib"),
                ShaderPipelineStage::RayClosestHit => String::from_str("lib"),
            };
            ShaderCompileTask::Hlsl { path: path.clone(), profile }
        },
    }
}

/// Builds the compile task for a compute pipeline's shader.
pub fn compile_task_for_compute(s: &ShaderSource) -> (t: ShaderCompileTask)
    ensures
        t@ == compute_task(s@),
{
    match s {
        ShaderSource::Rust { entry } => ShaderCompileTask::Rust { entry: entry.clone() },
        ShaderSource::Hlsl { path } => ShaderCompileTask::Hlsl {
            path: path.clone(),
            profile: String::from_str("cs"),
        },
    }
}

/// Bytecode and display name produced by one shader compile, shared by every
/// pipeline whose task has the same identity.
pub struct CompiledShader {
    pub name: String,
    pub spirv: Vec<u8>,
}

/// Mathematical value of a [`CompiledShader`].
#[verifier::ext_equal]
pub struct CompiledShaderV {
    pub name: Seq<char>,
    pub spirv: Seq<u8>,
}

impl View for CompiledShader {
    type V = CompiledShaderV;

    open spec fn view(&self) -> CompiledShaderV {
        CompiledShaderV { name: self.name@, spirv: self.spirv@ }
    }
}

impl Clone for CompiledShader {
    fn clone(&self) -> (r: Self)
        ensures
            r@ == self@,
    {
        let spirv = self.spirv.clone();
        proof {
            assert forall|i: int| 0 <= i < self.spirv@.len() implies self.spirv@[i]
                == spirv@[i] by {
                assert(cloned::<u8>(self.spirv[i], spirv[i]));
            }
            assert(spirv@ =~= self.spirv@);
        }
        CompiledShader { name: self.name.clone(), spirv }
    }
}

/// One stage's bytecode paired with the description it was compiled from.
pub struct PipelineShader {
    pub code: CompiledShader,
    pub desc: PipelineShaderDesc,
}

/// Mathematical value of a [`PipelineShader`].
#[verifier::ext_equal]
pub struct PipelineShaderV {
    pub code: CompiledShaderV,
    pub desc: PipelineShaderDescV,
}

impl View for PipelineShader {
    type V = PipelineShaderV;

    open spec fn view(&self) -> PipelineShaderV {
        PipelineShaderV { code: self.code@, desc: self.desc@ }
    }
}

/// The joint result of compiling every stage of one multi-stage pipeline, in
/// stage order.
pub struct CompiledPipelineShaders {
    pub shaders: Vec<PipelineShader>,
}

/// The deep view of a compiled stage list.
pub open spec fn shaders_view(s: Seq<PipelineShader>) -> Seq<PipelineShaderV> {
    s.map_values(|p: PipelineShader| p@)
}

/// What one resolved shader compile handed back: bytecode, or the backend's
/// error message.
pub open spec fn outcome_view(o: (ShaderCompileTask, Result<CompiledShader, String>)) -> (
    ShaderCompileTaskV,
    Result<CompiledShaderV, Seq<char>>,
) {
    (
        o.0@,
        match o.1 {
            Ok(c) => Ok(c@),
            Err(m) => Err(m@),
        },
    )
}

/// The resolved results of the shader compiles of one frame, one per compile
/// task identity. The memoized-computation cache deduplicates identical
/// descriptions, so one task's result serves every pipeline that shares it.
pub struct ShaderCompileOutcomes {
    pub results: Vec<(ShaderCompileTask, Result<CompiledShader, String>)>,
}

impl View for ShaderCompileOutcomes {
    type V = Seq<(ShaderCompileTaskV, Result<CompiledShaderV, Seq<char>>)>;

    open spec fn view(&self) -> Seq<(ShaderCompileTaskV, Result<CompiledShaderV, Seq<char>>)> {
        self.results@.map_values(|o: (ShaderCompileTask, Result<CompiledShader, String>)|
            outcome_view(o))
    }
}

/// Holds of an outcome recorded for the task `t`.
pub open spec fn outcome_for(t: ShaderCompileTaskV) -> spec_fn(
    int,
    (ShaderCompileTaskV, Result<CompiledShaderV, Seq<char>>),
) -> bool {
    |i: int, e: (ShaderCompileTaskV, Result<CompiledShaderV, Seq<char>>)| e.0 == t
}

/// The first result recorded for a task, if any.
pub open spec fn lookup_outcome(
    o: Seq<(ShaderCompileTaskV, Result<CompiledShaderV, Seq<char>>)>,
    t: ShaderCompileTaskV,
) -> Option<Result<CompiledShaderV, Seq<char>>> {
    match crate::search::first_where(o, outcome_for(t)) {
        Some(i) => Some(o[i].1),
        None => None,
    }
}

/// What a task's compile resolved to; a task that was never resolved counts
/// as failed with an empty message.
pub open spec fn resolved_outcome(
    o: Seq<(ShaderCompileTaskV, Result<CompiledShaderV, Seq<char>>)>,
    t: ShaderCompileTaskV,
) -> Result<CompiledShaderV, Seq<char>> {
    match lookup_outcome(o, t) {
        Some(r) => r,
        None => Err(Seq::empty()),
    }
}

impl ShaderCompileOutcomes {
    /// Looks a task's resolved compile up, as `resolved_outcome` states.
    pub fn resolve(&self, t: &ShaderCompileTask) -> (r: Result<CompiledShader, String>)
        ensures
            (match r {
                Ok(c) => resolved_outcome(self@, t@) == Ok::<CompiledShaderV, Seq<char>>(c@),
                Err(m) => resolved_outcome(self@, t@) == Err::<CompiledShaderV, Seq<char>>(m@),
            }),
    {
        let ghost p = outcome_for(t@);
        let n = self.results.len();
        for i in 0..n
            invariant
                n == self.results.len(),
                p == outcome_for(t@),
                forall|j: int| 0 <= j < i ==> !p(j, self@[j]),
        {
            if shader_compile_task_eq(&self.results[i].0, t) {
                proof {
                    assert(self@[i as int] == outcome_view(self.results@[i as int]));
                    crate::search::lemma_first_where_is(self@, p, i as int);
                }
                let r = match &self.results[i].1 {
                    Ok(c) => Ok(c.clone()),
                    Err(m) => Err(m.clone()),
                };
                return r;
            }
        }
        proof {
            crate::search::lemma_first_where(self@, p);
        }
        Err(String::new())
    }
}

/// The deep view of a list of compile-task identities.
pub open spec fn tasks_view(s: Seq<ShaderCompileTask>) -> Seq<ShaderCompileTaskV> {
    s.map_values(|t: ShaderCompileTask| t@)
}

/// Whether a compile task is among the stale ones: its result no longer
/// reflects its inputs and must be recomputed before reuse.
pub open spec fn task_stale(stale: Seq<ShaderCompileTaskV>, t: ShaderCompileTaskV) -> bool {
    exists|i: int| 0 <= i < stale.len() && stale[i] == t
}

/// Decides whether a task is among the stale ones.
pub fn stale_contains(stale: &Vec<ShaderCompileTask>, t: &ShaderCompileTask) -> (r: bool)
    ensures
        r == task_stale(tasks_view(stale@), t@),
{
    let n = stale.len();
    for i in 0..n
        invariant
            n == stale.len(),
            forall|j: int| 0 <= j < i ==> tasks_view(stale@)[j] != t@,
    {
        proof {
            assert(tasks_view(stale@)[i as int] == stale@[i as int]@);
        }
        if shader_compile_task_eq(&stale[i], t) {
            assert(tasks_view(stale@)[i as int] == t@);
            return true;
        }
    }
    false
}

/// Whether any stage of a multi-stage pipeline depends on a stale compile;
/// the aggregate's result is then stale as a whole.
pub open spec fn multi_stage_stale(
    shaders: Seq<PipelineShaderDescV>,
    stale: Seq<ShaderCompileTaskV>,
) -> bool {
    exists|i: int| 0 <= i < shaders.len() && task_stale(stale, stage_task(shaders[i]))
}

/// Decides whether any stage of an ordered stage list is stale.
pub fn any_stage_stale(shaders: &Vec<PipelineShaderDesc>, stale: &Vec<ShaderCompileTask>) -> (r:
    bool)
    ensures
        r == multi_stage_stale(descs_view(shaders@), tasks_view(stale@)),
{
    let n = shaders.len();
    for i in 0..n
        invariant
            n == shaders.len(),
            forall|j: int|
                0 <= j < i ==> !task_stale(tasks_view(stale@), stage_task(descs_view(shaders@)[j])),
    {
        proof {
            assert(descs_view(shaders@)[i as int] == shaders@[i as int]@);
        }
        let task = compile_task_for_stage(&shaders[i]);
        if stale_contains(stale, &task) {
            assert(task_stale(tasks_view(stale@), stage_task(descs_view(shaders@)[i as int])));
            return true;
        }
    }
    false
}

/// A failed shader compile: the task that failed and the backend's message.
pub struct ShaderCompileError {
    pub task: ShaderCompileTask,
    pub message: String,
}

/// Mathematical value of a [`ShaderCompileError`].
#[verifier::ext_equal]
pub struct ShaderCompileErrorV {
    pub task: ShaderCompileTaskV,
    pub message: Seq<char>,
}

impl View for ShaderCompileError {
    type V = ShaderCompileErrorV;

    open spec fn view(&self) -> ShaderCompileErrorV {
        ShaderCompileErrorV { task: self.task@, message: self.message@ }
    }
}

/// The description of one aggregate compile: the ordered stage descriptions
/// of a multi-stage pipeline. The aggregate is the unit of memoization for
/// raster and ray-tracing pipelines.
pub struct CompilePipelineShaders {
    pub shader_descs: Vec<PipelineShaderDesc>,
}

impl View for CompilePipelineShaders {
    type V = Seq<PipelineShaderDescV>;

    open spec fn view(&self) -> Seq<PipelineShaderDescV> {
        descs_view(self.shader_descs@)
    }
}

impl Clone for CompilePipelineShaders {
    fn clone(&self) -> (r: Self)
        ensures
            r@ == self@,
    {
        CompilePipelineShaders { shader_descs: clone_desc_list(&self.shader_descs) }
    }
}

/// Holds of a stage whose compile did not resolve to bytecode.
pub open spec fn stage_failed(
    o: Seq<(ShaderCompileTaskV, Result<CompiledShaderV, Seq<char>>)>,
) -> spec_fn(int, PipelineShaderDescV) -> bool {
    |i: int, d: PipelineShaderDescV| resolved_outcome(o, stage_task(d)) is Err
}

/// The bytecode a stage's compile resolved to, where it succeeded.
pub open spec fn stage_code(
    o: Seq<(ShaderCompileTaskV, Result<CompiledShaderV, Seq<char>>)>,
    d: PipelineShaderDescV,
) -> CompiledShaderV {
    match resolved_outcome(o, stage_task(d)) {
        Ok(c) => c,
        Err(_) => CompiledShaderV { name: Seq::empty(), spirv: Seq::empty() },
    }
}

/// What one aggregate compile produces from the frame's resolved shader
/// compiles: every stage's bytecode zipped with its description, in stage
/// order, or the failure of the first stage that did not compile.
pub open spec fn run_spec(
    descs: Seq<PipelineShaderDescV>,
    o: Seq<(ShaderCompileTaskV, Result<CompiledShaderV, Seq<char>>)>,
) -> Result<Seq<PipelineShaderV>, ShaderCompileErrorV> {
    match crate::search::first_where(descs, stage_failed(o)) {
        Some(i) => Err(
            ShaderCompileErrorV {
                task: stage_task(descs[i]),
                message: match resolved_outcome(o, stage_task(descs[i])) {
                    Err(m) => m,
                    Ok(_) => Seq::empty(),
                },
            },
        ),
        None => Ok(
            Seq::new(
                descs.len(),
                |i: int| PipelineShaderV { code: stage_code(o, descs[i]), desc: descs[i] },
            ),
        ),
    }
}

/// The mathematical value of an aggregate compile's result.
pub open spec fn run_result_view(r: Result<CompiledPipelineShaders, ShaderCompileError>) -> Result<
    Seq<PipelineShaderV>,
    ShaderCompileErrorV,
> {
    match r {
        Ok(c) => Ok(shaders_view(c.shaders@)),
        Err(e) => Err(e@),
    }
}

impl CompilePipelineShaders {
    /// Joins the stages' resolved compiles into the aggregate result, as
    /// `run_spec` states: all stages in order on success, the first failing
    /// stage's error otherwise.
    pub fn run(&self, outcomes: &ShaderCompileOutcomes) -> (r: Result<
        CompiledPipelineShaders,
        ShaderCompileError,
    >)
        ensures
            run_result_view(r) == run_spec(self@, outcomes@),
    {
        let ghost descs = self@;
        let ghost p = stage_failed(outcomes@);
        let mut shaders: Vec<PipelineShader> = Vec::new();
        let n = self.shader_descs.len();
        for i in 0..n
            invariant
                n == self.shader_descs.len(),
                descs == descs_view(self.shader_descs@),
                p == stage_failed(outcomes@),
                shaders.len() == i,
                forall|j: int| 0 <= j < i ==> !p(j, descs[j]),
                forall|j: int|
                    0 <= j < i ==> shaders@[j]@ == (PipelineShaderV {
                        code: stage_code(outcomes@, descs[j]),
                        desc: descs[j],
                    }),
        {
            proof {
                assert(descs[i as int] == self.shader_descs@[i as int]@);
            }
            let task = compile_task_for_stage(&self.shader_descs[i]);
            match outcomes.resolve(&task) {
                Ok(code) => {
                    shaders.push(PipelineShader { code, desc: self.shader_descs[i].clone() });
                },
                Err(message) => {
                    proof {
                        crate::search::lemma_first_where_is(descs, p, i as int);
                    }
                    return Err(ShaderCompileError { task, message });
                },
            }
        }
        proof {
            crate::search::lemma_first_where(descs, p);
            assert(shaders_view(shaders@) =~= Seq::new(
                descs.len(),
                |i: int| PipelineShaderV { code: stage_code(outcomes@, descs[i]), desc: descs[i] },
            ));
        }
        Ok(CompiledPipelineShaders { shaders })
    }
}

} // verus!
