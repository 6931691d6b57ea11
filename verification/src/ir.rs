//! The boundary to the external intermediate-representation library (naga)
//! and to the process-wide diagnostic hook.
//!
//! Everything here is trusted: Verus believes the contracts and does not read
//! the bodies. Each item names the external function it relies on.
//!
//! The library's parse, validate and write calls are deterministic functions
//! of their arguments alone: no time, randomness or environment is read, and
//! its internal hash maps are the seed-free `FxHashMap`, so iteration order
//! is fixed. Their results are therefore given names (the `uninterp` spec
//! functions below), keyed by what produced the module: which frontend, which
//! stage, which source text. The opaque module and validation metadata carry
//! that key along as a private record (`IrModule`, `ValidatedInfo`), so each
//! stage's contract can speak of the named result of the call that made its
//! argument.

use vstd::prelude::*;
use crate::stage::PipelineStage;

verus! {

/// The external IR library's parsed-module type, opaque to this crate.
#[verifier::external_type_specification]
#[verifier::external_body]
pub struct ExModule(naga::Module);

/// The external validator's metadata, paired with the module it describes;
/// opaque to this crate.
#[verifier::external_type_specification]
#[verifier::external_body]
pub struct ExModuleInfo(naga::valid::ModuleInfo);

/// The external library's stage selector, opaque to this crate.
#[verifier::external_type_specification]
#[verifier::external_body]
pub struct ExShaderStage(naga::ShaderStage);

/// Which frontend produced an IR module and from what. This is the key under
/// which the named results of the later pipeline stages are stated: the
/// module a frontend yields is a function of this value alone.
pub enum ModuleSource {
    /// The strict GLSL frontend, for this stage, on this (already
    /// normalized) source text.
    Glsl { stage: PipelineStage, src: Seq<char> },
    /// The WGSL frontend on this source text.
    Wgsl { src: Seq<char> },
}

/// What the GLSL frontend makes of this stage and source: `None` when it
/// parses, otherwise the `Debug` rendering of its error list.
pub uninterp spec fn glsl_parse_of(stage: PipelineStage, src: Seq<char>) -> Option<Seq<char>>;

/// What the WGSL frontend makes of this source: `None` when it parses,
/// otherwise the `Debug` rendering of its parse error.
pub uninterp spec fn wgsl_parse_of(src: Seq<char>) -> Option<Seq<char>>;

/// What the validator (all flags, all capabilities) makes of the module this
/// key describes: `None` when it validates, otherwise the `Debug` rendering
/// of the validation error.
pub uninterp spec fn validation_of(m: ModuleSource) -> Option<Seq<char>>;

/// The HLSL backend's text for the validated module this key describes, or
/// the `Debug` rendering of the writer error.
pub uninterp spec fn hlsl_text_of(m: ModuleSource) -> Result<Seq<char>, Seq<char>>;

/// The WGSL backend's text for the validated module this key describes, or
/// the `Debug` rendering of the writer error.
pub uninterp spec fn wgsl_text_of(m: ModuleSource) -> Result<Seq<char>, Seq<char>>;

/// The MSL backend's text for the validated module this key describes, or
/// the `Debug` rendering of the writer error.
pub uninterp spec fn msl_text_of(m: ModuleSource) -> Result<Seq<char>, Seq<char>>;

/// The GLSL backend's text for the validated module this key describes,
/// written for the given stage, entry point and desktop profile version, or
/// the `Debug` rendering of the error.
pub uninterp spec fn glsl_text_of(
    m: ModuleSource,
    stage: PipelineStage,
    entry_point: Seq<char>,
    version: u16,
) -> Result<Seq<char>, Seq<char>>;

/// An IR module together with the record of which call produced it: the
/// stage the GLSL frontend was given (`None` on the WGSL path) and the
/// source text. The fields are private: only the parse wrappers construct
/// values, so the record always tells the truth.
pub struct IrModule {
    module: naga::Module,
    stage: Option<PipelineStage>,
    src: String,
}

impl View for IrModule {
    type V = ModuleSource;

    closed spec fn view(&self) -> ModuleSource {
        match self.stage {
            Some(stage) => ModuleSource::Glsl { stage, src: self.src@ },
            None => ModuleSource::Wgsl { src: self.src@ },
        }
    }
}

/// Validation metadata together with the record of the module it describes;
/// only `validate_module` constructs values, pairing it 1:1 with its module.
pub struct ValidatedInfo {
    info: naga::valid::ModuleInfo,
    stage: Option<PipelineStage>,
    src: String,
}

impl View for ValidatedInfo {
    type V = ModuleSource;

    closed spec fn view(&self) -> ModuleSource {
        match self.stage {
            Some(stage) => ModuleSource::Glsl { stage, src: self.src@ },
            None => ModuleSource::Wgsl { src: self.src@ },
        }
    }
}

/// Installs a diagnostic hook for uncaught internal failures. Relies on
/// `console_error_panic_hook::set_once`: idempotent, installs at most once
/// per process, no effect on any conversion result.
#[verifier::external_body]
pub fn init_panic_hook() {
    console_error_panic_hook::set_once();
}

/// Converts the library's stage selector into the external library's.
/// Relies only on naga's `ShaderStage` variants.
#[verifier::external_body]
fn to_naga_stage(stage: PipelineStage) -> naga::ShaderStage {
    match stage {
        PipelineStage::Vertex => naga::ShaderStage::Vertex,
        PipelineStage::Fragment => naga::ShaderStage::Fragment,
        PipelineStage::Compute => naga::ShaderStage::Compute,
    }
}

/// Relies on naga's GLSL frontend, `front::glsl::Frontend::parse`, with the
/// given stage and no preprocessor defines: deterministic in (stage, code).
/// `Err` carries the `Debug` rendering of the frontend's error list.
#[verifier::external_body]
pub(crate) fn glsl_frontend_parse(code: &str, stage: PipelineStage) -> (r: Result<
    IrModule,
    String,
>)
    ensures
        r is Ok ==> glsl_parse_of(stage, code@) is None && r->Ok_0@ == (ModuleSource::Glsl {
            stage,
            src: code@,
        }),
        r is Err ==> glsl_parse_of(stage, code@) == Some(r->Err_0@),
{
    let options = naga::front::glsl::Options {
        stage: to_naga_stage(stage),
        defines: Default::default(),
    };
    let mut parser = naga::front::glsl::Frontend::default();
    match parser.parse(&options, code) {
        Ok(m) => Ok(IrModule { module: m, stage: Some(stage), src: code.to_string() }),
        Err(e) => Err(format!("{:?}", e)),
    }
}

/// Relies on naga's WGSL frontend, `front::wgsl::parse_str`: deterministic
/// in the source text. `Err` carries the `Debug` rendering of the error.
#[verifier::external_body]
pub(crate) fn wgsl_frontend_parse(code: &str) -> (r: Result<IrModule, String>)
    ensures
        r is Ok ==> wgsl_parse_of(code@) is None && r->Ok_0@ == (ModuleSource::Wgsl {
            src: code@,
        }),
        r is Err ==> wgsl_parse_of(code@) == Some(r->Err_0@),
{
    match naga::front::wgsl::parse_str(code) {
        Ok(m) => Ok(IrModule { module: m, stage: None, src: code.to_string() }),
        Err(e) => Err(format!("{:?}", e)),
    }
}

/// Relies on naga's validator, `valid::Validator::validate`, run with all
/// validation flags and all capabilities enabled (the most permissive
/// configuration): deterministic in the module. `Err` carries the `Debug`
/// rendering of the error.
#[verifier::external_body]
pub(crate) fn validate_module(m: &IrModule) -> (r: Result<ValidatedInfo, String>)
    ensures
        r is Ok ==> validation_of(m@) is None && r->Ok_0@ == m@,
        r is Err ==> validation_of(m@) == Some(r->Err_0@),
{
    let mut validator = naga::valid::Validator::new(
        naga::valid::ValidationFlags::all(),
        naga::valid::Capabilities::all(),
    );
    match validator.validate(&m.module) {
        Ok(i) => Ok(ValidatedInfo { info: i, stage: m.stage, src: m.src.clone() }),
        Err(e) => Err(format!("{:?}", e)),
    }
}

/// Relies on naga's HLSL backend, `back::hlsl::Writer::write`, with default
/// options and all entry points: deterministic in the validated module.
/// `Err` carries the `Debug` rendering of the writer error.
#[verifier::external_body]
pub(crate) fn write_hlsl(m: &IrModule, info: &ValidatedInfo) -> (r: Result<String, String>)
    requires
        info@ == m@,
    ensures
        r is Ok ==> hlsl_text_of(m@) == Ok::<Seq<char>, Seq<char>>(r->Ok_0@),
        r is Err ==> hlsl_text_of(m@) == Err::<Seq<char>, Seq<char>>(r->Err_0@),
{
    let mut out = String::new();
    let options = naga::back::hlsl::Options::default();
    let mut writer = naga::back::hlsl::Writer::new(&mut out, &options);
    writer.write(&m.module, &info.info).map_err(|e| format!("{:?}", e))?;
    Ok(out)
}

/// Relies on naga's WGSL backend, `back::wgsl::write_string`, with no writer
/// flags: deterministic in the validated module. `Err` carries the `Debug`
/// rendering of the writer error.
#[verifier::external_body]
pub(crate) fn write_wgsl(m: &IrModule, info: &ValidatedInfo) -> (r: Result<String, String>)
    requires
        info@ == m@,
    ensures
        r is Ok ==> wgsl_text_of(m@) == Ok::<Seq<char>, Seq<char>>(r->Ok_0@),
        r is Err ==> wgsl_text_of(m@) == Err::<Seq<char>, Seq<char>>(r->Err_0@),
{
    naga::back::wgsl::write_string(&m.module, &info.info, naga::back::wgsl::WriterFlags::empty())
        .map_err(|e| format!("{:?}", e))
}

/// Relies on naga's MSL backend, `back::msl::Writer::write`, with default
/// options and default per-pipeline options: deterministic in the validated
/// module. `Err` carries the `Debug` rendering of the writer error.
#[verifier::external_body]
pub(crate) fn write_msl(m: &IrModule, info: &ValidatedInfo) -> (r: Result<String, String>)
    requires
        info@ == m@,
    ensures
        r is Ok ==> msl_text_of(m@) == Ok::<Seq<char>, Seq<char>>(r->Ok_0@),
        r is Err ==> msl_text_of(m@) == Err::<Seq<char>, Seq<char>>(r->Err_0@),
{
    let mut out = String::new();
    let options = naga::back::msl::Options::default();
    let pipeline_options = naga::back::msl::PipelineOptions::default();
    let mut writer = naga::back::msl::Writer::new(&mut out);
    writer.write(&m.module, &info.info, &options, &pipeline_options).map_err(|e| format!("{:?}", e))?;
    Ok(out)
}

/// Relies on naga's GLSL backend, `back::glsl::Writer`, at the fixed desktop
/// profile of the given version, with no writer flags, workgroup memory
/// zero-initialization on, the given entry point, no multiview, and default
/// bounds-check policies: deterministic in the validated module and the
/// given configuration. `Err` carries the `Debug` rendering of the error.
#[verifier::external_body]
pub(crate) fn write_glsl(
    m: &IrModule,
    info: &ValidatedInfo,
    stage: PipelineStage,
    entry_point: &str,
    version: u16,
) -> (r: Result<String, String>)
    requires
        info@ == m@,
    ensures
        r is Ok ==> glsl_text_of(m@, stage, entry_point@, version) == Ok::<Seq<char>, Seq<char>>(
            r->Ok_0@,
        ),
        r is Err ==> glsl_text_of(m@, stage, entry_point@, version) == Err::<Seq<char>, Seq<char>>(
            r->Err_0@,
        ),
{
    let mut out = String::new();
    let options = naga::back::glsl::Options { version: naga::back::glsl::Version::Desktop(version), writer_flags: naga::back::glsl::WriterFlags::empty(), binding_map: Default::default(), zero_initialize_workgroup_memory: true };
    let pipeline_options = naga::back::glsl::PipelineOptions { shader_stage: to_naga_stage(stage), entry_point: entry_point.to_string(), multiview: None };
    let mut writer = naga::back::glsl::Writer::new(&mut out, &m.module, &info.info, &options, &pipeline_options, Default::default()).map_err(|e| format!("{:?}", e))?;
    writer.write().map_err(|e| format!("{:?}", e))?;
    Ok(out)
}

} // verus!
