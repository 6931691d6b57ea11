//! Conversion of shader source between shading-language dialects.
//!
//! Source text is normalized (for the permissive GLSL-like dialect), parsed
//! by an external intermediate-representation library, validated, and written
//! out in the requested target dialect; every outcome is mapped into one
//! uniform result shape, pinned by `conversion_post` over the named results
//! of the external library's deterministic calls.

use vstd::prelude::*;
use vstd::string::StringExecFns;

mod ir;
pub mod laws;
pub mod normalize;
pub mod stage;
pub mod text;

pub use ir::init_panic_hook;
pub use ir::{
    glsl_parse_of, glsl_text_of, hlsl_text_of, msl_text_of, validation_of, wgsl_parse_of,
    wgsl_text_of, ModuleSource,
};
pub use stage::PipelineStage;

use crate::ir::{IrModule, ValidatedInfo};
use crate::normalize::{normalize_glsl, normalize_glsl_spec};
use crate::stage::{parse_stage, stage_of_selector};
use crate::text::{chars_of, str_eq, string_from_chars};

verus! {

/// The diagnostic the permissive-dialect parse path produces: the frontend's
/// message, then the full normalized source the frontend actually saw.
pub open spec fn glsl_parse_error_message(diag: Seq<char>, refined: Seq<char>) -> Seq<char> {
    "GLSL Parse Error: "@ + diag + "\n\nPreprocessed Code:\n"@ + refined
}

/// The four recognized target selectors. Anything else is a hard error:
/// backend selection has no fallback.
pub open spec fn recognized_target(t: Seq<char>) -> bool {
    t == "hlsl"@ || t == "wgsl"@ || t == "msl"@ || t == "glsl"@
}

/// The diagnostic for a target selector outside the recognized set.
pub open spec fn unknown_target_message(t: Seq<char>) -> Seq<char> {
    "Unknown target format: "@ + t
}

/// Which frontend a conversion call hands its source to, and in what form:
/// "wgsl" selects the WGSL frontend on the raw text; every other source
/// selector falls back to the permissive path, whose strict frontend sees
/// the normalized text.
pub open spec fn module_source_of(
    source_lang: Seq<char>,
    code: Seq<char>,
    stage_sel: Seq<char>,
) -> ModuleSource {
    if source_lang == "wgsl"@ {
        ModuleSource::Wgsl { src: code }
    } else {
        ModuleSource::Glsl { stage: stage_of_selector(stage_sel), src: normalize_glsl_spec(code) }
    }
}

/// The parse stage's outcome for a module key: `None` when the frontend
/// accepts, otherwise the full diagnostic the library reports — prefixed,
/// and on the permissive path carrying the normalized source.
pub open spec fn parse_outcome(m: ModuleSource) -> Option<Seq<char>> {
    match m {
        ModuleSource::Glsl { stage, src } => match glsl_parse_of(stage, src) {
            Some(diag) => Some(glsl_parse_error_message(diag, src)),
            None => None,
        },
        ModuleSource::Wgsl { src } => match wgsl_parse_of(src) {
            Some(diag) => Some("WGSL Parse Error: "@ + diag),
            None => None,
        },
    }
}

/// The backend dispatcher's outcome for a recognized target: the named
/// result of exactly one generator, configured as the dispatch table fixes
/// (the GLSL backend at the desktop 450 profile with entry point "main").
pub open spec fn backend_outcome(
    m: ModuleSource,
    target: Seq<char>,
    stage: PipelineStage,
) -> Result<Seq<char>, Seq<char>> {
    if target == "hlsl"@ {
        hlsl_text_of(m)
    } else if target == "wgsl"@ {
        wgsl_text_of(m)
    } else if target == "msl"@ {
        msl_text_of(m)
    } else {
        glsl_text_of(m, stage, "main"@, 450)
    }
}

/// The whole pipeline's outcome: the generated target-dialect text, or the
/// first failing stage's diagnostic — parse, then validation, then target
/// dispatch, then generation; later stages are never reached.
pub open spec fn pipeline_outcome(
    code: Seq<char>,
    source_lang: Seq<char>,
    target_lang: Seq<char>,
    stage_sel: Seq<char>,
) -> Result<Seq<char>, Seq<char>> {
    let m = module_source_of(source_lang, code, stage_sel);
    if parse_outcome(m) is Some {
        Err(parse_outcome(m)->0)
    } else if validation_of(m) is Some {
        Err("Validation Error: "@ + validation_of(m)->0)
    } else if !recognized_target(target_lang) {
        Err(unknown_target_message(target_lang))
    } else {
        backend_outcome(m, target_lang, stage_of_selector(stage_sel))
    }
}

/// What a conversion call promises of its result: success with exactly the
/// pipeline's text and an empty error, or failure with an empty output and
/// exactly the first failing stage's diagnostic.
pub open spec fn conversion_post(
    r: ConversionOutput,
    code: Seq<char>,
    source_lang: Seq<char>,
    target_lang: Seq<char>,
    stage_sel: Seq<char>,
) -> bool {
    match pipeline_outcome(code, source_lang, target_lang, stage_sel) {
        Ok(text) => r.success && r.output@ == text && r.error@.len() == 0,
        Err(msg) => !r.success && r.output@.len() == 0 && r.error@ == msg,
    }
}

/// The uniform result of one conversion call.
pub struct ConversionOutput {
    pub success: bool,
    pub output: String,
    pub error: String,
}

impl ConversionOutput {
    /// Exactly one of `output`/`error` is meaningful: `error` is empty on
    /// success, `output` is empty on failure.
    pub open spec fn wf(&self) -> bool {
        (self.success ==> self.error@.len() == 0) && (!self.success ==> self.output@.len() == 0)
    }

    /// Whether the conversion succeeded.
    pub fn success(&self) -> (b: bool)
        ensures
            b == self.success,
    {
        self.success
    }

    /// The generated target-dialect text; empty on failure.
    pub fn output(&self) -> (s: String)
        ensures
            s@ == self.output@,
    {
        self.output.clone()
    }

    /// The diagnostic; empty on success.
    pub fn error(&self) -> (s: String)
        ensures
            s@ == self.error@,
    {
        self.error.clone()
    }
}

/// A failure result carrying `msg` as its diagnostic.
fn error_output(msg: &str) -> (r: ConversionOutput)
    ensures
        !r.success,
        r.output@ == Seq::<char>::empty(),
        r.error@ == msg@,
{
    ConversionOutput { success: false, output: String::new(), error: msg.to_owned() }
}

/// Normalize permissive-dialect source and hand it to the strict frontend:
/// `Ok` exactly when the frontend accepts the normalized text. A failure
/// diagnostic embeds both the frontend's message and the full normalized
/// source, which the caller otherwise could not see.
fn parse_glsl(code: &str, stage: PipelineStage) -> (r: Result<IrModule, String>)
    ensures
        r is Ok <==> glsl_parse_of(stage, normalize_glsl_spec(code@)) is None,
        r is Ok ==> r->Ok_0@ == (ModuleSource::Glsl {
            stage,
            src: normalize_glsl_spec(code@),
        }),
        r is Err ==> r->Err_0@ == glsl_parse_error_message(
            glsl_parse_of(stage, normalize_glsl_spec(code@))->0,
            normalize_glsl_spec(code@),
        ),
{
    let code_chars = chars_of(code);
    let refined_chars = normalize_glsl(&code_chars);
    let refined = string_from_chars(&refined_chars);
    match crate::ir::glsl_frontend_parse(refined.as_str(), stage) {
        Ok(m) => Ok(m),
        Err(e) => {
            let mut msg = String::from_str("GLSL Parse Error: ");
            msg.append(e.as_str());
            msg.append("\n\nPreprocessed Code:\n");
            msg.append(refined.as_str());
            proof {
                assert(msg@ =~= glsl_parse_error_message(e@, normalize_glsl_spec(code@)));
            }
            Err(msg)
        },
    }
}

/// Hand source to the WGSL frontend unchanged: `Ok` exactly when the
/// frontend accepts it; a failure carries the frontend's diagnostic under
/// the WGSL parse-error prefix, without embedding the source.
fn parse_wgsl(code: &str) -> (r: Result<IrModule, String>)
    ensures
        r is Ok <==> wgsl_parse_of(code@) is None,
        r is Ok ==> r->Ok_0@ == (ModuleSource::Wgsl { src: code@ }),
        r is Err ==> r->Err_0@ == "WGSL Parse Error: "@ + wgsl_parse_of(code@)->0,
{
    match crate::ir::wgsl_frontend_parse(code) {
        Ok(m) => Ok(m),
        Err(e) => {
            let mut msg = String::from_str("WGSL Parse Error: ");
            msg.append(e.as_str());
            Err(msg)
        },
    }
}

/// Convert shader source between dialects.
///
/// Source dialects: "wgsl" selects the WGSL-like frontend; "glsl" and every
/// other selector fall back to the permissive GLSL-like path, normalization
/// included. Targets: "hlsl" | "wgsl" | "msl" | "glsl"; any other target
/// fails explicitly. Stages: "vertex" | "compute" | anything-else=fragment.
/// The result is exactly what `conversion_post` fixes: the pipeline's text
/// on success, the first failing stage's diagnostic on failure.
pub fn convert_shader(code: &str, source_lang: &str, target_lang: &str, stage_str: &str) -> (r:
    ConversionOutput)
    ensures
        r.wf(),
        conversion_post(r, code@, source_lang@, target_lang@, stage_str@),
{
    let ghost m_key = module_source_of(source_lang@, code@, stage_str@);
    let stage = parse_stage(stage_str);

    let module_res = if str_eq(source_lang, "wgsl") {
        parse_wgsl(code)
    } else {
        parse_glsl(code, stage)
    };
    let module = match module_res {
        Ok(m) => m,
        Err(e) => {
            proof {
                assert(parse_outcome(m_key) == Some(e@));
            }
            return error_output(e.as_str());
        },
    };
    proof {
        assert(module@ == m_key);
        assert(parse_outcome(m_key) is None);
    }

    let info = match crate::ir::validate_module(&module) {
        Ok(i) => i,
        Err(e) => {
            let mut msg = String::from_str("Validation Error: ");
            msg.append(e.as_str());
            return error_output(msg.as_str());
        },
    };

    let result_code: Result<String, String> = if str_eq(target_lang, "hlsl") {
        crate::ir::write_hlsl(&module, &info)
    } else if str_eq(target_lang, "wgsl") {
        crate::ir::write_wgsl(&module, &info)
    } else if str_eq(target_lang, "msl") {
        crate::ir::write_msl(&module, &info)
    } else if str_eq(target_lang, "glsl") {
        crate::ir::write_glsl(&module, &info, stage, "main", 450)
    } else {
        let mut msg = String::from_str("Unknown target format: ");
        msg.append(target_lang);
        proof {
            assert(msg@ =~= unknown_target_message(target_lang@));
        }
        Err(msg)
    };
    proof {
        let outcome = pipeline_outcome(code@, source_lang@, target_lang@, stage_str@);
        assert(result_code is Ok ==> outcome == Ok::<Seq<char>, Seq<char>>(result_code->Ok_0@));
        assert(result_code is Err ==> outcome == Err::<Seq<char>, Seq<char>>(result_code->Err_0@));
    }

    match result_code {
        Ok(generated) => ConversionOutput {
            success: true,
            output: generated,
            error: String::new(),
        },
        Err(e) => error_output(e.as_str()),
    }
}

/// Deprecated entry point, kept for backward compatibility: a fixed binding
/// of the permissive GLSL-like source dialect, forwarding everything else to
/// `convert_shader` unchanged. Its contract is `convert_shader`'s with the
/// source selector fixed, so the two agree on every call (see the alias law
/// in `laws`).
pub fn convert_glsl(code: &str, format: &str, stage_str: &str) -> (r: ConversionOutput)
    ensures
        r.wf(),
        conversion_post(r, code@, "glsl"@, format@, stage_str@),
{
    convert_shader(code, "glsl", format, stage_str)
}

} // verus!
