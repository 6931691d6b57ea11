//! End-to-end conversion tests: the dialect matrix, the failure taxonomy,
//! and the behavior of the two entry points.

use shader_convert::{convert_glsl, convert_shader, init_panic_hook};

const MINIMAL_GLSL_FRAGMENT: &str =
    "layout(location=0) out vec4 fragColor;\nvoid main() { fragColor = vec4(1.0); }";
const MINIMAL_WGSL_FRAGMENT: &str =
    "@fragment fn main() -> @location(0) vec4<f32> { return vec4<f32>(1.0); }";

#[test]
fn test_glsl_to_wgsl() {
    // The minimal fragment program, written with an explicit color output:
    // naga's strict GLSL frontend knows no legacy gl_FragColor variable.
    let glsl = "layout(location=0) out vec4 fragColor;\nvoid main() { fragColor = vec4(1.0); }";
    let result = convert_shader(glsl, "glsl", "wgsl", "fragment");
    assert!(result.success());
}

#[test]
fn test_wgsl_to_hlsl() {
    let wgsl = "@fragment fn main() -> @location(0) vec4<f32> { return vec4<f32>(1.0); }";
    let result = convert_shader(wgsl, "wgsl", "hlsl", "fragment");
    assert!(result.success());
}

#[test]
fn glsl_to_wgsl_marks_fragment_entry_point() {
    let result = convert_shader(MINIMAL_GLSL_FRAGMENT, "glsl", "wgsl", "fragment");
    assert!(result.success());
    assert!(!result.output().is_empty());
    assert!(result.output().contains("@fragment"));
    assert!(result.error().is_empty());
}

#[test]
fn glsl_to_every_target() {
    for target in ["hlsl", "wgsl", "msl", "glsl"] {
        let result = convert_shader(MINIMAL_GLSL_FRAGMENT, "glsl", target, "fragment");
        assert!(result.success(), "target {} failed: {}", target, result.error());
        assert!(!result.output().is_empty());
    }
}

#[test]
fn wgsl_to_every_target() {
    for target in ["hlsl", "wgsl", "msl", "glsl"] {
        let result = convert_shader(MINIMAL_WGSL_FRAGMENT, "wgsl", target, "fragment");
        assert!(result.success(), "target {} failed: {}", target, result.error());
        assert!(!result.output().is_empty());
    }
}

#[test]
fn vertex_stage_converts() {
    let glsl = "void main() { gl_Position = vec4(0.0, 0.0, 0.0, 1.0); }";
    let result = convert_shader(glsl, "glsl", "wgsl", "vertex");
    assert!(result.success(), "{}", result.error());
}

#[test]
fn unknown_stage_falls_back_to_fragment() {
    let result = convert_shader(MINIMAL_GLSL_FRAGMENT, "glsl", "wgsl", "bogus-stage");
    assert!(result.success(), "{}", result.error());
    assert!(result.output().contains("@fragment"));
}

#[test]
fn unknown_source_dialect_falls_back_to_permissive() {
    let result = convert_shader(MINIMAL_GLSL_FRAGMENT, "some-unknown-dialect", "wgsl", "fragment");
    assert!(result.success(), "{}", result.error());
}

#[test]
fn unknown_target_is_an_explicit_error() {
    let result = convert_shader(MINIMAL_GLSL_FRAGMENT, "glsl", "spirv", "fragment");
    assert!(!result.success());
    assert!(result.output().is_empty());
    assert_eq!(result.error(), "Unknown target format: spirv");
}

#[test]
fn unknown_target_error_names_the_selector() {
    let result = convert_shader(MINIMAL_GLSL_FRAGMENT, "glsl", "metal2", "fragment");
    assert!(!result.success());
    assert!(result.error().contains("metal2"));
}

#[test]
fn glsl_parse_error_carries_normalized_source() {
    let broken = "void main() { fragColor = vec4(1.0; }";
    let result = convert_shader(broken, "glsl", "wgsl", "fragment");
    assert!(!result.success());
    assert!(result.output().is_empty());
    let error = result.error();
    assert!(error.starts_with("GLSL Parse Error: "));
    assert!(error.contains("Preprocessed Code:"));
    assert!(error.contains("#version 450"));
    assert!(error.contains("uniform Globals"));
}

#[test]
fn wgsl_parse_error_is_prefixed() {
    let broken = "@fragment fn main( -> vec4<f32> {}";
    let result = convert_shader(broken, "wgsl", "hlsl", "fragment");
    assert!(!result.success());
    assert!(result.output().is_empty());
    assert!(result.error().starts_with("WGSL Parse Error: "));
}

#[test]
fn validation_error_is_prefixed() {
    // A vertex entry point that never writes the position builtin parses
    // but fails semantic validation.
    let wgsl = "@vertex fn main() {}";
    let result = convert_shader(wgsl, "wgsl", "hlsl", "vertex");
    assert!(!result.success());
    assert!(result.output().is_empty());
    assert!(
        result.error().starts_with("Validation Error: "),
        "unexpected error: {}",
        result.error()
    );
}

#[test]
fn user_time_uniform_declaration_does_not_collide_with_header() {
    let glsl = "uniform float uTime;\nlayout(location=0) out vec4 fragColor;\nvoid main() { fragColor = vec4(uTime); }";
    let result = convert_shader(glsl, "glsl", "wgsl", "fragment");
    assert!(result.success(), "{}", result.error());
}

#[test]
fn user_resolution_uniform_declaration_does_not_collide_with_header() {
    let glsl = "uniform vec2 uResolution;\nlayout(location=0) out vec4 fragColor;\nvoid main() { fragColor = vec4(uResolution, 0.0, 1.0); }";
    let result = convert_shader(glsl, "glsl", "wgsl", "fragment");
    assert!(result.success(), "{}", result.error());
}

#[test]
fn conversion_is_idempotent_on_success() {
    let first = convert_shader(MINIMAL_GLSL_FRAGMENT, "glsl", "wgsl", "fragment");
    let second = convert_shader(MINIMAL_GLSL_FRAGMENT, "glsl", "wgsl", "fragment");
    assert_eq!(first.success(), second.success());
    assert_eq!(first.output(), second.output());
    assert_eq!(first.error(), second.error());
}

#[test]
fn conversion_is_idempotent_on_failure() {
    let broken = "void main() { fragColor = vec4(1.0; }";
    let first = convert_shader(broken, "glsl", "wgsl", "fragment");
    let second = convert_shader(broken, "glsl", "wgsl", "fragment");
    assert_eq!(first.success(), second.success());
    assert_eq!(first.output(), second.output());
    assert_eq!(first.error(), second.error());
}

#[test]
fn legacy_entry_point_matches_permissive_conversion() {
    for (code, target) in [
        (MINIMAL_GLSL_FRAGMENT, "wgsl"),
        (MINIMAL_GLSL_FRAGMENT, "hlsl"),
        ("void main() { fragColor = vec4(1.0; }", "wgsl"),
        (MINIMAL_GLSL_FRAGMENT, "unknown-target"),
    ] {
        let legacy = convert_glsl(code, target, "fragment");
        let direct = convert_shader(code, "glsl", target, "fragment");
        assert_eq!(legacy.success(), direct.success());
        assert_eq!(legacy.output(), direct.output());
        assert_eq!(legacy.error(), direct.error());
    }
}

#[test]
fn init_panic_hook_is_idempotent_and_harmless() {
    init_panic_hook();
    init_panic_hook();
    let result = convert_shader(MINIMAL_GLSL_FRAGMENT, "glsl", "wgsl", "fragment");
    assert!(result.success());
}
