//! Exact expected output of the source normalizer.

use shader_convert::normalize::normalize_glsl;

const HEADER: &str = "#version 450\nlayout(std140, set=0, binding=0) uniform Globals {\n    float uTime;\n    vec2 uResolution;\n};\n";

fn normalize(source: &str) -> String {
    let chars: Vec<char> = source.chars().collect();
    normalize_glsl(&chars).into_iter().collect()
}

#[test]
fn header_is_prepended_to_untouched_source() {
    let source = "void main() { gl_FragColor = vec4(1.0); }";
    let expected = format!("{}{}", HEADER, source);
    assert_eq!(normalize(source), expected);
}

#[test]
fn version_and_precision_directives_are_stripped() {
    let source = "#version 300 es\nprecision highp float;\nvoid main() {}";
    let expected = format!("{}void main() {{}}", HEADER);
    assert_eq!(normalize(source), expected);
}

#[test]
fn well_known_uniform_declarations_are_commented_out() {
    let source = "uniform float uTime;\nuniform vec2 uResolution;\nvoid main() {}";
    let expected = format!(
        "{}// uniform float uTime;\n// uniform vec2 uResolution;\nvoid main() {{}}",
        HEADER
    );
    assert_eq!(normalize(source), expected);
}

#[test]
fn well_known_varyings_get_fixed_locations() {
    let source = "in vec2 vUv;\nin vec3 vNormal;\nin vec3 vViewPosition;\nvoid main() {}";
    let expected = format!(
        "{}layout(location=0) in vec2 vUv;\nlayout(location=1) in vec3 vNormal;\nlayout(location=2) in vec3 vViewPosition;\nvoid main() {{}}",
        HEADER
    );
    assert_eq!(normalize(source), expected);
}

#[test]
fn differently_spelled_declarations_pass_through_unmodified() {
    // The normalizer recognizes exact textual forms only; variants survive
    // as written (and may fail later, downstream).
    let source = "uniform  float uTime ;\nvoid main() {}";
    let expected = format!("{}{}", HEADER, source);
    assert_eq!(normalize(source), expected);
}

#[test]
fn empty_source_gets_only_the_header() {
    assert_eq!(normalize(""), HEADER);
}

#[test]
fn crlf_line_endings_are_normalized_with_the_lines() {
    let source = "precision mediump float;\r\nvoid main() {}\r\n";
    let expected = format!("{}void main() {{}}", HEADER);
    assert_eq!(normalize(source), expected);
}

#[test]
fn trailing_newline_is_not_preserved() {
    // Joining the surviving lines keeps interior newlines only: a trailing
    // line terminator leaves no empty final line behind.
    let source = "void main() {}\n";
    let expected = format!("{}void main() {{}}", HEADER);
    assert_eq!(normalize(source), expected);
}
