use shaderloom::shader::{effective_flags, validation_outcome, wgsl_capability_bits, ShaderError};
use shaderloom::{parse_and_validate_wgsl, parse_wgsl};

const MISALIGNED_UNIFORM: &str = "@group(0) @binding(0) var<uniform> u: array<f32, 4>;\n@compute @workgroup_size(1)\nfn main() {\n    let x = u[0];\n}\n";

const VALID_SHADER: &str = "@compute @workgroup_size(1)\nfn main() {}\n";

#[test]
fn invalid_source_gives_no_module_and_a_diagnostic() {
    let (module, diagnostic) = parse_and_validate_wgsl("{{{invalid", None);
    assert!(module.is_none());
    assert!(diagnostic.is_some());
}

#[test]
fn valid_source_gives_module_and_no_diagnostic() {
    let (module, diagnostic) = parse_and_validate_wgsl(VALID_SHADER, None);
    assert!(module.is_some());
    assert!(diagnostic.is_none(), "{:?}", diagnostic);
}

#[test]
fn unknown_flag_bits_are_ignored() {
    let (module, diagnostic) = parse_and_validate_wgsl(VALID_SHADER, Some(0xff));
    assert!(module.is_some());
    assert!(diagnostic.is_none());
    let (module, diagnostic) = parse_and_validate_wgsl(VALID_SHADER, Some(0));
    assert!(module.is_some());
    assert!(diagnostic.is_none());
}

#[test]
fn semantic_error_keeps_module_and_reports() {
    let (module, diagnostic) = parse_and_validate_wgsl(MISALIGNED_UNIFORM, None);
    assert!(module.is_some());
    assert!(diagnostic.is_some());
    let (module, diagnostic) = parse_and_validate_wgsl(MISALIGNED_UNIFORM, Some(0));
    assert!(module.is_some());
    assert!(diagnostic.is_none(), "{:?}", diagnostic);
}

#[test]
fn parse_wgsl_reports_syntax_errors() {
    assert!(parse_wgsl(VALID_SHADER).is_ok());
    match parse_wgsl("{{{invalid") {
        Err(ShaderError::Parse { diagnostic }) => assert!(!diagnostic.is_empty()),
        Ok(_) => panic!("expected a parse error"),
    }
}

#[test]
fn wgsl_capabilities_lack_clip_and_cull_distance() {
    let bits = wgsl_capability_bits();
    assert_eq!(bits, 0x7ff_ffff & !0x180);
    assert_eq!(bits & naga::valid::Capabilities::CLIP_DISTANCE.bits(), 0);
    assert_eq!(bits & naga::valid::Capabilities::CULL_DISTANCE.bits(), 0);
    assert_eq!(bits | 0x180, naga::valid::Capabilities::all().bits());
}

#[test]
fn validation_outcome_carries_the_diagnostic() {
    let module = parse_wgsl(VALID_SHADER).unwrap().module;
    let (m, d) = validation_outcome(module, Err("bad".to_string()));
    assert!(m.is_some());
    assert_eq!(d, Some("bad".to_string()));
}

#[test]
fn minimal_shader_is_valid() {
    let (module, diagnostic) = parse_and_validate_wgsl("fn main() {}", None);
    assert!(module.is_some());
    assert!(diagnostic.is_none(), "{:?}", diagnostic);
}

#[test]
fn effective_flags_drop_unknown_bits_and_default_to_all() {
    assert_eq!(effective_flags(None), 0x3f);
    assert_eq!(effective_flags(Some(0xff)), 0x3f);
    assert_eq!(effective_flags(Some(0xc8)), 0x08);
    assert_eq!(effective_flags(Some(0)), 0);
    assert_eq!(effective_flags(None), naga::valid::ValidationFlags::all().bits());
}

#[test]
fn parse_diagnostic_is_naga_rendering() {
    let src = "{{{invalid";
    let expected = naga::front::wgsl::parse_str(src).unwrap_err().emit_to_string(src);
    let (_, diagnostic) = parse_and_validate_wgsl(src, None);
    assert_eq!(diagnostic, Some(expected.clone()));
    match parse_wgsl(src) {
        Err(ShaderError::Parse { diagnostic }) => assert_eq!(diagnostic, expected),
        Ok(_) => panic!("expected a parse error"),
    }
}

#[test]
fn unknown_flag_bits_give_the_same_diagnostic() {
    let (_, d1) = parse_and_validate_wgsl(MISALIGNED_UNIFORM, Some(0xff));
    let (_, d2) = parse_and_validate_wgsl(MISALIGNED_UNIFORM, Some(0x3f));
    let (_, d3) = parse_and_validate_wgsl(MISALIGNED_UNIFORM, None);
    assert!(d1.is_some());
    assert_eq!(d1, d2);
    assert_eq!(d2, d3);
}
