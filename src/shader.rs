//! Parsing and validation of WGSL shader sources, through naga.
use naga::valid::{Capabilities, ValidationFlags, Validator};
use naga::Module;
use vstd::prelude::*;

verus! {

#[verifier::external_type_specification]
#[verifier::external_body]
pub struct ExModule(Module);

/// Whether naga's WGSL front end accepts the source.
pub uninterp spec fn wgsl_parses(src: Seq<char>) -> bool;

/// Naga's account of why the source does not parse.
pub uninterp spec fn wgsl_parse_diagnostic(src: Seq<char>) -> Seq<char>;

/// Whether naga's validator, set to the validation classes
/// `validation_bits` and the capabilities `capability_bits`, accepts the
/// module that the source parses to.
pub uninterp spec fn wgsl_validates(src: Seq<char>, validation_bits: u8, capability_bits: u32) -> bool;

/// Naga's account of why that validator rejects the module that the
/// source parses to.
pub uninterp spec fn wgsl_validation_diagnostic(src: Seq<char>, validation_bits: u8, capability_bits: u32) -> Seq<
    char,
>;

/// The bits of every validation class that naga knows.
pub open spec fn all_validation_classes() -> u8 {
    0x3f
}

/// The bits of every capability that naga knows.
pub open spec fn all_capabilities() -> u32 {
    0x7ff_ffff
}

/// The bits of naga's clip and cull distance capabilities.
pub open spec fn clip_and_cull_distance() -> u32 {
    0x180
}

/// The capabilities that WGSL sources may use: all but clip and cull
/// distances, which WGSL lacks.
pub open spec fn wgsl_capabilities() -> u32 {
    all_capabilities() & !clip_and_cull_distance()
}

/// The validation classes that run for the requested flags: all where
/// none are given, and of given bits only those naga knows.
pub open spec fn effective_validation_bits(flags: Option<u8>) -> u8 {
    match flags {
        Some(b) => b & all_validation_classes(),
        None => all_validation_classes(),
    }
}

/// Relies on naga::front::wgsl::parse_str: it parses the source or reports
/// why not (ParseError::emit_to_string), and the outcome depends on the
/// source alone.
#[verifier::external_body]
fn parse_module(src: &str) -> (r: Result<Module, String>)
    ensures
        r is Ok <==> wgsl_parses(src@),
        r matches Err(d) ==> d@ == wgsl_parse_diagnostic(src@),
{
    naga::front::wgsl::parse_str(src).map_err(|e| e.emit_to_string(src))
}

/// Relies on naga::front::wgsl::parse_str, then on Validator::validate of
/// the module with a validator that Validator::new makes from the given bits
/// (ValidationFlags and Capabilities::from_bits_truncate). Errors are put in
/// words by naga's emit_to_string. The outcome depends on the arguments alone.
#[verifier::external_body]
fn parse_and_validate_module(src: &str, validation_bits: u8, capability_bits: u32) -> (r: Result<
    (Module, Option<String>),
    String,
>)
    ensures
        r is Ok <==> wgsl_parses(src@),
        r matches Err(d) ==> d@ == wgsl_parse_diagnostic(src@),
        r matches Ok((_, v)) ==> (v is None <==> wgsl_validates(src@, validation_bits, capability_bits)),
        r matches Ok((_, Some(d))) ==> d@ == wgsl_validation_diagnostic(src@, validation_bits, capability_bits),
{
    let module = naga::front::wgsl::parse_str(src).map_err(|e| e.emit_to_string(src))?;
    let flags = ValidationFlags::from_bits_truncate(validation_bits);
    let caps = Capabilities::from_bits_truncate(capability_bits);
    let verdict = Validator::new(flags, caps).validate(&module);
    Ok((module, verdict.err().map(|e| e.emit_to_string(src))))
}

/// Relies on naga's ValidationFlags::all: the bits of every validation class.
#[verifier::external_body]
fn all_validation_bits() -> (r: u8)
    ensures
        r == all_validation_classes(),
{
    ValidationFlags::all().bits()
}

/// Relies on naga's Capabilities::all: the bits of every capability.
#[verifier::external_body]
fn all_capability_bits() -> (r: u32)
    ensures
        r == all_capabilities(),
{
    Capabilities::all().bits()
}

/// Relies on naga's Capabilities::CLIP_DISTANCE and CULL_DISTANCE: their bits.
#[verifier::external_body]
fn clip_and_cull_distance_bits() -> (r: u32)
    ensures
        r == clip_and_cull_distance(),
{
    (Capabilities::CLIP_DISTANCE | Capabilities::CULL_DISTANCE).bits()
}

/// A parsed shader module, handed to scripts as it is.
pub struct LuaWGSLModule {
    pub module: Module,
}

/// Why a shader source was refused.
#[derive(Debug)]
pub enum ShaderError {
    /// The source does not parse; the text says where and why.
    Parse { diagnostic: String },
}

/// Parses a WGSL source into a module.
pub fn parse_wgsl(src: &str) -> (r: Result<LuaWGSLModule, ShaderError>)
    ensures
        r is Ok <==> wgsl_parses(src@),
        r matches Err(ShaderError::Parse { diagnostic }) ==> diagnostic@ == wgsl_parse_diagnostic(src@),
{
    match parse_module(src) {
        Ok(module) => Ok(LuaWGSLModule { module }),
        Err(diagnostic) => Err(ShaderError::Parse { diagnostic }),
    }
}

/// The capabilities that WGSL sources may use: all that naga knows but
/// clip and cull distances.
pub fn wgsl_capability_bits() -> (r: u32)
    ensures
        r == wgsl_capabilities(),
{
    all_capability_bits() & !clip_and_cull_distance_bits()
}

/// The validation classes that run for the requested flags.
pub fn effective_flags(flags: Option<u8>) -> (r: u8)
    ensures
        r == effective_validation_bits(flags),
{
    let all = all_validation_bits();
    match flags {
        Some(b) => b & all,
        None => all,
    }
}

/// Bits that naga does not know are ignored, and absent flags mean every
/// validation class.
pub proof fn lemma_unknown_flag_bits_ignored(b: u8)
    ensures
        effective_validation_bits(Some(b)) == effective_validation_bits(Some(b & all_validation_classes())),
        effective_validation_bits(None) == effective_validation_bits(Some(all_validation_classes())),
{
    assert((b & 0x3fu8) & 0x3fu8 == b & 0x3fu8) by (bit_vector);
    assert(0x3fu8 & 0x3fu8 == 0x3fu8) by (bit_vector);
}

/// The outcome of validating a parsed module: the module always, with the
/// validator's diagnostic where validation failed.
pub fn validation_outcome(module: Module, validation: Result<(), String>) -> (r: (Option<Module>, Option<String>))
    ensures
        r.0 == Some(module),
        r.1 == match validation {
            Ok(()) => None,
            Err(d) => Some(d),
        },
{
    match validation {
        Ok(()) => (Some(module), None),
        Err(d) => (Some(module), Some(d)),
    }
}

/// Parses, then validates a WGSL source with the validation classes in
/// `flags` (all where absent; unknown bits ignored). Where parsing fails the
/// module is absent and the diagnostic says why; where it succeeds the module
/// is present, with a diagnostic exactly where validation failed.
pub fn parse_and_validate_wgsl(src: &str, flags: Option<u8>) -> (r: (Option<Module>, Option<String>))
    ensures
        r.0 is None <==> !wgsl_parses(src@),
        r.0 is None ==> (r.1 matches Some(d) && d@ == wgsl_parse_diagnostic(src@)),
        r.0 is Some ==> (r.1 is None <==> wgsl_validates(src@, effective_validation_bits(flags), wgsl_capabilities())),
        r.0 is Some ==> (r.1 matches Some(d) ==> d@ == wgsl_validation_diagnostic(
            src@,
            effective_validation_bits(flags),
            wgsl_capabilities(),
        )),
{
    match parse_and_validate_module(src, effective_flags(flags), wgsl_capability_bits()) {
        Ok((module, verdict)) => {
            let validation = match verdict {
                None => Ok(()),
                Some(d) => Err(d),
            };
            validation_outcome(module, validation)
        },
        Err(d) => (None, Some(d)),
    }
}

} // verus!
