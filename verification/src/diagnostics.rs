//! How the compiler reports diagnostics.
use vstd::prelude::*;

verus! {

/// The shape in which diagnostics are printed.
#[derive(Debug, Clone, Copy, PartialEq, Eq, Structural)]
pub enum DiagnosticFormat {
    Human,
    Short,
}

/// How diagnostics are reported: in which shape, and whether the compile
/// status is printed as well.
#[derive(Debug, Clone, Copy, PartialEq, Eq, Structural)]
pub struct DiagnosticHandler {
    pub diagnostic_format: DiagnosticFormat,
    pub print_compile_status: bool,
}

} // verus!
