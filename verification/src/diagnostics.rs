use vstd::prelude::*;

verus! {

/// Severity of a script compiler diagnostic. The two levels stay distinct
/// throughout: a warning is never collapsed into an error.
#[derive(Debug, Clone, Copy, PartialEq, Eq, Structural)]
pub enum GDDiagnosticSeverity {
    Error,
    Warning,
}

impl GDDiagnosticSeverity {
    /// True exactly for the severity that blocks loading the compiled
    /// program; a warning never does.
    pub fn blocks_compilation(&self) -> (r: bool)
        ensures
            r == (*self is Error),
    {
        match self {
            GDDiagnosticSeverity::Error => true,
            GDDiagnosticSeverity::Warning => false,
        }
    }
}

} // verus!
