use vstd::prelude::*;

verus! {

/// The closed union of values marshalled between dialogue scripts and the
/// host: booleans, numbers and strings, and nothing else.
///
/// The dialogue engine's numbers are 32-bit IEEE floating-point values; this
/// library carries them as their raw bit pattern, so that the union stays
/// total and lossless while the library itself never computes on floating
/// point. The host converts at its own boundary.
#[derive(Debug, PartialEq)]
pub enum ScriptValue {
    Boolean(bool),
    /// The raw bits of a 32-bit IEEE floating-point number.
    Number(u32),
    Str(String),
}

impl Clone for ScriptValue {
    fn clone(&self) -> (r: Self)
        ensures
            r == *self,
    {
        match self {
            ScriptValue::Boolean(b) => ScriptValue::Boolean(*b),
            ScriptValue::Number(n) => ScriptValue::Number(*n),
            ScriptValue::Str(s) => ScriptValue::Str(s.clone()),
        }
    }
}

} // verus!
