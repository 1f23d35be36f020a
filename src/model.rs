use vstd::prelude::*;

verus! {

/// Start and end of the part of the input to keep, as free text times.
pub struct TrimData {
    pub ss: Option<String>,
    pub to: Option<String>,
    /// `to` is an end time when set, a duration otherwise.
    pub use_to: bool,
    /// Trim after decoding (exact) rather than by seeking in the input.
    pub precise: bool,
}

impl TrimData {
    pub fn new() -> (r: TrimData)
        ensures
            r.ss is None,
            r.to is None,
            !r.use_to,
            !r.precise,
    {
        TrimData { ss: None, to: None, use_to: false, precise: false }
    }

    pub fn copy(&self) -> (r: TrimData)
        ensures
            r == *self,
    {
        let ss = match &self.ss {
            Some(s) => Some(s.clone()),
            None => None,
        };
        let to = match &self.to {
            Some(s) => Some(s.clone()),
            None => None,
        };
        TrimData { ss, to, use_to: self.use_to, precise: self.precise }
    }
}

#[derive(Debug, Clone, Copy, PartialEq, Eq, Structural)]
pub enum InputType {
    Integer,
    PositiveInteger,
    PositiveDecimal,
    Bitrate,
}

/// What an editor of a custom value lets the user type.
#[derive(Debug, Clone, Copy, PartialEq, Eq, Structural)]
pub struct InputConstraints {
    pub length: usize,
    pub input_type: InputType,
}

} // verus!
