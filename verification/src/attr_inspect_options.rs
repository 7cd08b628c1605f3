use vstd::prelude::*;

verus! {

/// Which attributes of a target an inspection reports.
#[derive(Clone, Copy, Debug, PartialEq, Eq, Structural)]
pub enum AttrInspectOptions {
    /// Only the attributes that the target defines itself.
    DefinedOnly,
    /// Every attribute, defaults included.
    All,
}

impl AttrInspectOptions {
    /// Whether attributes left at their default value are reported.
    pub fn include_default(&self) -> (res: bool)
        ensures
            res == (*self != AttrInspectOptions::DefinedOnly),
    {
        match self {
            AttrInspectOptions::DefinedOnly => false,
            _ => true,
        }
    }
}

} // verus!
