//! Global configuration options of a build.

use std::sync::Arc;

use vstd::prelude::*;

verus! {

/// An unconfigured target label: `cell//package:name`.
#[derive(Clone, Debug, PartialEq, Eq, PartialOrd, Ord, Hash)]
pub struct TargetLabel {
    pub cell: String,
    pub package: String,
    pub name: String,
}

/// Options that configure every target of a build: the target platform,
/// and modifiers given on the command line.
#[derive(Clone, Debug, PartialEq, Eq, PartialOrd, Ord, Hash)]
pub struct GlobalCfgOptions {
    pub target_platform: Option<TargetLabel>,
    pub cli_modifiers: Arc<Vec<String>>,
}

impl Default for GlobalCfgOptions {
    fn default() -> (res: Self)
        ensures
            res.target_platform is None,
            res.cli_modifiers@.len() == 0,
    {
        GlobalCfgOptions { target_platform: None, cli_modifiers: Arc::new(Vec::new()) }
    }
}

} // verus!
