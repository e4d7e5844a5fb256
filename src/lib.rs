//! Schema and query engine: entity types, schema diffing and migration,
//! filter compilation and per-field policies.

use vstd::prelude::*;

pub mod types;
pub mod apply;
pub mod registry;
pub mod laws;
pub mod filter;
pub mod policy;
pub mod store;
pub mod params;
pub mod cursor;
pub mod executor;

verus! {

/// Experimental engine features, chosen when the engine is set up and
/// passed explicitly to whatever consults them.
#[derive(Clone, Copy, Debug, PartialEq, Eq, Structural)]
pub struct Features {
    pub typescript_policies: bool,
}

impl Features {
    pub fn new(typescript_policies: bool) -> (r: Features)
        ensures
            r.typescript_policies == typescript_policies,
    {
        Features { typescript_policies }
    }
}

/// Whether policies written in the hosted script language are enabled.
/// With no configuration given, every experimental feature is off.
pub fn feat_typescript_policies(features: Option<&Features>) -> (r: bool)
    ensures
        r == match features {
            Some(f) => f.typescript_policies,
            None => false,
        },
{
    match features {
        Some(f) => f.typescript_policies,
        None => false,
    }
}

} // verus!
