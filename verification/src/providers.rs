//! What a package registry tells about a package.

use vstd::prelude::*;

verus! {

/// The data of a package as its registry holds them.
#[derive(Debug, Clone)]
pub struct RegistryMetadata {
    pub version: Option<String>,
    pub license: Option<String>,
    pub repository: Option<String>,
    pub description: Option<String>,
    pub downloads: Option<u64>,
    pub homepage: Option<String>,
}

impl RegistryMetadata {
    /// Whether no field holds a value.
    pub open spec fn is_empty(&self) -> bool {
        &&& self.version is None
        &&& self.license is None
        &&& self.repository is None
        &&& self.description is None
        &&& self.downloads is None
        &&& self.homepage is None
    }

    /// The data of a package of which nothing is known.
    pub fn empty() -> (r: Self)
        ensures
            r.is_empty(),
    {
        Self {
            version: None,
            license: None,
            repository: None,
            description: None,
            downloads: None,
            homepage: None,
        }
    }
}

} // verus!
