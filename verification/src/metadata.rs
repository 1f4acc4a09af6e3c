//! What is known of a package from its manifest and from its registry.

use vstd::prelude::*;
use crate::manifest::{
    repository_address, repository_to_string, CargoPackage, CargoToml, MoonMod, PackageJson,
};
use crate::project::{owner_and_repo, owner_repo};
use crate::providers::RegistryMetadata;
use crate::text::opt_text;

verus! {

/// The data of a package, each from the registry where the registry has it
/// and else from the manifest.
#[derive(Debug, Clone)]
pub struct ResolvedMetadata {
    pub name: Option<String>,
    pub version: Option<String>,
    pub license: Option<String>,
    pub repository: Option<String>,
    pub description: Option<String>,
    pub registry: Option<RegistryMetadata>,
}

/// What was read for a project, by its ecosystem.
#[derive(Debug, Clone)]
pub enum ManifestData {
    Node { package: PackageJson, registry: RegistryMetadata },
    MoonBit { module: MoonMod },
    Rust { manifest: CargoToml, registry: RegistryMetadata },
    Unknown,
}

/// The mathematical value of a [`ResolvedMetadata`].
pub struct ResolvedModel {
    pub name: Option<Seq<char>>,
    pub version: Option<Seq<char>>,
    pub license: Option<Seq<char>>,
    pub repository: Option<Seq<char>>,
    pub description: Option<Seq<char>>,
    pub registry: Option<RegistryMetadata>,
}

impl View for ResolvedMetadata {
    type V = ResolvedModel;

    open spec fn view(&self) -> ResolvedModel {
        ResolvedModel {
            name: opt_text(self.name),
            version: opt_text(self.version),
            license: opt_text(self.license),
            repository: opt_text(self.repository),
            description: opt_text(self.description),
            registry: self.registry,
        }
    }
}

/// The first of two optional texts that is there.
pub open spec fn first_text(a: Option<String>, b: Option<Seq<char>>) -> Option<Seq<char>> {
    match a {
        Some(text) => Some(text@),
        None => b,
    }
}

/// The data of which nothing is known.
pub open spec fn nothing_known() -> ResolvedModel {
    ResolvedModel {
        name: None,
        version: None,
        license: None,
        repository: None,
        description: None,
        registry: None,
    }
}

/// The data of a Node package: the name from the manifest, every other
/// field from the registry where the registry has it.
pub open spec fn node_metadata(package: PackageJson, registry: RegistryMetadata) -> ResolvedModel {
    ResolvedModel {
        name: opt_text(package.name),
        version: first_text(registry.version, opt_text(package.version)),
        license: first_text(registry.license, opt_text(package.license)),
        repository: first_text(registry.repository, repository_address(package.repository)),
        description: first_text(registry.description, opt_text(package.description)),
        registry: Some(registry),
    }
}

/// The data of a MoonBit module: its name and version, and nothing else.
pub open spec fn moonbit_metadata(module: MoonMod) -> ResolvedModel {
    ResolvedModel {
        name: opt_text(module.name),
        version: opt_text(module.version),
        license: None,
        repository: None,
        description: None,
        registry: None,
    }
}

/// The package table of a manifest, or an empty one.
pub open spec fn package_of(manifest: CargoToml) -> CargoPackage {
    match manifest.package {
        Some(package) => package,
        None => CargoPackage {
            name: None,
            version: None,
            description: None,
            license: None,
            repository: None,
        },
    }
}

/// The data of a crate: the name from the manifest, every other field from
/// the registry where the registry has it.
pub open spec fn rust_metadata(manifest: CargoToml, registry: RegistryMetadata) -> ResolvedModel {
    let package = package_of(manifest);
    ResolvedModel {
        name: opt_text(package.name),
        version: first_text(registry.version, opt_text(package.version)),
        license: first_text(registry.license, opt_text(package.license)),
        repository: first_text(registry.repository, opt_text(package.repository)),
        description: first_text(registry.description, opt_text(package.description)),
        registry: Some(registry),
    }
}

/// The data of the package of a project, by its ecosystem.
pub open spec fn metadata_of(data: ManifestData) -> ResolvedModel {
    match data {
        ManifestData::Node { package, registry } => node_metadata(package, registry),
        ManifestData::MoonBit { module } => moonbit_metadata(module),
        ManifestData::Rust { manifest, registry } => rust_metadata(manifest, registry),
        ManifestData::Unknown => nothing_known(),
    }
}

/// The first of two optional strings that is there.
fn first_of(a: &Option<String>, b: Option<String>) -> (r: Option<String>)
    ensures
        opt_text(r) == first_text(*a, opt_text(b)),
{
    match a {
        Some(text) => Some(text.clone()),
        None => b,
    }
}

impl Default for ResolvedMetadata {
    fn default() -> (r: Self)
        ensures
            r@ == nothing_known(),
    {
        ResolvedMetadata {
            name: None,
            version: None,
            license: None,
            repository: None,
            description: None,
            registry: None,
        }
    }
}

/// The data of a Node package: see [`node_metadata`].
pub fn resolve_node_metadata(
    package: PackageJson,
    registry: RegistryMetadata,
) -> (r: ResolvedMetadata)
    ensures
        r@ == node_metadata(package, registry),
{
    let version = first_of(&registry.version, package.version);
    let license = first_of(&registry.license, package.license);
    let repository = first_of(&registry.repository, repository_to_string(package.repository));
    let description = first_of(&registry.description, package.description);
    ResolvedMetadata {
        name: package.name,
        version,
        license,
        repository,
        description,
        registry: Some(registry),
    }
}

/// The data of a MoonBit module: see [`moonbit_metadata`].
pub fn resolve_moonbit_metadata(module: MoonMod) -> (r: ResolvedMetadata)
    ensures
        r@ == moonbit_metadata(module),
{
    ResolvedMetadata {
        name: module.name,
        version: module.version,
        license: None,
        repository: None,
        description: None,
        registry: None,
    }
}

/// The data of a crate: see [`rust_metadata`].
pub fn resolve_rust_metadata(
    manifest: CargoToml,
    registry: RegistryMetadata,
) -> (r: ResolvedMetadata)
    ensures
        r@ == rust_metadata(manifest, registry),
{
    let package = match manifest.package {
        Some(package) => package,
        None => CargoPackage::empty(),
    };
    let version = first_of(&registry.version, package.version);
    let license = first_of(&registry.license, package.license);
    let repository = first_of(&registry.repository, package.repository);
    let description = first_of(&registry.description, package.description);
    ResolvedMetadata {
        name: package.name,
        version,
        license,
        repository,
        description,
        registry: Some(registry),
    }
}

/// The data of the package of a project, by its ecosystem; nothing where
/// the ecosystem is not known.
pub fn resolve_metadata(data: ManifestData) -> (r: ResolvedMetadata)
    ensures
        r@ == metadata_of(data),
{
    match data {
        ManifestData::Node { package, registry } => resolve_node_metadata(package, registry),
        ManifestData::MoonBit { module } => resolve_moonbit_metadata(module),
        ManifestData::Rust { manifest, registry } => resolve_rust_metadata(manifest, registry),
        ManifestData::Unknown => ResolvedMetadata::default(),
    }
}

/// Owner and repository of the address `repository` of a package, where it
/// has one: the last two segments of its path.
pub fn infer_owner_repo(repository: &Option<String>) -> (r: (Option<String>, Option<String>))
    ensures
        match *repository {
            Some(url) => match owner_repo(url@, false) {
                Some((owner, repo)) => opt_text(r.0) == Some(owner) && opt_text(r.1) == Some(repo),
                None => r.0 is None && r.1 is None,
            },
            None => r.0 is None && r.1 is None,
        },
{
    match repository {
        Some(url) => match owner_and_repo(url.as_str(), false) {
            Some((owner, repo)) => (Some(owner), Some(repo)),
            None => (None, None),
        },
        None => (None, None),
    }
}

} // verus!
