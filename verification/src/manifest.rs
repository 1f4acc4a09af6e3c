//! The fields that are read from the manifests of a project.

use vstd::prelude::*;
use crate::text::opt_text;

verus! {

/// The fields read from a `package.json`.
#[derive(Debug, Clone)]
pub struct PackageJson {
    pub name: Option<String>,
    pub version: Option<String>,
    pub description: Option<String>,
    pub license: Option<String>,
    pub repository: Option<RepositoryField>,
}

/// The repository of a `package.json`: a plain address, or an object that
/// may hold one.
#[derive(Debug, Clone)]
pub enum RepositoryField {
    String(String),
    Object { url: Option<String> },
}

/// The fields read from a `moon.mod.json`.
#[derive(Debug, Clone)]
pub struct MoonMod {
    pub name: Option<String>,
    pub version: Option<String>,
    pub readme: Option<String>,
}

/// The fields read from a `Cargo.toml`.
#[derive(Debug, Clone)]
pub struct CargoToml {
    pub package: Option<CargoPackage>,
}

/// The `[package]` table of a `Cargo.toml`.
#[derive(Debug, Clone)]
pub struct CargoPackage {
    pub name: Option<String>,
    pub version: Option<String>,
    pub description: Option<String>,
    pub license: Option<String>,
    pub repository: Option<String>,
}

/// The address that a repository field holds, if it holds one.
pub open spec fn repository_address(repo: Option<RepositoryField>) -> Option<Seq<char>> {
    match repo {
        Some(RepositoryField::String(value)) => Some(value@),
        Some(RepositoryField::Object { url }) => opt_text(url),
        None => None,
    }
}

/// The address that a repository field holds, if it holds one.
pub fn repository_to_string(repo: Option<RepositoryField>) -> (r: Option<String>)
    ensures
        opt_text(r) == repository_address(repo),
{
    match repo {
        Some(RepositoryField::String(value)) => Some(value),
        Some(RepositoryField::Object { url }) => url,
        None => None,
    }
}

impl CargoPackage {
    /// A package table without any field.
    pub fn empty() -> (r: Self)
        ensures
            r.name is None,
            r.version is None,
            r.description is None,
            r.license is None,
            r.repository is None,
    {
        CargoPackage {
            name: None,
            version: None,
            description: None,
            license: None,
            repository: None,
        }
    }
}

} // verus!
