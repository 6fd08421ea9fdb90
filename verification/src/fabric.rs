//! Records of the fabric-class metadata service: published loaders,
//! installers, and supported game versions. They arrive from the network in
//! app code and are handed in as plain values.
use vstd::prelude::*;

verus! {

#[derive(Debug, Clone, PartialEq, Eq)]
pub struct FabricLoader {
    pub separator: String,
    pub build: u16,
    pub maven: String,
    pub version: String,
    pub stable: bool,
}

#[derive(Debug, Clone, PartialEq, Eq)]
pub struct FabricMinecraftVersion {
    pub version: String,
    pub stable: bool,
}

#[derive(Debug, Clone, PartialEq, Eq)]
pub struct FabricInstaller {
    pub url: String,
    pub maven: String,
    pub version: String,
    pub stable: bool,
}

} // verus!
