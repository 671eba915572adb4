//! The host platforms the library knows, and the tagged raw output of the
//! per-platform listing command.

use vstd::prelude::*;

verus! {

/// The operating system the library is running on. Each listing or kill
/// request names its host explicitly, so that the command dispatch is
/// ordinary, verifiable branching.
#[derive(Clone, Copy, PartialEq, Eq, Structural, Debug)]
pub enum HostOs {
    Windows,
    MacOs,
    Linux,
    /// A host with no known diagnostic or termination tool mapping.
    Other,
}

/// The raw text that the platform listing command produced, tagged with the
/// parser that must consume it, or `Unsupported` when the host has no
/// listing command or running it failed.
pub enum OS {
    Windows(String),
    MacOS(String),
    Unsupported,
}

} // verus!
