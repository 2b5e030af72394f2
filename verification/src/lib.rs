//! Platform pinning for Pod images.
//!
//! Given a Pod, a target platform (from the Pod's `aargh64` annotation or from
//! the cluster's single platform override) and the image indices of the Pod's
//! images, the library computes the JSON Patch that replaces every container
//! image by `<registry>/<repository>@<digest>`, the digest being that of the
//! index entry for the target platform.
//!
//! The library performs no I/O. Listing the overrides and fetching manifests is
//! the caller's part: `orchestrator` says which of the two is wanted next and
//! takes what came back.

pub mod admission;
pub mod error;
pub mod guarantees;
pub mod manifest;
pub mod orchestrator;
pub mod patch;
pub mod platform;
pub mod platform_override;
pub mod pod;
pub mod reference;
pub mod resolver;
pub mod text;
pub mod views;
