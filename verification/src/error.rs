//! Why a resolution fails.

use vstd::prelude::*;

verus! {

/// The reasons for which no patch is produced for a Pod.
#[derive(Debug, Clone, PartialEq, Eq)]
pub enum ResolutionError {
    /// An image reference or a platform string is malformed; `input` is that string.
    Parse { input: String },
    /// The registry did not deliver a manifest.
    Registry { reason: String },
    /// The image is a single-platform image, so there is nothing to choose from.
    NotAnIndex,
    /// No entry of the image index is for the target platform.
    NoMatchingPlatform,
    /// An entry of the image index names no platform.
    MissingPlatformMetadata,
    /// The Pod's annotation is no `<os>/<architecture>`; `value` is what it holds.
    InvalidAnnotation { value: String },
    /// More than one platform override exists in the cluster.
    AmbiguousOverride { count: usize, values: Vec<String> },
    /// The Pod has no spec, hence no containers.
    NoPodSpec,
}

/// A `ResolutionError` as a mathematical value.
pub enum ErrorView {
    Parse { input: Seq<char> },
    Registry { reason: Seq<char> },
    NotAnIndex,
    NoMatchingPlatform,
    MissingPlatformMetadata,
    InvalidAnnotation { value: Seq<char> },
    AmbiguousOverride { count: nat, values: Seq<Seq<char>> },
    NoPodSpec,
}

impl View for ResolutionError {
    type V = ErrorView;

    open spec fn view(&self) -> ErrorView {
        match *self {
            ResolutionError::Parse { input } => ErrorView::Parse { input: input@ },
            ResolutionError::Registry { reason } => ErrorView::Registry { reason: reason@ },
            ResolutionError::NotAnIndex => ErrorView::NotAnIndex,
            ResolutionError::NoMatchingPlatform => ErrorView::NoMatchingPlatform,
            ResolutionError::MissingPlatformMetadata => ErrorView::MissingPlatformMetadata,
            ResolutionError::InvalidAnnotation { value } => ErrorView::InvalidAnnotation {
                value: value@,
            },
            ResolutionError::AmbiguousOverride { count, values } => ErrorView::AmbiguousOverride {
                count: count as nat,
                values: values.deep_view(),
            },
            ResolutionError::NoPodSpec => ErrorView::NoPodSpec,
        }
    }
}

} // verus!
