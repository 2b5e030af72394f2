//! What the admission of a Pod comes to, once its resolution is over.

use crate::error::{ErrorView, ResolutionError};
use crate::patch::{PatchSet, PatchView};
use vstd::prelude::*;

verus! {

/// The answer to an admission request.
#[derive(Debug, PartialEq, Eq)]
pub enum AdmissionOutcome {
    /// The Pod is admitted as it is.
    AllowUnmodified,
    /// The Pod is admitted with its images pinned by the patch.
    AllowWithPatch(PatchSet),
    /// The Pod is refused. No resolution ends so: this is for requests that
    /// cannot be read at all.
    Deny { reason: String },
}

/// An `AdmissionOutcome` as a mathematical value.
pub enum OutcomeView {
    AllowUnmodified,
    AllowWithPatch(Seq<PatchView>),
    Deny { reason: Seq<char> },
}

impl View for AdmissionOutcome {
    type V = OutcomeView;

    open spec fn view(&self) -> OutcomeView {
        match *self {
            AdmissionOutcome::AllowUnmodified => OutcomeView::AllowUnmodified,
            AdmissionOutcome::AllowWithPatch(patch) => OutcomeView::AllowWithPatch(patch@),
            AdmissionOutcome::Deny { reason } => OutcomeView::Deny { reason: reason@ },
        }
    }
}

/// The answer that a resolution leads to. A patch with operations is handed
/// on; an empty one changes nothing. A failed resolution fails open: the Pod
/// is admitted as it is, never refused because its images could not be pinned.
pub open spec fn outcome_of(resolution: Result<Seq<PatchView>, ErrorView>) -> OutcomeView {
    match resolution {
        Ok(patch) => if patch.len() == 0 {
            OutcomeView::AllowUnmodified
        } else {
            OutcomeView::AllowWithPatch(patch)
        },
        Err(_) => OutcomeView::AllowUnmodified,
    }
}

impl AdmissionOutcome {
    /// Answers the admission request of a Pod whose resolution ended with
    /// `resolution`.
    pub fn from_resolution(resolution: Result<PatchSet, ResolutionError>) -> (outcome:
        AdmissionOutcome)
        ensures
            outcome@ == outcome_of(
                match resolution {
                    Ok(patch) => Ok(patch@),
                    Err(e) => Err(e@),
                },
            ),
            !(outcome@ is Deny),
    {
        match resolution {
            Ok(patch) => if patch.operations.len() == 0 {
                AdmissionOutcome::AllowUnmodified
            } else {
                AdmissionOutcome::AllowWithPatch(patch)
            },
            Err(_) => AdmissionOutcome::AllowUnmodified,
        }
    }
}

} // verus!
