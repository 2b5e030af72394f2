//! Which platform a Pod is pinned to: its own annotation decides, and only
//! where it has none, the cluster's platform override.

use crate::error::{ErrorView, ResolutionError};
use crate::platform::{platform_of, PlatformView, TargetPlatform};
use crate::platform_override::PlatformOverrideSpec;
use crate::pod::{annotation_value, Pod, PodView};
use crate::views::views;
use vstd::prelude::*;
use vstd::string::*;

verus! {

/// The key of the annotation that names a Pod's target platform.
pub const ANNOTATION_KEY: &'static str = "aargh64";

/// What the Pod's annotation says of the target: the platform it names,
/// `Ok(None)` where the Pod is not annotated, and an error where the
/// annotation names no platform.
pub open spec fn annotated_target(pod: PodView) -> Result<Option<PlatformView>, ErrorView> {
    match annotation_value(pod.annotations, ANNOTATION_KEY@) {
        None => Ok(None),
        Some(value) => match platform_of(value) {
            Some(platform) => Ok(Some(platform)),
            None => Err(ErrorView::InvalidAnnotation { value }),
        },
    }
}

/// What the cluster's overrides say of the target, `overrides` being the
/// platform string of each: none leaves Pods as they are (`Ok(None)`), a
/// single one names the target, and more than one is an error that reports
/// them all.
pub open spec fn override_target(overrides: Seq<Seq<char>>) -> Result<
    Option<PlatformView>,
    ErrorView,
> {
    if overrides.len() == 0 {
        Ok(None)
    } else if overrides.len() == 1 {
        match platform_of(overrides[0]) {
            Some(platform) => Ok(Some(platform)),
            None => Err(ErrorView::Parse { input: overrides[0] }),
        }
    } else {
        Err(ErrorView::AmbiguousOverride { count: overrides.len(), values: overrides })
    }
}

/// The target of a Pod in a cluster with the given overrides: what the
/// annotation says, and what the overrides say only for a Pod without one.
pub open spec fn target_of(pod: PodView, overrides: Seq<Seq<char>>) -> Result<
    Option<PlatformView>,
    ErrorView,
> {
    match annotated_target(pod) {
        Ok(None) => override_target(overrides),
        decided => decided,
    }
}

/// An annotated Pod has its target, or its error, whatever overrides exist:
/// they are not looked at.
pub proof fn lemma_annotation_takes_precedence(
    pod: PodView,
    overrides: Seq<Seq<char>>,
    others: Seq<Seq<char>>,
)
    requires
        annotation_value(pod.annotations, ANNOTATION_KEY@) is Some,
    ensures
        target_of(pod, overrides) == annotated_target(pod),
        target_of(pod, overrides) == target_of(pod, others),
        target_of(pod, overrides) != Ok::<Option<PlatformView>, ErrorView>(None),
{
}

/// Reads the target platform off the Pod's annotation.
pub fn target_from_annotation(pod: &Pod) -> (r: Result<Option<TargetPlatform>, ResolutionError>)
    ensures
        match r {
            Ok(Some(platform)) => annotated_target(pod@) == Ok::<Option<PlatformView>, ErrorView>(
                Some(platform@),
            ),
            Ok(None) => annotated_target(pod@) == Ok::<Option<PlatformView>, ErrorView>(None),
            Err(e) => annotated_target(pod@) == Err::<Option<PlatformView>, ErrorView>(e@),
        },
{
    match pod.annotation(ANNOTATION_KEY) {
        None => Ok(None),
        Some(value) => match TargetPlatform::parse(value.as_str()) {
            Ok(platform) => Ok(Some(platform)),
            Err(_) => Err(ResolutionError::InvalidAnnotation { value: value.clone() }),
        },
    }
}

/// Reads the target platform off the cluster's overrides.
pub fn target_from_overrides(overrides: &Vec<PlatformOverrideSpec>) -> (r: Result<
    Option<TargetPlatform>,
    ResolutionError,
>)
    ensures
        match r {
            Ok(Some(platform)) => override_target(views(overrides@)) == Ok::<
                Option<PlatformView>,
                ErrorView,
            >(Some(platform@)),
            Ok(None) => override_target(views(overrides@)) == Ok::<Option<PlatformView>, ErrorView>(
                None,
            ),
            Err(e) => override_target(views(overrides@)) == Err::<Option<PlatformView>, ErrorView>(
                e@,
            ),
        },
{
    let count = overrides.len();
    if count == 0 {
        Ok(None)
    } else if count == 1 {
        assert(views(overrides@)[0] == overrides@[0].platform@);
        match TargetPlatform::parse(overrides[0].platform.as_str()) {
            Ok(platform) => Ok(Some(platform)),
            Err(e) => Err(e),
        }
    } else {
        let mut values: Vec<String> = Vec::new();
        let mut i: usize = 0;
        while i < count
            invariant
                count == overrides@.len(),
                i <= count,
                values@.len() == i,
                forall|j: int| 0 <= j < i ==> (#[trigger] values@[j])@ == overrides@[j].platform@,
            decreases count - i,
        {
            values.push(overrides[i].platform.clone());
            i += 1;
        }
        assert(values.deep_view() =~= views(overrides@));
        Err(ResolutionError::AmbiguousOverride { count, values })
    }
}

} // verus!
