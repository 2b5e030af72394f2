//! What holds of every resolution, proved from the definitions.

use crate::error::ErrorView;
use crate::manifest::{
    all_name_platforms, is_for, lemma_no_entry_no_match, matched_digest, DescriptorView,
    ManifestView,
};
use crate::orchestrator::{
    first_step, is_first_for, lemma_response_at, outcome, requests_of, response_for, settled,
    settlement, step_for, tasks_of, PlanView, ResponseView, StepView, TaskView,
};
use crate::patch::{applied, lemma_replaced_at, PatchView};
use crate::platform::PlatformView;
use crate::pod::{annotation_value, PodView};
use crate::reference::{pinned, reference_of};
use crate::resolver::{target_of, ANNOTATION_KEY};
use vstd::prelude::*;

verus! {

/// How the task of container `i` ends.
pub open spec fn outcome_at(
    tasks: Seq<TaskView>,
    target: PlatformView,
    responses: Seq<ResponseView>,
    i: int,
) -> Result<Option<PatchView>, ErrorView> {
    outcome(tasks[i], i as nat, target, responses)
}

/// Container `i` fails, and none before it does.
pub open spec fn is_first_failure(
    tasks: Seq<TaskView>,
    target: PlatformView,
    responses: Seq<ResponseView>,
    i: int,
) -> bool {
    &&& outcome_at(tasks, target, responses, i) is Err
    &&& forall|j: int| 0 <= j < i ==> #[trigger] outcome_at(tasks, target, responses, j) is Ok
}

/// All or nothing: the tasks settle with a patch exactly when every one of them
/// ends well. Where one fails there is no patch at all, and the error is that
/// of the first container that fails.
pub proof fn lemma_all_or_nothing(
    tasks: Seq<TaskView>,
    target: PlatformView,
    responses: Seq<ResponseView>,
    n: nat,
)
    ensures
        settled(tasks, target, responses, n) is Ok <==> forall|i: int|
            0 <= i < n ==> #[trigger] outcome_at(tasks, target, responses, i) is Ok,
        settled(tasks, target, responses, n) matches Err(e) ==> exists|i: int|
            0 <= i < n && #[trigger] is_first_failure(tasks, target, responses, i) && outcome_at(
                tasks,
                target,
                responses,
                i,
            ) == Err::<Option<PatchView>, ErrorView>(e),
    decreases n,
{
    if n > 0 {
        let m = (n - 1) as nat;
        lemma_all_or_nothing(tasks, target, responses, m);
        match settled(tasks, target, responses, m) {
            Err(e) => {
                let i = choose|i: int|
                    0 <= i < m && #[trigger] is_first_failure(tasks, target, responses, i)
                        && outcome_at(tasks, target, responses, i) == Err::<
                        Option<PatchView>,
                        ErrorView,
                    >(e);
                assert(0 <= i < n && is_first_failure(tasks, target, responses, i));
                assert(!(outcome_at(tasks, target, responses, i) is Ok));
            },
            Ok(_) => {
                if outcome_at(tasks, target, responses, m as int) is Err {
                    assert(is_first_failure(tasks, target, responses, m as int));
                } else {
                    assert forall|i: int| 0 <= i < n implies #[trigger] outcome_at(
                        tasks,
                        target,
                        responses,
                        i,
                    ) is Ok by {
                        if i < m {
                        }
                    }
                }
            },
        }
    }
}

/// A patch holds one operation for each request, in the order of the requests:
/// the operation of the container that the request is for. The requests stand
/// in the order of the containers, so the patch is sorted by container.
pub proof fn lemma_one_operation_per_request(
    tasks: Seq<TaskView>,
    target: PlatformView,
    responses: Seq<ResponseView>,
    n: nat,
)
    requires
        settled(tasks, target, responses, n) is Ok,
    ensures
        ({
            let patch = settled(tasks, target, responses, n)->Ok_0;
            let requests = requests_of(tasks, n);
            &&& patch.len() == requests.len()
            &&& forall|k: int|
                0 <= k < patch.len() ==> (#[trigger] patch[k]).index == requests[k].container
                    && patch[k].index < n && outcome_at(
                    tasks,
                    target,
                    responses,
                    patch[k].index as int,
                ) == Ok::<Option<PatchView>, ErrorView>(Some(patch[k]))
            &&& forall|a: int, b: int|
                0 <= a < b < patch.len() ==> (#[trigger] patch[a]).index < (#[trigger] patch[b]).index
        }),
    decreases n,
{
    if n > 0 {
        let m = (n - 1) as nat;
        lemma_one_operation_per_request(tasks, target, responses, m);
    }
}

/// The result depends on the responses only through what was answered for each
/// container: in which order they came plays no part.
pub proof fn lemma_order_of_responses_is_irrelevant(
    tasks: Seq<TaskView>,
    target: PlatformView,
    responses: Seq<ResponseView>,
    others: Seq<ResponseView>,
    n: nat,
)
    requires
        forall|container: nat| response_for(responses, container) == response_for(others, container),
    ensures
        settled(tasks, target, responses, n) == settled(tasks, target, others, n),
    decreases n,
{
    if n > 0 {
        lemma_order_of_responses_is_irrelevant(tasks, target, responses, others, (n - 1) as nat);
    }
}

/// No two of the responses are for one container.
pub open spec fn one_response_each(responses: Seq<ResponseView>) -> bool {
    forall|i: int, j: int|
        0 <= i < j < responses.len() ==> (#[trigger] responses[i]).container
            != (#[trigger] responses[j]).container
}

proof fn lemma_first_response_exists(responses: Seq<ResponseView>, container: nat, k: int)
    requires
        0 <= k < responses.len(),
        responses[k].container == container,
    ensures
        exists|i: int| is_first_for(responses, container, i),
    decreases k,
{
    if exists|j: int| 0 <= j < k && (#[trigger] responses[j]).container == container {
        let j = choose|j: int| 0 <= j < k && (#[trigger] responses[j]).container == container;
        lemma_first_response_exists(responses, container, j);
    } else {
        assert(is_first_for(responses, container, k));
    }
}

proof fn lemma_reordered_responses_answer_alike(
    responses: Seq<ResponseView>,
    others: Seq<ResponseView>,
    container: nat,
)
    requires
        one_response_each(responses),
        responses.to_multiset() == others.to_multiset(),
    ensures
        response_for(responses, container) == response_for(others, container),
{
    broadcast use vstd::seq_lib::to_multiset_contains;

    if exists|k: int| is_first_for(others, container, k) {
        let k = choose|k: int| is_first_for(others, container, k);
        lemma_response_at(others, container, k);
        assert(others.contains(others[k]));
        assert(responses.to_multiset().count(others[k]) > 0);
        assert(responses.contains(others[k]));
        let i = choose|i: int| 0 <= i < responses.len() && responses[i] == others[k];
        lemma_first_response_exists(responses, container, i);
        let first = choose|first: int| is_first_for(responses, container, first);
        lemma_response_at(responses, container, first);
        assert(first == i) by {
            if first < i {
                assert(responses[first].container != responses[i].container);
            } else if i < first {
                assert(responses[i].container != responses[first].container);
            }
        }
    } else {
        if exists|i: int| is_first_for(responses, container, i) {
            let i = choose|i: int| is_first_for(responses, container, i);
            assert(responses.contains(responses[i]));
            assert(others.to_multiset().count(responses[i]) > 0);
            assert(others.contains(responses[i]));
            let k = choose|k: int| 0 <= k < others.len() && others[k] == responses[i];
            lemma_first_response_exists(others, container, k);
        }
    }
}

/// The order in which the fetches complete plays no part: responses of which
/// no two are for one container settle the tasks alike in whatever order they
/// are handed in.
pub proof fn lemma_completion_order_is_irrelevant(
    tasks: Seq<TaskView>,
    target: PlatformView,
    responses: Seq<ResponseView>,
    others: Seq<ResponseView>,
    n: nat,
)
    requires
        one_response_each(responses),
        responses.to_multiset() == others.to_multiset(),
    ensures
        settled(tasks, target, responses, n) == settled(tasks, target, others, n),
{
    assert forall|container: nat|
        response_for(responses, container) == response_for(others, container) by {
        lemma_reordered_responses_answer_alike(responses, others, container);
    }
    lemma_order_of_responses_is_irrelevant(tasks, target, responses, others, n);
}

/// A container whose image is a single-platform image is not an index: its
/// task fails for that reason, and the Pod gets no patch.
pub proof fn lemma_single_platform_image_fails(
    plan: PlanView,
    responses: Seq<ResponseView>,
    i: int,
)
    requires
        0 <= i < plan.tasks.len(),
        plan.tasks[i] is Fetch,
        response_for(responses, i as nat) == Some(
            Ok::<ManifestView, Seq<char>>(ManifestView::SinglePlatformImage),
        ),
    ensures
        outcome_at(plan.tasks, plan.target, responses, i) == Err::<Option<PatchView>, ErrorView>(
            ErrorView::NotAnIndex,
        ),
        settlement(plan, responses) is Err,
{
    lemma_all_or_nothing(plan.tasks, plan.target, responses, plan.tasks.len());
}

/// A container whose image index has no entry for the target, all entries
/// naming a platform, fails for want of a matching platform, and the Pod gets
/// no patch.
pub proof fn lemma_unmatched_index_fails(
    plan: PlanView,
    responses: Seq<ResponseView>,
    i: int,
    index: Seq<DescriptorView>,
)
    requires
        0 <= i < plan.tasks.len(),
        plan.tasks[i] is Fetch,
        response_for(responses, i as nat) == Some(
            Ok::<ManifestView, Seq<char>>(ManifestView::MultiPlatformIndex(index)),
        ),
        all_name_platforms(index),
        forall|k: int| 0 <= k < index.len() ==> !is_for(#[trigger] index[k], plan.target),
    ensures
        outcome_at(plan.tasks, plan.target, responses, i) == Err::<Option<PatchView>, ErrorView>(
            ErrorView::NoMatchingPlatform,
        ),
        settlement(plan, responses) is Err,
{
    lemma_no_entry_no_match(index, plan.target);
    lemma_all_or_nothing(plan.tasks, plan.target, responses, plan.tasks.len());
}

/// A failed fetch fails the Pod, whatever the other containers' fetches gave.
pub proof fn lemma_failed_fetch_fails(plan: PlanView, responses: Seq<ResponseView>, i: int)
    requires
        0 <= i < plan.tasks.len(),
        plan.tasks[i] is Fetch,
        !(response_for(responses, i as nat) matches Some(Ok(_))),
    ensures
        outcome_at(plan.tasks, plan.target, responses, i) is Err,
        settlement(plan, responses) is Err,
{
    lemma_all_or_nothing(plan.tasks, plan.target, responses, plan.tasks.len());
}

/// Precedence: for an annotated Pod the first step never asks for the
/// cluster's overrides, and were they handed in all the same, they would change
/// nothing, whatever they are.
pub proof fn lemma_annotated_pod_ignores_overrides(pod: PodView, overrides: Seq<Seq<char>>)
    requires
        annotation_value(pod.annotations, ANNOTATION_KEY@) is Some,
    ensures
        !(first_step(pod) is ListOverrides),
        step_for(pod, target_of(pod, overrides)) == first_step(pod),
{
}

/// Without annotation and without override a Pod is left as it is: the
/// resolution ends with an empty patch, and no manifest is asked for.
pub proof fn lemma_no_override_leaves_pod_alone(pod: PodView, overrides: Seq<Seq<char>>)
    requires
        annotation_value(pod.annotations, ANNOTATION_KEY@) is None,
        overrides.len() == 0,
    ensures
        first_step(pod) is ListOverrides,
        step_for(pod, target_of(pod, overrides)) == StepView::Done(
            Ok(Seq::<PatchView>::empty()),
        ),
{
}

/// Without annotation, two or more overrides are ambiguous: the resolution
/// ends with that error, which reports the overrides, and no manifest is asked
/// for.
pub proof fn lemma_several_overrides_are_ambiguous(pod: PodView, overrides: Seq<Seq<char>>)
    requires
        annotation_value(pod.annotations, ANNOTATION_KEY@) is None,
        overrides.len() >= 2,
    ensures
        first_step(pod) is ListOverrides,
        step_for(pod, target_of(pod, overrides)) == StepView::Done(
            Err(ErrorView::AmbiguousOverride { count: overrides.len(), values: overrides }),
        ),
{
}

/// The images of a Pod's containers once each is pinned as its task ends; a
/// container without operation keeps what it has.
pub open spec fn pinned_images(
    images: Seq<Option<Seq<char>>>,
    target: PlatformView,
    responses: Seq<ResponseView>,
    n: nat,
) -> Seq<Option<Seq<char>>> {
    Seq::new(
        images.len(),
        |i: int|
            if i < n {
                match outcome_at(tasks_of(images), target, responses, i) {
                    Ok(Some(operation)) => Some(operation.value),
                    _ => images[i],
                }
            } else {
                images[i]
            },
    )
}

proof fn lemma_patch_pins_first(
    images: Seq<Option<Seq<char>>>,
    target: PlatformView,
    responses: Seq<ResponseView>,
    n: nat,
)
    requires
        n <= images.len(),
        settled(tasks_of(images), target, responses, n) is Ok,
    ensures
        applied(images, settled(tasks_of(images), target, responses, n)->Ok_0) == Some(
            pinned_images(images, target, responses, n),
        ),
    decreases n,
{
    let tasks = tasks_of(images);
    let patch = settled(tasks, target, responses, n)->Ok_0;
    if n == 0 {
        assert(pinned_images(images, target, responses, n) =~= images);
    } else {
        let m = (n - 1) as nat;
        lemma_patch_pins_first(images, target, responses, m);
        let earlier = settled(tasks, target, responses, m)->Ok_0;
        let before = pinned_images(images, target, responses, m);
        match outcome_at(tasks, target, responses, m as int) {
            Ok(Some(operation)) => {
                assert(patch == earlier.push(operation));
                assert(patch.drop_last() =~= earlier);
                assert(patch.last() == operation);
                assert(operation.index == m);
                assert(before[m as int] == images[m as int]);
                assert(images[m as int] is Some);
                lemma_replaced_at(before, m, operation.value);
                assert(before.update(m as int, Some(operation.value)) =~= pinned_images(
                    images,
                    target,
                    responses,
                    n,
                ));
            },
            _ => {
                assert(patch == earlier);
                assert(before =~= pinned_images(images, target, responses, n));
            },
        }
    }
}

/// Round trip: the patch of a Pod applies to the Pod, and leaves every
/// container that has an image with `<registry>/<repository>@<digest>`:
/// registry and repository of the image it had, without its tag, and the
/// digest that the image's index has for the target. A container without
/// image stays without.
pub proof fn lemma_patch_pins_every_image(
    images: Seq<Option<Seq<char>>>,
    target: PlatformView,
    responses: Seq<ResponseView>,
)
    requires
        settled(tasks_of(images), target, responses, images.len()) is Ok,
    ensures
        ({
            let patch = settled(tasks_of(images), target, responses, images.len())->Ok_0;
            &&& applied(images, patch) matches Some(after)
            &&& after.len() == images.len()
            &&& forall|i: int|
                0 <= i < images.len() ==> match #[trigger] images[i] {
                    None => after[i] is None,
                    Some(image) => {
                        &&& reference_of(image) matches Some(reference)
                        &&& response_for(responses, i as nat) matches Some(
                            Ok(ManifestView::MultiPlatformIndex(index)),
                        )
                        &&& matched_digest(index, target) matches Ok(digest)
                        &&& after[i] == Some(pinned(reference, digest))
                    },
                }
        }),
{
    let n = images.len();
    lemma_patch_pins_first(images, target, responses, n);
    lemma_all_or_nothing(tasks_of(images), target, responses, n);
    let after = pinned_images(images, target, responses, n);
    assert forall|i: int| 0 <= i < images.len() implies match #[trigger] images[i] {
        None => after[i] is None,
        Some(image) => {
            &&& reference_of(image) matches Some(reference)
            &&& response_for(responses, i as nat) matches Some(
                Ok(ManifestView::MultiPlatformIndex(index)),
            )
            &&& matched_digest(index, target) matches Ok(digest)
            &&& after[i] == Some(pinned(reference, digest))
        },
    } by {
        assert(outcome_at(tasks_of(images), target, responses, i) is Ok);
    }
}

} // verus!
