//! The resolution of a whole Pod, step by step.
//!
//! The library decides; the caller does the outside work. `begin` looks at the
//! Pod and says what is wanted first. Where that is the list of the cluster's
//! overrides, the caller lists them and calls `with_overrides`. Where a step
//! asks for manifests, the caller fetches the manifest of every request of the
//! plan, in any order and all at once if it likes, and hands the responses to
//! `with_manifests`, which settles the Pod: a patch for every container with an
//! image, or the error of the first container that failed, never a part of the
//! patch.

use crate::error::{ErrorView, ResolutionError};
use crate::manifest::{matched_digest, Manifest, ManifestView};
use crate::patch::{pin, PatchOperation, PatchSet, PatchView};
use crate::platform::{PlatformView, TargetPlatform};
use crate::platform_override::PlatformOverrideSpec;
use crate::pod::{Container, Pod, PodView};
use crate::reference::{reference_of, ImageReference, ReferenceView};
use crate::resolver::{
    annotated_target, target_from_annotation, target_from_overrides, target_of,
};
use crate::views::views;
use vstd::prelude::*;
use vstd::string::*;

verus! {

/// What is to be done for one container.
#[derive(Debug, PartialEq, Eq)]
pub enum Task {
    /// The container has no image: nothing to do.
    Skip,
    /// The container's image string is no image reference.
    Invalid { image: String },
    /// The manifest of this image is to be fetched.
    Fetch(ImageReference),
}

/// The target platform of a Pod and the task of each of its containers.
#[derive(Debug, PartialEq, Eq)]
pub struct Plan {
    pub target: TargetPlatform,
    pub tasks: Vec<Task>,
}

/// A manifest to be fetched, for the container of that position.
#[derive(Debug, PartialEq, Eq)]
pub struct FetchRequest {
    pub container: usize,
    pub reference: ImageReference,
}

/// What the registry answered for the container of that position: the
/// manifest, or the reason for which none came.
#[derive(Debug, PartialEq, Eq)]
pub struct FetchResponse {
    pub container: usize,
    pub result: Result<Manifest, String>,
}

/// What happens next in the resolution of a Pod.
#[derive(Debug, PartialEq, Eq)]
pub enum Step {
    /// The cluster's platform overrides are to be listed.
    ListOverrides,
    /// The manifests that the plan requests are to be fetched.
    FetchManifests(Plan),
    /// The resolution is over.
    Done(Result<PatchSet, ResolutionError>),
}

/// A `Task` as a mathematical value.
pub enum TaskView {
    Skip,
    Invalid { image: Seq<char> },
    Fetch(ReferenceView),
}

/// A `Plan` as a mathematical value.
pub struct PlanView {
    pub target: PlatformView,
    pub tasks: Seq<TaskView>,
}

/// A `FetchRequest` as a mathematical value.
pub struct RequestView {
    pub container: nat,
    pub reference: ReferenceView,
}

/// A `FetchResponse` as a mathematical value.
pub struct ResponseView {
    pub container: nat,
    pub result: Result<ManifestView, Seq<char>>,
}

/// A `Step` as a mathematical value.
pub enum StepView {
    ListOverrides,
    FetchManifests(PlanView),
    Done(Result<Seq<PatchView>, ErrorView>),
}

impl View for Task {
    type V = TaskView;

    open spec fn view(&self) -> TaskView {
        match *self {
            Task::Skip => TaskView::Skip,
            Task::Invalid { image } => TaskView::Invalid { image: image@ },
            Task::Fetch(reference) => TaskView::Fetch(reference@),
        }
    }
}

impl View for Plan {
    type V = PlanView;

    open spec fn view(&self) -> PlanView {
        PlanView { target: self.target@, tasks: views(self.tasks@) }
    }
}

impl View for FetchRequest {
    type V = RequestView;

    open spec fn view(&self) -> RequestView {
        RequestView { container: self.container as nat, reference: self.reference@ }
    }
}

impl View for FetchResponse {
    type V = ResponseView;

    open spec fn view(&self) -> ResponseView {
        ResponseView {
            container: self.container as nat,
            result: match self.result {
                Ok(manifest) => Ok(manifest@),
                Err(reason) => Err(reason@),
            },
        }
    }
}

impl View for Step {
    type V = StepView;

    open spec fn view(&self) -> StepView {
        match *self {
            Step::ListOverrides => StepView::ListOverrides,
            Step::FetchManifests(plan) => StepView::FetchManifests(plan@),
            Step::Done(Ok(patch)) => StepView::Done(Ok(patch@)),
            Step::Done(Err(e)) => StepView::Done(Err(e@)),
        }
    }
}

/// The reason reported for a request that got no response.
pub const NO_RESPONSE: &'static str = "no response from the registry";

/// The task of a container with the image `image`.
pub open spec fn task_of(image: Option<Seq<char>>) -> TaskView {
    match image {
        None => TaskView::Skip,
        Some(image) => match reference_of(image) {
            Some(reference) => TaskView::Fetch(reference),
            None => TaskView::Invalid { image },
        },
    }
}

/// The tasks of the containers with the images `images`, one each.
pub open spec fn tasks_of(images: Seq<Option<Seq<char>>>) -> Seq<TaskView> {
    Seq::new(images.len(), |i: int| task_of(images[i]))
}

/// The step that follows once the target is decided: an error ends the
/// resolution, no target ends it with an empty patch, and with a target the
/// manifests of the Pod's images are wanted, unless the Pod has no spec.
pub open spec fn step_for(
    pod: PodView,
    target: Result<Option<PlatformView>, ErrorView>,
) -> StepView {
    match target {
        Err(e) => StepView::Done(Err(e)),
        Ok(None) => StepView::Done(Ok(Seq::empty())),
        Ok(Some(target)) => match pod.containers {
            None => StepView::Done(Err(ErrorView::NoPodSpec)),
            Some(images) => StepView::FetchManifests(PlanView { target, tasks: tasks_of(images) }),
        },
    }
}

/// The first step for a Pod: the overrides are wanted only where the Pod is
/// not annotated.
pub open spec fn first_step(pod: PodView) -> StepView {
    match annotated_target(pod) {
        Ok(None) => StepView::ListOverrides,
        decided => step_for(pod, decided),
    }
}

/// The requests of the first `n` tasks: one for each image to fetch, in the
/// order of the containers.
pub open spec fn requests_of(tasks: Seq<TaskView>, n: nat) -> Seq<RequestView>
    decreases n,
{
    if n == 0 {
        Seq::empty()
    } else {
        let before = requests_of(tasks, (n - 1) as nat);
        match tasks[n - 1] {
            TaskView::Fetch(reference) => before.push(
                RequestView { container: (n - 1) as nat, reference },
            ),
            _ => before,
        }
    }
}

/// Response `i` is the first for the container `container`.
pub open spec fn is_first_for(responses: Seq<ResponseView>, container: nat, i: int) -> bool {
    &&& 0 <= i < responses.len()
    &&& responses[i].container == container
    &&& forall|j: int| 0 <= j < i ==> (#[trigger] responses[j]).container != container
}

/// What the registry answered for `container`: the first response that is
/// addressed to it, in whatever order the responses came.
pub open spec fn response_for(responses: Seq<ResponseView>, container: nat) -> Option<
    Result<ManifestView, Seq<char>>,
> {
    if exists|i: int| is_first_for(responses, container, i) {
        Some(responses[choose|i: int| is_first_for(responses, container, i)].result)
    } else {
        None
    }
}

/// The patch operation for container `container`, whose image is `reference`,
/// given what the registry answered: the image pinned to the digest that the
/// index has for `target`. No answer and a failed fetch are registry errors, a
/// single-platform image is no index, and the index may fail to resolve.
pub open spec fn resolved(
    container: nat,
    reference: ReferenceView,
    target: PlatformView,
    response: Option<Result<ManifestView, Seq<char>>>,
) -> Result<PatchView, ErrorView> {
    match response {
        None => Err(ErrorView::Registry { reason: NO_RESPONSE@ }),
        Some(Err(reason)) => Err(ErrorView::Registry { reason }),
        Some(Ok(ManifestView::SinglePlatformImage)) => Err(ErrorView::NotAnIndex),
        Some(Ok(ManifestView::MultiPlatformIndex(index))) => match matched_digest(index, target) {
            Ok(digest) => Ok(pin(container, reference, digest)),
            Err(e) => Err(e),
        },
    }
}

/// How the task of container `container` ends: with no patch operation for a
/// container without image, with an error, or with its operation.
pub open spec fn outcome(
    task: TaskView,
    container: nat,
    target: PlatformView,
    responses: Seq<ResponseView>,
) -> Result<Option<PatchView>, ErrorView> {
    match task {
        TaskView::Skip => Ok(None),
        TaskView::Invalid { image } => Err(ErrorView::Parse { input: image }),
        TaskView::Fetch(reference) => match resolved(
            container,
            reference,
            target,
            response_for(responses, container),
        ) {
            Ok(operation) => Ok(Some(operation)),
            Err(e) => Err(e),
        },
    }
}

/// How the first `n` tasks end together: with the error of the first that
/// fails, else with the operations of all of them, in the order of the
/// containers.
pub open spec fn settled(
    tasks: Seq<TaskView>,
    target: PlatformView,
    responses: Seq<ResponseView>,
    n: nat,
) -> Result<Seq<PatchView>, ErrorView>
    decreases n,
{
    if n == 0 {
        Ok(Seq::empty())
    } else {
        match settled(tasks, target, responses, (n - 1) as nat) {
            Err(e) => Err(e),
            Ok(patch) => match outcome(tasks[n - 1], (n - 1) as nat, target, responses) {
                Err(e) => Err(e),
                Ok(None) => Ok(patch),
                Ok(Some(operation)) => Ok(patch.push(operation)),
            },
        }
    }
}

/// How a plan ends, given the responses to its requests.
pub open spec fn settlement(plan: PlanView, responses: Seq<ResponseView>) -> Result<
    Seq<PatchView>,
    ErrorView,
> {
    settled(plan.tasks, plan.target, responses, plan.tasks.len())
}

/// An error, once met, is the result, whatever the later tasks do.
pub proof fn lemma_error_stays(
    tasks: Seq<TaskView>,
    target: PlatformView,
    responses: Seq<ResponseView>,
    k: nat,
    n: nat,
)
    requires
        k <= n,
        settled(tasks, target, responses, k) is Err,
    ensures
        settled(tasks, target, responses, n) == settled(tasks, target, responses, k),
    decreases n,
{
    if k < n {
        lemma_error_stays(tasks, target, responses, k, (n - 1) as nat);
    }
}

/// Where response `i` is the first for `container`, it is what the registry
/// answered for `container`.
pub proof fn lemma_response_at(responses: Seq<ResponseView>, container: nat, i: int)
    requires
        is_first_for(responses, container, i),
    ensures
        response_for(responses, container) == Some(responses[i].result),
{
    let k = choose|k: int| is_first_for(responses, container, k);
    if k < i {
        assert(responses[k].container != container);
    } else if i < k {
        assert(responses[i].container != container);
    }
}

impl Task {
    /// The task of `container`: none where it has no image, else the fetch of
    /// the image's manifest, if the image string is a reference.
    pub fn for_container(container: &Container) -> (task: Task)
        ensures
            task@ == task_of(container@),
    {
        match &container.image {
            None => Task::Skip,
            Some(image) => match ImageReference::parse(image.as_str()) {
                Ok(reference) => Task::Fetch(reference),
                Err(_) => Task::Invalid { image: image.clone() },
            },
        }
    }
}

impl Plan {
    /// Plans the resolution of `containers` for `target`.
    pub fn new(target: TargetPlatform, containers: &Vec<Container>) -> (plan: Plan)
        ensures
            plan@ == (PlanView { target: target@, tasks: tasks_of(views(containers@)) }),
    {
        let n = containers.len();
        let mut tasks: Vec<Task> = Vec::new();
        let mut i: usize = 0;
        while i < n
            invariant
                n == containers@.len(),
                i <= n,
                tasks@.len() == i,
                forall|j: int| 0 <= j < i ==> (#[trigger] tasks@[j])@ == task_of(containers@[j]@),
            decreases n - i,
        {
            tasks.push(Task::for_container(&containers[i]));
            i += 1;
        }
        assert(views(tasks@) =~= tasks_of(views(containers@)));
        Plan { target, tasks }
    }

    /// The manifests to fetch: one request for each container whose image is a
    /// reference, in the order of the containers.
    pub fn requests(&self) -> (requests: Vec<FetchRequest>)
        ensures
            views(requests@) == requests_of(self@.tasks, self@.tasks.len()),
    {
        let n = self.tasks.len();
        let mut requests: Vec<FetchRequest> = Vec::new();
        let mut i: usize = 0;
        while i < n
            invariant
                n == self.tasks@.len(),
                i <= n,
                views(requests@) == requests_of(self@.tasks, i as nat),
            decreases n - i,
        {
            let ghost before = views(requests@);
            assert(self@.tasks[i as int] == self.tasks@[i as int]@);
            match &self.tasks[i] {
                Task::Fetch(reference) => {
                    let request = FetchRequest { container: i, reference: reference.clone() };
                    requests.push(request);
                    assert(views(requests@) =~= before.push(request@));
                },
                _ => {},
            }
            i += 1;
        }
        requests
    }

    /// Settles the Pod: with every task done, the patch of all operations, in
    /// the order of the containers; else the error of the first container that
    /// failed. `responses` may come in any order; the first response for a
    /// container counts, and a request without response has failed.
    pub fn with_manifests(&self, responses: &Vec<FetchResponse>) -> (r: Result<
        PatchSet,
        ResolutionError,
    >)
        ensures
            match r {
                Ok(patch) => settlement(self@, views(responses@)) == Ok::<
                    Seq<PatchView>,
                    ErrorView,
                >(patch@),
                Err(e) => settlement(self@, views(responses@)) == Err::<Seq<PatchView>, ErrorView>(
                    e@,
                ),
            },
    {
        let n = self.tasks.len();
        let mut operations: Vec<PatchOperation> = Vec::new();
        let mut i: usize = 0;
        assert(views(operations@) =~= Seq::<PatchView>::empty());
        while i < n
            invariant
                n == self.tasks@.len(),
                i <= n,
                settled(self@.tasks, self@.target, views(responses@), i as nat) == Ok::<
                    Seq<PatchView>,
                    ErrorView,
                >(views(operations@)),
            decreases n - i,
        {
            let ghost before = views(operations@);
            assert(self@.tasks[i as int] == self.tasks@[i as int]@);
            match &self.tasks[i] {
                Task::Skip => {},
                Task::Invalid { image } => {
                    proof {
                        lemma_error_stays(
                            self@.tasks,
                            self@.target,
                            views(responses@),
                            (i + 1) as nat,
                            n as nat,
                        );
                    }
                    return Err(ResolutionError::Parse { input: image.clone() });
                },
                Task::Fetch(reference) => {
                    let response = find_response(responses, i);
                    match resolve_image(i, reference, &self.target, response) {
                        Ok(operation) => {
                            operations.push(operation);
                            assert(views(operations@) =~= before.push(operation@));
                        },
                        Err(e) => {
                            proof {
                                lemma_error_stays(
                                    self@.tasks,
                                    self@.target,
                                    views(responses@),
                                    (i + 1) as nat,
                                    n as nat,
                                );
                            }
                            return Err(e);
                        },
                    }
                },
            }
            i += 1;
        }
        Ok(PatchSet { operations })
    }
}

/// Finds what the registry answered for `container`.
pub fn find_response(responses: &Vec<FetchResponse>, container: usize) -> (r: Option<
    &Result<Manifest, String>,
>)
    ensures
        match r {
            Some(Ok(manifest)) => response_for(views(responses@), container as nat) == Some(
                Ok::<ManifestView, Seq<char>>(manifest@),
            ),
            Some(Err(reason)) => response_for(views(responses@), container as nat) == Some(
                Err::<ManifestView, Seq<char>>(reason@),
            ),
            None => response_for(views(responses@), container as nat) is None,
        },
{
    let n = responses.len();
    let mut i: usize = 0;
    while i < n
        invariant
            n == responses@.len(),
            i <= n,
            forall|j: int| 0 <= j < i ==> (#[trigger] views(responses@)[j]).container != container,
        decreases n - i,
    {
        let response = &responses[i];
        assert(views(responses@)[i as int] == response@);
        if response.container == container {
            proof {
                lemma_response_at(views(responses@), container as nat, i as int);
            }
            return Some(&response.result);
        }
        i += 1;
    }
    None
}

/// Resolves one container: from what the registry answered for its image to
/// the operation that pins it to the digest for `target`.
pub fn resolve_image(
    container: usize,
    reference: &ImageReference,
    target: &TargetPlatform,
    response: Option<&Result<Manifest, String>>,
) -> (r: Result<PatchOperation, ResolutionError>)
    ensures
        match r {
            Ok(operation) => resolved(
                container as nat,
                reference@,
                target@,
                response_view(response),
            ) == Ok::<PatchView, ErrorView>(operation@),
            Err(e) => resolved(container as nat, reference@, target@, response_view(response))
                == Err::<PatchView, ErrorView>(e@),
        },
{
    match response {
        None => Err(ResolutionError::Registry { reason: String::from_str(NO_RESPONSE) }),
        Some(Err(reason)) => Err(ResolutionError::Registry { reason: reason.clone() }),
        Some(Ok(Manifest::SinglePlatformImage)) => Err(ResolutionError::NotAnIndex),
        Some(Ok(Manifest::MultiPlatformIndex(index))) => match index.match_platform(target) {
            Ok(digest) => Ok(PatchOperation::replace_image(container, reference, digest.as_str())),
            Err(e) => Err(e),
        },
    }
}

/// A response, or the want of one, as a mathematical value.
pub open spec fn response_view(response: Option<&Result<Manifest, String>>) -> Option<
    Result<ManifestView, Seq<char>>,
> {
    match response {
        None => None,
        Some(Ok(manifest)) => Some(Ok(manifest@)),
        Some(Err(reason)) => Some(Err(reason@)),
    }
}

/// The step that follows once the target is decided.
pub fn proceed(pod: &Pod, target: Result<Option<TargetPlatform>, ResolutionError>) -> (step: Step)
    ensures
        step@ == step_for(pod@, target_view(target)),
{
    match target {
        Err(e) => Step::Done(Err(e)),
        Ok(None) => {
            let patch = PatchSet { operations: Vec::new() };
            assert(patch@ =~= Seq::<PatchView>::empty());
            Step::Done(Ok(patch))
        },
        Ok(Some(target)) => match &pod.containers {
            None => Step::Done(Err(ResolutionError::NoPodSpec)),
            Some(containers) => Step::FetchManifests(Plan::new(target, containers)),
        },
    }
}

/// A decision on the target as a mathematical value.
pub open spec fn target_view(target: Result<Option<TargetPlatform>, ResolutionError>) -> Result<
    Option<PlatformView>,
    ErrorView,
> {
    match target {
        Ok(Some(platform)) => Ok(Some(platform@)),
        Ok(None) => Ok(None),
        Err(e) => Err(e@),
    }
}

/// Begins the resolution of `pod`. An annotated Pod needs no look at the
/// cluster's overrides, and never gets one.
pub fn begin(pod: &Pod) -> (step: Step)
    ensures
        step@ == first_step(pod@),
{
    match target_from_annotation(pod) {
        Ok(None) => Step::ListOverrides,
        decided => proceed(pod, decided),
    }
}

/// Goes on with the overrides that the cluster holds. They decide only for a
/// Pod that is not annotated.
pub fn with_overrides(pod: &Pod, overrides: &Vec<PlatformOverrideSpec>) -> (step: Step)
    ensures
        step@ == step_for(pod@, target_of(pod@, views(overrides@))),
        !(step@ is ListOverrides),
{
    match target_from_annotation(pod) {
        Ok(None) => proceed(pod, target_from_overrides(overrides)),
        decided => proceed(pod, decided),
    }
}

} // verus!
