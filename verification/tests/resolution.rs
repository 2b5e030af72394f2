use aargh64::admission::AdmissionOutcome;
use aargh64::error::ResolutionError;
use aargh64::manifest::{ImageIndex, Manifest, ManifestDescriptor, Platform};
use aargh64::orchestrator::{
    begin, find_response, proceed, resolve_image, with_overrides, FetchRequest, FetchResponse,
    Plan, Step, Task, NO_RESPONSE,
};
use aargh64::patch::{PatchOperation, PatchSet};
use aargh64::platform::TargetPlatform;
use aargh64::platform_override::PlatformOverrideSpec;
use aargh64::pod::{Annotation, Container, Pod};
use aargh64::reference::ImageReference;

fn entry(os: &str, architecture: &str, digest: &str) -> ManifestDescriptor {
    ManifestDescriptor {
        platform: Some(Platform { os: os.to_string(), architecture: architecture.to_string() }),
        digest: digest.to_string(),
    }
}

fn index(entries: Vec<ManifestDescriptor>) -> Manifest {
    Manifest::MultiPlatformIndex(ImageIndex { manifests: entries })
}

fn usual_index(arm_digest: &str) -> Manifest {
    index(vec![entry("linux", "amd64", "sha256:aaa"), entry("linux", "arm64", arm_digest)])
}

fn target(os: &str, architecture: &str) -> TargetPlatform {
    TargetPlatform { os: os.to_string(), architecture: architecture.to_string() }
}

fn container(image: &str) -> Container {
    Container { image: Some(image.to_string()) }
}

fn annotated(platform: &str, containers: Vec<Container>) -> Pod {
    Pod {
        annotations: vec![Annotation { key: "aargh64".to_string(), value: platform.to_string() }],
        containers: Some(containers),
    }
}

fn plain(containers: Vec<Container>) -> Pod {
    Pod { annotations: vec![], containers: Some(containers) }
}

fn platform_override(platform: &str) -> PlatformOverrideSpec {
    PlatformOverrideSpec { platform: platform.to_string() }
}

fn response(container: usize, manifest: Manifest) -> FetchResponse {
    FetchResponse { container, result: Ok(manifest) }
}

fn failure(container: usize, reason: &str) -> FetchResponse {
    FetchResponse { container, result: Err(reason.to_string()) }
}

fn operation(index: usize, value: &str) -> PatchOperation {
    PatchOperation { index, value: value.to_string() }
}

fn plan_of(step: Step) -> Plan {
    match step {
        Step::FetchManifests(plan) => plan,
        other => panic!("no manifests are wanted: {:?}", other),
    }
}

fn pod_document(images: &[Option<&str>]) -> serde_json::Value {
    let mut containers = Vec::new();
    for (i, image) in images.iter().enumerate() {
        let mut container = serde_json::Map::new();
        container.insert("name".to_string(), serde_json::Value::String(format!("c{}", i)));
        if let Some(image) = image {
            container.insert("image".to_string(), serde_json::Value::String(image.to_string()));
        }
        containers.push(serde_json::Value::Object(container));
    }
    let mut spec = serde_json::Map::new();
    spec.insert("containers".to_string(), serde_json::Value::Array(containers));
    let mut pod = serde_json::Map::new();
    pod.insert("kind".to_string(), serde_json::Value::String("Pod".to_string()));
    pod.insert("spec".to_string(), serde_json::Value::Object(spec));
    serde_json::Value::Object(pod)
}

fn json_patch_of(patch: &PatchSet) -> json_patch::Patch {
    let mut operations = Vec::new();
    for operation in &patch.operations {
        assert_eq!(operation.op(), "replace");
        operations.push(json_patch::PatchOperation::Replace(json_patch::ReplaceOperation {
            path: json_patch::jsonptr::PointerBuf::parse(operation.path()).unwrap(),
            value: serde_json::Value::String(operation.value.clone()),
        }));
    }
    json_patch::Patch(operations)
}

#[test]
fn annotated_pod_with_one_container_is_pinned() {
    let pod = annotated("linux/arm64", vec![container("example.com/app:1.0")]);
    let plan = plan_of(begin(&pod));
    assert_eq!(plan.target, target("linux", "arm64"));
    let requests = plan.requests();
    assert_eq!(
        requests,
        vec![FetchRequest {
            container: 0,
            reference: ImageReference::parse("example.com/app:1.0").unwrap(),
        }]
    );
    let responses = vec![response(0, usual_index("sha256:bbb"))];
    let patch = plan.with_manifests(&responses).unwrap();
    assert_eq!(patch.operations.len(), 1);
    assert_eq!(patch.operations[0].op(), "replace");
    assert_eq!(patch.operations[0].path(), "/spec/containers/0/image");
    assert_eq!(patch.operations[0].value, "example.com/app@sha256:bbb");
}

#[test]
fn annotated_pod_never_asks_for_the_overrides() {
    let pods = vec![
        annotated("linux/arm64", vec![container("example.com/app:1.0")]),
        annotated("linux/arm64", vec![]),
        annotated("nonsense", vec![container("example.com/app:1.0")]),
        Pod {
            annotations: vec![Annotation {
                key: "aargh64".to_string(),
                value: "linux/arm64".to_string(),
            }],
            containers: None,
        },
    ];
    for pod in pods {
        assert_ne!(begin(&pod), Step::ListOverrides);
    }
}

#[test]
fn annotation_takes_precedence_over_overrides() {
    let pod = annotated("linux/arm64", vec![container("example.com/app:1.0")]);
    let first = begin(&pod);
    let none = with_overrides(&pod, &vec![]);
    let one = with_overrides(&pod, &vec![platform_override("linux/s390x")]);
    let two = with_overrides(
        &pod,
        &vec![platform_override("linux/s390x"), platform_override("linux/amd64")],
    );
    assert_eq!(none, first);
    assert_eq!(one, first);
    assert_eq!(two, first);
    assert_eq!(plan_of(two).target, target("linux", "arm64"));
}

#[test]
fn invalid_annotation_ends_the_resolution() {
    let pod = annotated("arm64", vec![container("example.com/app:1.0")]);
    let expected = Step::Done(Err(ResolutionError::InvalidAnnotation { value: "arm64".to_string() }));
    assert_eq!(begin(&pod), expected);
    assert_eq!(with_overrides(&pod, &vec![platform_override("linux/arm64")]), expected);
}

#[test]
fn pod_without_annotation_asks_for_the_overrides() {
    assert_eq!(begin(&plain(vec![container("example.com/app:1.0")])), Step::ListOverrides);
    assert_eq!(begin(&Pod { annotations: vec![], containers: None }), Step::ListOverrides);
}

#[test]
fn no_annotation_and_no_override_leave_the_pod_alone() {
    let pod = plain(vec![container("example.com/app:1.0"), container("busybox")]);
    assert_eq!(begin(&pod), Step::ListOverrides);
    assert_eq!(with_overrides(&pod, &vec![]), Step::Done(Ok(PatchSet { operations: vec![] })));
}

#[test]
fn no_override_leaves_even_a_pod_without_spec_alone() {
    let pod = Pod { annotations: vec![], containers: None };
    assert_eq!(with_overrides(&pod, &vec![]), Step::Done(Ok(PatchSet { operations: vec![] })));
}

#[test]
fn two_overrides_and_no_annotation_are_ambiguous() {
    let pod = plain(vec![container("example.com/app:1.0")]);
    let overrides = vec![platform_override("linux/arm64"), platform_override("linux/amd64")];
    assert_eq!(
        with_overrides(&pod, &overrides),
        Step::Done(Err(ResolutionError::AmbiguousOverride {
            count: 2,
            values: vec!["linux/arm64".to_string(), "linux/amd64".to_string()],
        }))
    );
}

#[test]
fn single_override_is_the_target_of_a_plain_pod() {
    let pod = plain(vec![container("example.com/app:1.0")]);
    let plan = plan_of(with_overrides(&pod, &vec![platform_override("linux/arm64")]));
    assert_eq!(plan.target, target("linux", "arm64"));
    let patch = plan.with_manifests(&vec![response(0, usual_index("sha256:bbb"))]).unwrap();
    assert_eq!(patch.operations, vec![operation(0, "example.com/app@sha256:bbb")]);
}

#[test]
fn single_malformed_override_ends_the_resolution() {
    let pod = plain(vec![container("example.com/app:1.0")]);
    assert_eq!(
        with_overrides(&pod, &vec![platform_override("arm64")]),
        Step::Done(Err(ResolutionError::Parse { input: "arm64".to_string() }))
    );
}

#[test]
fn pod_without_spec_cannot_be_pinned() {
    let pod = Pod {
        annotations: vec![Annotation { key: "aargh64".to_string(), value: "linux/arm64".to_string() }],
        containers: None,
    };
    assert_eq!(begin(&pod), Step::Done(Err(ResolutionError::NoPodSpec)));
    let plain = Pod { annotations: vec![], containers: None };
    assert_eq!(
        with_overrides(&plain, &vec![platform_override("linux/arm64")]),
        Step::Done(Err(ResolutionError::NoPodSpec))
    );
}

#[test]
fn pod_without_containers_gets_an_empty_patch() {
    let pod = annotated("linux/arm64", vec![]);
    let plan = plan_of(begin(&pod));
    assert_eq!(plan.tasks, vec![]);
    assert_eq!(plan.requests(), vec![]);
    assert_eq!(plan.with_manifests(&vec![]), Ok(PatchSet { operations: vec![] }));
}

#[test]
fn tasks_follow_the_containers() {
    let pod = annotated(
        "linux/arm64",
        vec![container("example.com/app:1.0"), Container { image: None }, container("Not An Image")],
    );
    let plan = plan_of(begin(&pod));
    assert_eq!(
        plan.tasks,
        vec![
            Task::Fetch(ImageReference::parse("example.com/app:1.0").unwrap()),
            Task::Skip,
            Task::Invalid { image: "Not An Image".to_string() },
        ]
    );
    assert_eq!(
        plan.requests(),
        vec![FetchRequest {
            container: 0,
            reference: ImageReference::parse("example.com/app:1.0").unwrap(),
        }]
    );
}

#[test]
fn container_without_image_is_skipped() {
    let pod = annotated(
        "linux/arm64",
        vec![Container { image: None }, container("example.com/app:1.0"), Container { image: None }],
    );
    let plan = plan_of(begin(&pod));
    let requests = plan.requests();
    assert_eq!(requests.len(), 1);
    assert_eq!(requests[0].container, 1);
    let patch = plan.with_manifests(&vec![response(1, usual_index("sha256:bbb"))]).unwrap();
    assert_eq!(patch.operations, vec![operation(1, "example.com/app@sha256:bbb")]);
}

#[test]
fn malformed_image_fails_the_pod() {
    let pod = annotated(
        "linux/arm64",
        vec![container("example.com/app:1.0"), container("Not An Image")],
    );
    let plan = plan_of(begin(&pod));
    assert_eq!(
        plan.with_manifests(&vec![response(0, usual_index("sha256:bbb"))]),
        Err(ResolutionError::Parse { input: "Not An Image".to_string() })
    );
}

#[test]
fn empty_image_fails_the_pod() {
    let pod = annotated("linux/arm64", vec![container("")]);
    let plan = plan_of(begin(&pod));
    assert_eq!(plan.tasks, vec![Task::Invalid { image: String::new() }]);
    assert_eq!(
        plan.with_manifests(&vec![]),
        Err(ResolutionError::Parse { input: String::new() })
    );
}

#[test]
fn single_platform_image_is_not_an_index() {
    let pod = annotated("linux/arm64", vec![container("example.com/app:1.0")]);
    let plan = plan_of(begin(&pod));
    assert_eq!(
        plan.with_manifests(&vec![response(0, Manifest::SinglePlatformImage)]),
        Err(ResolutionError::NotAnIndex)
    );
}

#[test]
fn single_platform_image_among_indices_leaves_no_patch() {
    let pod = annotated(
        "linux/arm64",
        vec![container("example.com/a:1"), container("example.com/b:1"), container("example.com/c:1")],
    );
    let plan = plan_of(begin(&pod));
    let responses = vec![
        response(0, usual_index("sha256:a")),
        response(1, usual_index("sha256:b")),
        response(2, Manifest::SinglePlatformImage),
    ];
    assert_eq!(plan.with_manifests(&responses), Err(ResolutionError::NotAnIndex));
}

#[test]
fn index_without_the_target_fails_the_pod() {
    let pod = annotated("linux/riscv64", vec![container("example.com/app:1.0")]);
    let plan = plan_of(begin(&pod));
    assert_eq!(
        plan.with_manifests(&vec![response(0, usual_index("sha256:bbb"))]),
        Err(ResolutionError::NoMatchingPlatform)
    );
}

#[test]
fn index_entry_without_platform_fails_the_pod() {
    let pod = annotated("linux/arm64", vec![container("example.com/app:1.0")]);
    let plan = plan_of(begin(&pod));
    let manifest = index(vec![
        ManifestDescriptor { platform: None, digest: "sha256:aaa".to_string() },
        entry("linux", "arm64", "sha256:bbb"),
    ]);
    assert_eq!(
        plan.with_manifests(&vec![response(0, manifest)]),
        Err(ResolutionError::MissingPlatformMetadata)
    );
}

#[test]
fn one_failed_fetch_of_three_leaves_no_patch() {
    let pod = annotated(
        "linux/arm64",
        vec![container("example.com/a:1"), container("example.com/b:1"), container("example.com/c:1")],
    );
    let plan = plan_of(begin(&pod));
    assert_eq!(plan.requests().len(), 3);
    let responses = vec![
        response(0, usual_index("sha256:a")),
        failure(1, "connection refused"),
        response(2, usual_index("sha256:c")),
    ];
    assert_eq!(
        plan.with_manifests(&responses),
        Err(ResolutionError::Registry { reason: "connection refused".to_string() })
    );
}

#[test]
fn error_of_the_first_failing_container_is_reported() {
    let pod = annotated(
        "linux/arm64",
        vec![
            container("example.com/a:1"),
            container("example.com/b:1"),
            container("Not An Image"),
            container("example.com/d:1"),
        ],
    );
    let plan = plan_of(begin(&pod));
    let responses = vec![
        failure(3, "timeout"),
        response(1, Manifest::SinglePlatformImage),
        response(0, usual_index("sha256:a")),
    ];
    assert_eq!(plan.with_manifests(&responses), Err(ResolutionError::NotAnIndex));
    let responses = vec![
        failure(3, "timeout"),
        response(1, usual_index("sha256:b")),
        response(0, usual_index("sha256:a")),
    ];
    assert_eq!(
        plan.with_manifests(&responses),
        Err(ResolutionError::Parse { input: "Not An Image".to_string() })
    );
}

#[test]
fn missing_response_is_a_registry_error() {
    let pod = annotated("linux/arm64", vec![container("example.com/a:1"), container("example.com/b:1")]);
    let plan = plan_of(begin(&pod));
    assert_eq!(
        plan.with_manifests(&vec![response(0, usual_index("sha256:a"))]),
        Err(ResolutionError::Registry { reason: NO_RESPONSE.to_string() })
    );
    assert_eq!(NO_RESPONSE, "no response from the registry");
}

#[test]
fn patch_is_sorted_by_container_whatever_the_order_of_responses() {
    let pod = annotated(
        "linux/arm64",
        vec![container("example.com/a:1"), container("example.com/b:1"), container("example.com/c:1")],
    );
    let plan = plan_of(begin(&pod));
    let expected = vec![
        operation(0, "example.com/a@sha256:a"),
        operation(1, "example.com/b@sha256:b"),
        operation(2, "example.com/c@sha256:c"),
    ];
    let orders: Vec<Vec<usize>> =
        vec![vec![0, 1, 2], vec![0, 2, 1], vec![1, 0, 2], vec![1, 2, 0], vec![2, 0, 1], vec![2, 1, 0]];
    let digests = ["sha256:a", "sha256:b", "sha256:c"];
    for order in orders {
        let responses: Vec<FetchResponse> =
            order.iter().map(|&i| response(i, usual_index(digests[i]))).collect();
        assert_eq!(plan.with_manifests(&responses).unwrap().operations, expected);
    }
}

#[test]
fn same_image_twice_is_fetched_and_pinned_twice() {
    let pod = annotated("linux/arm64", vec![container("example.com/a:1"), container("example.com/a:1")]);
    let plan = plan_of(begin(&pod));
    let requests = plan.requests();
    assert_eq!(requests.len(), 2);
    assert_eq!(requests[0].container, 0);
    assert_eq!(requests[1].container, 1);
    assert_eq!(requests[0].reference, requests[1].reference);
    let responses = vec![response(0, usual_index("sha256:old")), response(1, usual_index("sha256:new"))];
    assert_eq!(
        plan.with_manifests(&responses).unwrap().operations,
        vec![operation(0, "example.com/a@sha256:old"), operation(1, "example.com/a@sha256:new")]
    );
}

#[test]
fn first_response_for_a_container_counts() {
    let responses = vec![
        response(1, usual_index("sha256:one")),
        failure(0, "first"),
        response(0, usual_index("sha256:late")),
        response(1, Manifest::SinglePlatformImage),
    ];
    assert_eq!(find_response(&responses, 0), Some(&Err("first".to_string())));
    assert_eq!(find_response(&responses, 1), Some(&Ok(usual_index("sha256:one"))));
    assert_eq!(find_response(&responses, 2), None);
    assert_eq!(find_response(&vec![], 0), None);
}

#[test]
fn responses_for_other_containers_are_ignored() {
    let pod = annotated("linux/arm64", vec![Container { image: None }, container("example.com/a:1")]);
    let plan = plan_of(begin(&pod));
    let responses = vec![
        failure(0, "nobody asked"),
        failure(7, "nobody asked"),
        response(1, usual_index("sha256:a")),
    ];
    assert_eq!(
        plan.with_manifests(&responses).unwrap().operations,
        vec![operation(1, "example.com/a@sha256:a")]
    );
}

#[test]
fn resolving_one_image_covers_every_answer() {
    let reference = ImageReference::parse("example.com/app:1.0").unwrap();
    let wanted = target("linux", "arm64");
    let good = Ok(usual_index("sha256:bbb"));
    assert_eq!(
        resolve_image(4, &reference, &wanted, Some(&good)),
        Ok(operation(4, "example.com/app@sha256:bbb"))
    );
    let single = Ok(Manifest::SinglePlatformImage);
    assert_eq!(resolve_image(4, &reference, &wanted, Some(&single)), Err(ResolutionError::NotAnIndex));
    let failed = Err("denied".to_string());
    assert_eq!(
        resolve_image(4, &reference, &wanted, Some(&failed)),
        Err(ResolutionError::Registry { reason: "denied".to_string() })
    );
    assert_eq!(
        resolve_image(4, &reference, &wanted, None),
        Err(ResolutionError::Registry { reason: NO_RESPONSE.to_string() })
    );
    let empty = Ok(index(vec![]));
    assert_eq!(
        resolve_image(4, &reference, &wanted, Some(&empty)),
        Err(ResolutionError::NoMatchingPlatform)
    );
}

#[test]
fn proceeding_depends_on_the_target() {
    let pod = plain(vec![container("example.com/app:1.0")]);
    assert_eq!(proceed(&pod, Ok(None)), Step::Done(Ok(PatchSet { operations: vec![] })));
    assert_eq!(
        proceed(&pod, Err(ResolutionError::NoMatchingPlatform)),
        Step::Done(Err(ResolutionError::NoMatchingPlatform))
    );
    let plan = plan_of(proceed(&pod, Ok(Some(target("linux", "arm64")))));
    assert_eq!(plan, Plan::new(target("linux", "arm64"), pod.containers.as_ref().unwrap()));
}

#[test]
fn applying_the_patch_pins_every_image() {
    let images = [
        Some("example.com/app:1.0"),
        None,
        Some("busybox"),
        Some("registry.example.com:5000/team/tool:2"),
    ];
    let pod = annotated(
        "linux/arm64",
        images.iter().map(|image| Container { image: image.map(|s| s.to_string()) }).collect(),
    );
    let plan = plan_of(begin(&pod));
    let responses = vec![
        response(3, usual_index("sha256:333")),
        response(0, usual_index("sha256:000")),
        response(2, usual_index("sha256:222")),
    ];
    let patch = plan.with_manifests(&responses).unwrap();
    let mut document = pod_document(&images);
    json_patch::patch(&mut document, &json_patch_of(&patch)).unwrap();
    let expected = pod_document(&[
        Some("example.com/app@sha256:000"),
        None,
        Some("docker.io/library/busybox@sha256:222"),
        Some("registry.example.com:5000/team/tool@sha256:333"),
    ]);
    assert_eq!(document, expected);
}

#[test]
fn applying_the_patch_of_a_large_pod_reaches_the_right_containers() {
    let images: Vec<String> = (0..12).map(|i| format!("example.com/app{}:1", i)).collect();
    let pod = annotated("linux/arm64", images.iter().map(|image| container(image)).collect());
    let plan = plan_of(begin(&pod));
    let responses: Vec<FetchResponse> =
        (0..12).rev().map(|i| response(i, usual_index(&format!("sha256:{}", i)))).collect();
    let patch = plan.with_manifests(&responses).unwrap();
    let before: Vec<Option<&str>> = images.iter().map(|image| Some(image.as_str())).collect();
    let mut document = pod_document(&before);
    json_patch::patch(&mut document, &json_patch_of(&patch)).unwrap();
    let pinned: Vec<String> = (0..12).map(|i| format!("example.com/app{}@sha256:{}", i, i)).collect();
    let after: Vec<Option<&str>> = pinned.iter().map(|image| Some(image.as_str())).collect();
    assert_eq!(document, pod_document(&after));
}

#[test]
fn patch_with_operations_is_handed_on() {
    let patch = PatchSet { operations: vec![operation(0, "example.com/app@sha256:bbb")] };
    assert_eq!(
        AdmissionOutcome::from_resolution(Ok(PatchSet {
            operations: vec![operation(0, "example.com/app@sha256:bbb")]
        })),
        AdmissionOutcome::AllowWithPatch(patch)
    );
}

#[test]
fn empty_patch_allows_the_pod_as_it_is() {
    assert_eq!(
        AdmissionOutcome::from_resolution(Ok(PatchSet { operations: vec![] })),
        AdmissionOutcome::AllowUnmodified
    );
}

#[test]
fn failed_resolution_allows_the_pod_as_it_is() {
    let errors = vec![
        ResolutionError::Parse { input: "x".to_string() },
        ResolutionError::Registry { reason: "down".to_string() },
        ResolutionError::NotAnIndex,
        ResolutionError::NoMatchingPlatform,
        ResolutionError::MissingPlatformMetadata,
        ResolutionError::InvalidAnnotation { value: "x".to_string() },
        ResolutionError::AmbiguousOverride { count: 2, values: vec!["a/b".to_string(), "c/d".to_string()] },
        ResolutionError::NoPodSpec,
    ];
    for error in errors {
        assert_eq!(AdmissionOutcome::from_resolution(Err(error)), AdmissionOutcome::AllowUnmodified);
    }
}
