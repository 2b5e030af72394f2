use aargh64::patch::PatchOperation;
use aargh64::reference::ImageReference;

#[test]
fn operation_replaces_the_image_of_its_container() {
    let reference = ImageReference::parse("example.com/app:1.0").unwrap();
    let operation = PatchOperation::replace_image(0, &reference, "sha256:bbb");
    assert_eq!(operation.index, 0);
    assert_eq!(operation.op(), "replace");
    assert_eq!(operation.path(), "/spec/containers/0/image");
    assert_eq!(operation.value, "example.com/app@sha256:bbb");
}

#[test]
fn operation_path_writes_the_index_in_decimal() {
    let paths = [
        (1usize, "/spec/containers/1/image"),
        (9, "/spec/containers/9/image"),
        (10, "/spec/containers/10/image"),
        (207, "/spec/containers/207/image"),
    ];
    for (index, path) in paths {
        let operation = PatchOperation { index, value: String::new() };
        assert_eq!(operation.path(), path);
    }
}

#[test]
fn operation_paths_differ_between_containers() {
    let mut seen = Vec::new();
    for index in 0usize..120 {
        let path = PatchOperation { index, value: String::new() }.path();
        assert!(!seen.contains(&path));
        seen.push(path);
    }
}

#[test]
fn operation_path_is_a_json_pointer() {
    let operation = PatchOperation { index: 12, value: "x".to_string() };
    let pointer = json_patch::jsonptr::PointerBuf::parse(operation.path()).unwrap();
    let tokens: Vec<String> = pointer.tokens().map(|t| t.decoded().to_string()).collect();
    assert_eq!(tokens, vec!["spec", "containers", "12", "image"]);
}
