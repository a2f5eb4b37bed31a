use k8s_psl::{parse_resource, InvalidResourceKind, ResourceKind};

#[test]
fn resource_pod() {
    assert_eq!(
        parse_resource("pod/worker-1"),
        Ok((ResourceKind::Pod, "worker-1".to_string()))
    );
}

#[test]
fn resource_job() {
    assert_eq!(
        parse_resource("job/batch-7"),
        Ok((ResourceKind::Job, "batch-7".to_string()))
    );
}

#[test]
fn resource_name_with_slashes() {
    assert_eq!(
        parse_resource("pod/a/b/c"),
        Ok((ResourceKind::Pod, "a/b/c".to_string()))
    );
}

#[test]
fn resource_empty_name() {
    assert_eq!(parse_resource("pod/"), Ok((ResourceKind::Pod, String::new())));
    assert_eq!(parse_resource("job"), Ok((ResourceKind::Job, String::new())));
}

#[test]
fn resource_non_ascii_name() {
    assert_eq!(
        parse_resource("job/größe"),
        Ok((ResourceKind::Job, "größe".to_string()))
    );
}

#[test]
fn resource_other_kinds() {
    assert_eq!(parse_resource("deployment/web"), Err(InvalidResourceKind));
    assert_eq!(parse_resource("Pod/web"), Err(InvalidResourceKind));
    assert_eq!(parse_resource("pods/web"), Err(InvalidResourceKind));
    assert_eq!(parse_resource("po/d"), Err(InvalidResourceKind));
    assert_eq!(parse_resource("/pod"), Err(InvalidResourceKind));
    assert_eq!(parse_resource(""), Err(InvalidResourceKind));
    assert_eq!(parse_resource("web"), Err(InvalidResourceKind));
}

#[test]
fn resource_error_message() {
    assert_eq!(
        InvalidResourceKind.message(),
        "invalid or missing resource kind"
    );
}
