use xray_lite::{AwsNamespace, CustomNamespace, Namespace, RemoteNamespace, Subsegment};

#[test]
fn aws_namespace_should_have_service_name_as_name() {
    let namespace = AwsNamespace::new("S3", "GetObject");
    assert_eq!(namespace.name(""), "S3");
    assert_eq!(namespace.name("prefix"), "S3");
}

#[test]
fn aws_namespace_should_update_subsegment_with_aws_operation() {
    let namespace = AwsNamespace::new("S3", "GetObject");
    let mut subsegment = Subsegment::default();
    namespace.update_subsegment(&mut subsegment);
    assert_eq!(subsegment.namespace.unwrap(), "aws");
    assert_eq!(subsegment.aws.unwrap().operation.unwrap(), "GetObject");
}

#[test]
fn aws_namespace_should_update_subsegment_with_request_id() {
    let mut namespace = AwsNamespace::new("S3", "GetObject");
    namespace.request_id("12345");
    let mut subsegment = Subsegment::default();
    namespace.update_subsegment(&mut subsegment);
    assert_eq!(subsegment.aws.unwrap().request_id.unwrap(), "12345");
}

#[test]
fn aws_namespace_should_update_subsegment_with_response_status() {
    let mut namespace = AwsNamespace::new("S3", "GetObject");
    namespace.response_status(200);
    let mut subsegment = Subsegment::default();
    namespace.update_subsegment(&mut subsegment);
    assert_eq!(
        subsegment
            .http
            .expect("http")
            .response
            .expect("response")
            .status
            .expect("status"),
        200,
    );
}

#[test]
fn remote_namespace_should_have_name_as_name() {
    let namespace = RemoteNamespace::new("codemonger.io", "GET", "https://codemonger.io/");
    assert_eq!(namespace.name(""), "codemonger.io");
    assert_eq!(namespace.name("prefix"), "codemonger.io");
}

#[test]
fn remote_namespace_should_update_subsegment_with_remote_service() {
    let namespace = RemoteNamespace::new("codemonger.io", "GET", "https://codemonger.io/");
    let mut subsegment = Subsegment::default();
    namespace.update_subsegment(&mut subsegment);
    assert_eq!(subsegment.namespace.unwrap(), "remote");
    let request = subsegment.http.expect("http").request.expect("request");
    assert_eq!(request.method.unwrap(), "GET");
    assert_eq!(request.url.unwrap(), "https://codemonger.io/");
}

#[test]
fn remote_namespace_should_update_subsegment_with_response_status() {
    let mut namespace = RemoteNamespace::new("codemonger.io", "GET", "https://codemonger.io/");
    namespace.response_status(200);
    let mut subsegment = Subsegment::default();
    namespace.update_subsegment(&mut subsegment);
    assert_eq!(
        subsegment
            .http
            .expect("http")
            .response
            .expect("response")
            .status
            .expect("status"),
        200,
    );
}

#[test]
fn custom_namespace_should_have_prefixed_name() {
    let namespace = CustomNamespace::new("TestSubsegment");
    assert_eq!(namespace.name(""), "TestSubsegment");
    assert_eq!(namespace.name("prefix"), "prefixTestSubsegment");
}

#[test]
fn aws_decoration_twice_keeps_first_fields() {
    let mut namespace = AwsNamespace::new("S3", "GetObject");
    let mut subsegment = Subsegment::default();
    namespace.update_subsegment(&mut subsegment);
    namespace.request_id("abc");
    namespace.update_subsegment(&mut subsegment);
    assert_eq!(subsegment.namespace.as_deref(), Some("aws"));
    let aws = subsegment.aws.unwrap();
    assert_eq!(aws.operation.as_deref(), Some("GetObject"));
    assert_eq!(aws.request_id.as_deref(), Some("abc"));
}

#[test]
fn decoration_never_overwrites_present_fields() {
    let mut subsegment = Subsegment::default();
    let mut remote = RemoteNamespace::new("svc", "GET", "https://a/");
    remote.response_status(404);
    remote.update_subsegment(&mut subsegment);
    let mut aws = AwsNamespace::new("S3", "PutObject");
    aws.response_status(200);
    aws.update_subsegment(&mut subsegment);
    let mut other = RemoteNamespace::new("svc", "POST", "https://b/");
    other.response_status(500);
    other.update_subsegment(&mut subsegment);
    assert_eq!(subsegment.namespace.as_deref(), Some("remote"));
    let http = subsegment.http.unwrap();
    let request = http.request.unwrap();
    assert_eq!(request.method.as_deref(), Some("GET"));
    assert_eq!(request.url.as_deref(), Some("https://a/"));
    assert_eq!(http.response.unwrap().status, Some(404));
    assert_eq!(subsegment.aws.unwrap().operation.as_deref(), Some("PutObject"));
}

#[test]
fn remote_status_before_request_creates_both_blocks() {
    let mut namespace = RemoteNamespace::new("svc", "GET", "https://a/");
    namespace.response_status(201).response_status(202);
    let mut subsegment = Subsegment::default();
    namespace.update_subsegment(&mut subsegment);
    let http = subsegment.http.unwrap();
    assert!(http.request.is_some());
    assert_eq!(http.response.unwrap().status, Some(202));
}

#[test]
fn custom_namespace_leaves_record_alone() {
    let namespace = CustomNamespace::new("work");
    let mut subsegment = Subsegment::default();
    namespace.update_subsegment(&mut subsegment);
    assert!(subsegment.namespace.is_none());
    assert!(subsegment.aws.is_none());
    assert!(subsegment.http.is_none());
}

#[test]
fn default_record_is_in_progress_without_end() {
    let subsegment = Subsegment::default();
    assert!(subsegment.in_progress);
    assert!(subsegment.end_time.is_none());
}
