use aws_smithy_runtime_api::http::Request;
use aws_smithy_types::body::SdkBody;
use xray_lite::{
    aws_service_code, classify_endpoint, classify_request_parts, classify_s3_parts,
    classify_target, first_with_name, try_parse_aws_url, AwsNamespace, KnownServices,
    RequestClassifier, S3RequestClassifier,
};

#[test]
fn parse_global_url() {
    let url = try_parse_aws_url("https://s3.amazonaws.com").unwrap();
    assert_eq!("https://s3.amazonaws.com/", url.as_str());
    assert_eq!(Some("s3"), aws_service_code(url.domain().unwrap()).as_deref());
}

#[test]
fn parse_regional_url() {
    let url = try_parse_aws_url("https://s3.us-west-2.amazonaws.com").unwrap();
    assert_eq!("https://s3.us-west-2.amazonaws.com/", url.as_str());
    assert_eq!(Some("s3"), aws_service_code(url.domain().unwrap()).as_deref());
}

#[test]
fn parse_non_aws_url() {
    assert_eq!(None, try_parse_aws_url("https://s3.us-west-2.amazon.com"));
}

#[test]
fn classify_s3_url() {
    let url = try_parse_aws_url(
        "https://s3.us-west-2.amazonaws.com/test-bucket/test-key?x-id=GetObject",
    )
    .unwrap();
    assert_eq!(
        format!("{:?}", AwsNamespace::new("S3", "GetObject")),
        format!("{:?}", S3RequestClassifier::classify_url(&url).unwrap()),
    );
}

#[test]
fn classify_s3_bucket_url() {
    let url = try_parse_aws_url(
        "https://test-bucket.s3.us-west-2.amazonaws.com/test-key?x-id=GetObject",
    )
    .unwrap();
    assert_eq!(
        format!("{:?}", AwsNamespace::new("S3", "GetObject")),
        format!("{:?}", S3RequestClassifier::classify_url(&url).unwrap()),
    );
}

#[test]
fn classify_unknown_s3_url() {
    let url =
        try_parse_aws_url("https://s3.us-west-2.amazonaws.com/test-bucket/test-key").unwrap();
    assert!(S3RequestClassifier::classify_url(&url).is_none());
}

#[test]
fn service_codes_by_label_count() {
    assert_eq!(aws_service_code("dynamodb.us-east-1.amazonaws.com").as_deref(), Some("dynamodb"));
    assert_eq!(aws_service_code("b.s3.us-east-1.amazonaws.com").as_deref(), Some("s3"));
    assert_eq!(aws_service_code("amazonaws.com"), None);
    assert_eq!(aws_service_code("a.b.c.d.e.f"), None);
}

#[test]
fn target_needs_two_parts() {
    let ns = classify_target("DynamoDB_20120810.GetItem").unwrap();
    assert_eq!(format!("{:?}", ns), format!("{:?}", AwsNamespace::new("DynamoDB_20120810", "GetItem")));
    assert!(classify_target("a.b.c").is_none());
    assert!(classify_target("plain").is_none());
}

#[test]
fn names_match_in_any_case() {
    let pairs = vec![
        ("Other".to_string(), "1".to_string()),
        ("X-Amz-Target".to_string(), "Svc.Op".to_string()),
        ("x-amz-target".to_string(), "Later.Op".to_string()),
    ];
    assert_eq!(first_with_name(&pairs, "x-amz-target").as_deref(), Some("Svc.Op"));
    assert_eq!(first_with_name(&pairs, "missing"), None);
}

#[test]
fn endpoint_must_be_of_the_cloud() {
    let query = vec![("X-Id".to_string(), "PutObject".to_string())];
    let ns = classify_endpoint(Some("bucket.s3.eu-west-1.amazonaws.com"), &query).unwrap();
    assert_eq!(format!("{:?}", ns), format!("{:?}", AwsNamespace::new("S3", "PutObject")));
    assert!(classify_endpoint(Some("bucket.s3.eu-west-1.example.com"), &query).is_none());
    assert!(classify_s3_parts(Some("bucket.s3.eu-west-1.example.com"), &query).is_some());
    assert!(classify_endpoint(Some("sqs.eu-west-1.amazonaws.com"), &query).is_none());
    assert!(classify_endpoint(None, &query).is_none());
}

#[test]
fn request_parts_prefer_the_target_header() {
    let headers = vec![("x-amz-target".to_string(), "DynamoDB_20120810.GetItem".to_string())];
    let ns = classify_request_parts(&headers, "https://dynamodb.us-east-1.amazonaws.com/").unwrap();
    assert_eq!(format!("{:?}", ns), format!("{:?}", AwsNamespace::new("DynamoDB_20120810", "GetItem")));
    let ns = classify_request_parts(&vec![], "https://b.s3.us-east-1.amazonaws.com/k?x-id=GetObject")
        .unwrap();
    assert_eq!(format!("{:?}", ns), format!("{:?}", AwsNamespace::new("S3", "GetObject")));
    assert!(classify_request_parts(&vec![], "not a url").is_none());
}

#[test]
fn known_services_classify_requests() {
    let mut request = Request::new(SdkBody::empty());
    request.set_uri("https://dynamodb.us-east-1.amazonaws.com/").unwrap();
    request.headers_mut().insert("X-Amz-Target", "DynamoDB_20120810.GetItem");
    let ns = KnownServices.classify_request(&request).unwrap();
    assert_eq!(format!("{:?}", ns), format!("{:?}", AwsNamespace::new("DynamoDB_20120810", "GetItem")));

    let mut s3 = Request::new(SdkBody::empty());
    s3.set_uri("https://test-bucket.s3.us-east-1.amazonaws.com/some/key?x-id=GetObject").unwrap();
    let ns = S3RequestClassifier.classify_request(&s3).unwrap();
    assert_eq!(format!("{:?}", ns), format!("{:?}", AwsNamespace::new("S3", "GetObject")));
}
