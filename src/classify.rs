//! Classification of outbound requests to a cloud service into the namespace
//! of the operation they call.
use vstd::prelude::*;

use crate::header::pairs_view;
use crate::namespace::{AwsNamespace, AwsNamespaceView};
use crate::segment::opt_str_view;
use crate::text::{ends_with, has_suffix, same_chars, split_chars, split_on, views_of};

verus! {

/// `url::Url`, carried through opaquely.
#[verifier::external_type_specification]
#[verifier::external_body]
pub struct ExUrl(url::Url);

/// `aws_smithy_types::body::SdkBody`, the body type of SDK requests, carried
/// through opaquely.
#[verifier::external_type_specification]
#[verifier::external_body]
pub struct ExSdkBody(aws_smithy_types::body::SdkBody);

/// `aws_smithy_runtime_api::http::Request`, an outbound SDK request, carried
/// through opaquely.
#[verifier::external_type_specification]
#[verifier::external_body]
#[verifier::reject_recursive_types(B)]
pub struct ExRequest<B>(aws_smithy_runtime_api::http::Request<B>);

/// What `str::to_lowercase` makes of a string.
pub uninterp spec fn lower_of(s: Seq<char>) -> Seq<char>;

/// Relies on `str::to_lowercase`: the lowercase form depends on the
/// characters alone.
#[verifier::external_body]
fn lowercase(s: &str) -> (r: String)
    ensures
        r@ == lower_of(s@),
{
    s.to_lowercase()
}

/// Relies on `url::Url::parse`: the parsed URL, or nothing when the text is
/// not a URL.
#[verifier::external_body]
fn parse_url(s: &str) -> (r: Option<url::Url>) {
    url::Url::parse(s).ok()
}

/// What a URL text is to the logic: nothing when `url::Url::parse` rejects
/// it, else the host when it is a domain name and the decoded query pairs.
pub uninterp spec fn url_parts_of(s: Seq<char>) -> Option<
    (Option<Seq<char>>, Seq<(Seq<char>, Seq<char>)>),
>;

/// Relies on `url::Url::parse` with `Url::domain` and `Url::query_pairs`: the
/// parts of a URL depend on its text alone.
#[verifier::external_body]
fn url_parts(s: &str) -> (r: Option<(Option<String>, Vec<(String, String)>)>)
    ensures
        match r {
            Some((d, q)) => url_parts_of(s@) == Some((opt_str_view(d), pairs_view(q@))),
            None => url_parts_of(s@) is None,
        },
{
    url::Url::parse(s).ok().map(
        |u| (u.domain().map(|d| d.to_string()), u.query_pairs().map(|(k, v)| (k.into_owned(), v.into_owned())).collect())
    )
}

/// Relies on `url::Url::domain`: the host when it is a domain name.
#[verifier::external_body]
fn url_domain(u: &url::Url) -> (r: Option<String>) {
    u.domain().map(|d| d.to_string())
}

/// Relies on `url::Url::query_pairs`: the decoded pairs of the query, in order.
#[verifier::external_body]
fn url_query_pairs(u: &url::Url) -> (r: Vec<(String, String)>) {
    u.query_pairs().map(|(k, v)| (k.into_owned(), v.into_owned())).collect()
}

/// Relies on `Headers::iter` of the request: its header names and values.
#[verifier::external_body]
fn request_headers(request: &aws_smithy_runtime_api::http::Request) -> (r: Vec<(String, String)>) {
    request.headers().iter().map(|(k, v)| (k.to_string(), v.to_string())).collect()
}

/// Relies on `Request::uri`: the URI of the request.
#[verifier::external_body]
fn request_uri(request: &aws_smithy_runtime_api::http::Request) -> (r: String) {
    request.uri().to_string()
}

/// `i` is the first pair whose name, in lower case, is `name`.
pub open spec fn is_first_named(pairs: Seq<(Seq<char>, Seq<char>)>, name: Seq<char>, i: int) -> bool {
    &&& 0 <= i < pairs.len()
    &&& lower_of(pairs[i].0) == name
    &&& forall|j: int| 0 <= j < i ==> lower_of(#[trigger] pairs[j].0) != name
}

/// The value of the first pair whose name, in lower case, is `name`.
pub open spec fn first_named(pairs: Seq<(Seq<char>, Seq<char>)>, name: Seq<char>) -> Option<
    Seq<char>,
> {
    if exists|i: int| is_first_named(pairs, name, i) {
        Some(pairs[choose|i: int| is_first_named(pairs, name, i)].1)
    } else {
        None
    }
}

/// The service part of an endpoint's domain: the second label of a
/// five-label domain (`bucket.s3.region.amazonaws.com`), the first label of a
/// three- or four-label one.
pub open spec fn service_code(domain: Seq<char>) -> Option<Seq<char>> {
    let labels = split_on(domain, '.');
    if labels.len() == 5 {
        Some(labels[1])
    } else if labels.len() == 3 || labels.len() == 4 {
        Some(labels[0])
    } else {
        None
    }
}

/// The namespace of an operation of a service.
pub open spec fn operation_namespace(service: Seq<char>, operation: Seq<char>) -> AwsNamespaceView {
    AwsNamespaceView { service, operation, request_id: None, response_status: None }
}

/// The namespace that a `service.operation` target names.
pub open spec fn target_namespace(target: Seq<char>) -> Option<AwsNamespaceView> {
    let parts = split_on(target, '.');
    if parts.len() == 2 {
        Some(operation_namespace(parts[0], parts[1]))
    } else {
        None
    }
}

/// The S3 operation that a URL with this domain and query calls: its `x-id`.
pub open spec fn s3_namespace(domain: Option<Seq<char>>, query: Seq<(Seq<char>, Seq<char>)>) -> Option<
    AwsNamespaceView,
> {
    match domain {
        Some(d) => if service_code(d) == Some("s3"@) {
            match first_named(query, "x-id"@) {
                Some(op) => Some(operation_namespace("S3"@, op)),
                None => None,
            }
        } else {
            None
        },
        None => None,
    }
}

/// The operation that a request to an endpoint with this domain and query
/// calls, for the services known by their endpoints.
pub open spec fn endpoint_namespace(
    domain: Option<Seq<char>>,
    query: Seq<(Seq<char>, Seq<char>)>,
) -> Option<AwsNamespaceView> {
    match domain {
        Some(d) => if ends_with(d, ".amazonaws.com"@) {
            s3_namespace(domain, query)
        } else {
            None
        },
        None => None,
    }
}

/// The operation that a request with these headers and this URI calls: the
/// `x-amz-target` header where there is one, else what the endpoint shows.
pub open spec fn request_namespace(headers: Seq<(Seq<char>, Seq<char>)>, uri: Seq<char>) -> Option<
    AwsNamespaceView,
> {
    match first_named(headers, "x-amz-target"@) {
        Some(t) => target_namespace(t),
        None => match url_parts_of(uri) {
            Some((domain, query)) => endpoint_namespace(domain, query),
            None => None,
        },
    }
}

/// The view of an optional namespace.
pub open spec fn opt_namespace_view(n: Option<AwsNamespace>) -> Option<AwsNamespaceView> {
    match n {
        Some(n) => Some(n@),
        None => None,
    }
}

/// The value of the first pair whose name, in lower case, is `name`.
pub fn first_with_name(pairs: &Vec<(String, String)>, name: &str) -> (r: Option<String>)
    ensures
        match r {
            Some(v) => first_named(pairs_view(pairs@), name@) == Some(v@),
            None => first_named(pairs_view(pairs@), name@) is None,
        },
{
    let ghost pv = pairs_view(pairs@);
    let mut i: usize = 0;
    while i < pairs.len()
        invariant
            i <= pairs@.len(),
            pv == pairs_view(pairs@),
            forall|j: int| 0 <= j < i ==> lower_of(#[trigger] pv[j].0) != name@,
        decreases pairs.len() - i,
    {
        let (k, v) = &pairs[i];
        let low = lowercase(k.as_str());
        if same_chars(low.as_str(), name) {
            proof {
                assert(is_first_named(pv, name@, i as int));
                let c = choose|c: int| is_first_named(pv, name@, c);
                if c < i {
                    assert(lower_of(pv[c].0) != name@);
                } else if c > i {
                    assert(lower_of(pv[i as int].0) != name@);
                }
            }
            return Some(v.clone());
        }
        i = i + 1;
    }
    proof {
        assert forall|c: int| !is_first_named(pv, name@, c) by {
            if 0 <= c < pv.len() {
                assert(lower_of(pv[c].0) != name@);
            }
        }
    }
    None
}

/// The service part of an endpoint's domain.
pub fn aws_service_code(domain: &str) -> (r: Option<String>)
    ensures
        match r {
            Some(c) => service_code(domain@) == Some(c@),
            None => service_code(domain@) is None,
        },
{
    let mut labels = split_chars(domain, '.');
    let n = labels.len();
    proof {
        assert(views_of(labels@).len() == n);
    }
    if n == 5 {
        let code = labels.remove(1);
        Some(code)
    } else if n == 3 || n == 4 {
        let code = labels.remove(0);
        Some(code)
    } else {
        None
    }
}

/// The namespace that a `service.operation` target names; none unless the
/// target has exactly two parts.
pub fn classify_target(target: &str) -> (r: Option<AwsNamespace>)
    ensures
        opt_namespace_view(r) == target_namespace(target@),
{
    let parts = split_chars(target, '.');
    proof {
        assert(views_of(parts@).len() == parts@.len());
    }
    if parts.len() == 2 {
        proof {
            assert(views_of(parts@)[0] == parts@[0]@);
            assert(views_of(parts@)[1] == parts@[1]@);
        }
        Some(AwsNamespace::new(parts[0].as_str(), parts[1].as_str()))
    } else {
        None
    }
}

/// The S3 operation that a URL with this domain and query calls.
pub fn classify_s3_parts(domain: Option<&str>, query: &Vec<(String, String)>) -> (r: Option<
    AwsNamespace,
>)
    ensures
        opt_namespace_view(r) == s3_namespace(
            match domain {
                Some(d) => Some(d@),
                None => None,
            },
            pairs_view(query@),
        ),
{
    match domain {
        Some(d) => match aws_service_code(d) {
            Some(code) => {
                if same_chars(code.as_str(), "s3") {
                    match first_with_name(query, "x-id") {
                        Some(op) => Some(AwsNamespace::new("S3", op.as_str())),
                        None => None,
                    }
                } else {
                    None
                }
            },
            None => None,
        },
        None => None,
    }
}

/// The operation that a request to an endpoint with this domain and query
/// calls, for the services known by their endpoints.
pub fn classify_endpoint(domain: Option<&str>, query: &Vec<(String, String)>) -> (r: Option<
    AwsNamespace,
>)
    ensures
        opt_namespace_view(r) == endpoint_namespace(
            match domain {
                Some(d) => Some(d@),
                None => None,
            },
            pairs_view(query@),
        ),
{
    match domain {
        Some(d) => {
            if has_suffix(d, ".amazonaws.com") {
                classify_s3_parts(domain, query)
            } else {
                None
            }
        },
        None => None,
    }
}

/// Parses a URL and keeps it only when its host is an endpoint of the cloud
/// provider, a domain ending in `.amazonaws.com`.
pub fn try_parse_aws_url(s: &str) -> (r: Option<url::Url>) {
    match parse_url(s) {
        Some(u) => match url_domain(&u) {
            Some(d) => {
                if has_suffix(d.as_str(), ".amazonaws.com") {
                    Some(u)
                } else {
                    None
                }
            },
            None => None,
        },
        None => None,
    }
}

/// The operation that a request with these headers and this URI calls: the
/// `x-amz-target` header where there is one, else what the endpoint shows.
pub fn classify_request_parts(headers: &Vec<(String, String)>, uri: &str) -> (r: Option<
    AwsNamespace,
>)
    ensures
        opt_namespace_view(r) == request_namespace(pairs_view(headers@), uri@),
{
    match first_with_name(headers, "x-amz-target") {
        Some(target) => classify_target(target.as_str()),
        None => match url_parts(uri) {
            Some((domain, query)) => match &domain {
                Some(d) => classify_endpoint(Some(d.as_str()), &query),
                None => classify_endpoint(None, &query),
            },
            None => None,
        },
    }
}

/// A strategy that recognises the operation an outbound request calls.
pub trait RequestClassifier {
    /// The namespace of the operation, if the request is recognised.
    fn classify_request(&self, request: &aws_smithy_runtime_api::http::Request) -> Option<
        AwsNamespace,
    >;
}

/// Recognises the services that name the operation in an `x-amz-target`
/// header, and S3 by the `x-id` parameter of its endpoint URLs.
#[derive(Debug)]
pub struct KnownServices;

impl RequestClassifier for KnownServices {
    fn classify_request(&self, request: &aws_smithy_runtime_api::http::Request) -> (r: Option<
        AwsNamespace,
    >)
        ensures
            exists|headers: Seq<(Seq<char>, Seq<char>)>, uri: Seq<char>|
                opt_namespace_view(r) == request_namespace(headers, uri),
    {
        let headers = request_headers(request);
        let uri = request_uri(request);
        classify_request_parts(&headers, uri.as_str())
    }
}

/// Recognises S3 requests by the `x-id` parameter of their URLs.
#[derive(Debug)]
pub struct S3RequestClassifier;

impl S3RequestClassifier {
    /// The S3 operation that a URL calls, if it names one.
    pub fn classify_url(url: &url::Url) -> (r: Option<AwsNamespace>)
        ensures
            exists|domain: Option<Seq<char>>, query: Seq<(Seq<char>, Seq<char>)>|
                opt_namespace_view(r) == s3_namespace(domain, query),
    {
        let domain = url_domain(url);
        let query = url_query_pairs(url);
        match &domain {
            Some(d) => classify_s3_parts(Some(d.as_str()), &query),
            None => classify_s3_parts(None, &query),
        }
    }
}

impl RequestClassifier for S3RequestClassifier {
    fn classify_request(&self, request: &aws_smithy_runtime_api::http::Request) -> (r: Option<
        AwsNamespace,
    >)
        ensures
            exists|domain: Option<Seq<char>>, query: Seq<(Seq<char>, Seq<char>)>|
                opt_namespace_view(r) == s3_namespace(domain, query),
    {
        let uri = request_uri(request);
        match try_parse_aws_url(uri.as_str()) {
            Some(u) => Self::classify_url(&u),
            None => {
                proof {
                    let q = Seq::<(Seq<char>, Seq<char>)>::empty();
                    assert(opt_namespace_view(None) == s3_namespace(None, q));
                }
                None
            },
        }
    }
}

} // verus!
