//! Namespaces: the strategies that name a record and decorate it with
//! domain-specific fields.
use vstd::prelude::*;

use crate::segment::{
    clone_opt_str, opt_str_view, AwsOperation, AwsOperationView, Http, HttpView, HttpRequest,
    HttpRequestView, Response, Subsegment, SubsegmentView,
};

verus! {

/// Set-if-absent: a value already present wins over a new one.
pub open spec fn first_some<T>(present: Option<T>, new: Option<T>) -> Option<T> {
    if present is Some {
        present
    } else {
        new
    }
}

/// The fields that say which work a record stands for and when it ran: a
/// decoration leaves them as they are.
pub open spec fn keeps_identity(before: SubsegmentView, after: SubsegmentView) -> bool {
    &&& after.id == before.id
    &&& after.name == before.name
    &&& after.start_time == before.start_time
    &&& after.end_time == before.end_time
    &&& after.in_progress == before.in_progress
    &&& after.trace_id == before.trace_id
    &&& after.parent_id == before.parent_id
}

/// A response block with the status set unless one is already there.
pub open spec fn merged_response(r: Option<Response>, status: u16) -> Response {
    match r {
        Some(r) => Response { status: first_some(r.status, Some(status)) },
        None => Response { status: Some(status) },
    }
}

/// An HTTP block with the response status set unless one is already there;
/// an absent block is created with the response alone.
pub open spec fn http_with_status(h: Option<HttpView>, status: u16) -> HttpView {
    match h {
        Some(h) => HttpView { response: Some(merged_response(h.response, status)), ..h },
        None => HttpView { request: None, response: Some(merged_response(None, status)) },
    }
}

/// Namespace: supplies a record's display name and decorates the record.
pub trait Namespace {
    /// The display name under the configured prefix.
    spec fn display_name(&self, prefix: Seq<char>) -> Seq<char>;

    /// The record after decoration.
    spec fn decorated(&self, s: SubsegmentView) -> SubsegmentView;

    /// Decoration leaves the identity and timing of a record alone.
    proof fn lemma_decoration_keeps_identity(&self, s: SubsegmentView)
        ensures
            keeps_identity(s, self.decorated(s)),
    ;

    /// Name of the namespace; `prefix` may be ignored.
    fn name(&self, prefix: &str) -> (r: String)
        ensures
            r@ == self.display_name(prefix@),
    ;

    /// Decorates the record.
    fn update_subsegment(&self, subsegment: &mut Subsegment)
        ensures
            final(subsegment)@ == self.decorated(old(subsegment)@),
    ;
}

/// Sets the response status of an HTTP block unless one is already there.
fn set_status(http: &mut Http, status: u16)
    ensures
        final(http)@ == (HttpView {
            response: Some(merged_response(old(http)@.response, status)),
            ..old(http)@
        }),
{
    match &mut http.response {
        Some(response) => {
            if response.status.is_none() {
                response.status = Some(status);
            }
        },
        None => {
            http.response = Some(Response { status: Some(status) });
        },
    }
}

/// Namespace for an operation of a cloud service.
#[derive(Debug)]
pub struct AwsNamespace {
    service: String,
    operation: String,
    request_id: Option<String>,
    response_status: Option<u16>,
}

/// The mathematical content of an [`AwsNamespace`].
pub struct AwsNamespaceView {
    pub service: Seq<char>,
    pub operation: Seq<char>,
    pub request_id: Option<Seq<char>>,
    pub response_status: Option<u16>,
}

impl View for AwsNamespace {
    type V = AwsNamespaceView;

    closed spec fn view(&self) -> AwsNamespaceView {
        AwsNamespaceView {
            service: self.service@,
            operation: self.operation@,
            request_id: opt_str_view(self.request_id),
            response_status: self.response_status,
        }
    }
}

impl AwsNamespaceView {
    /// The record after decoration: namespace `aws`, the operation and the
    /// request id in the cloud-operation block, and the response status in
    /// the HTTP block, each set only where absent.
    pub open spec fn decorate(self, s: SubsegmentView) -> SubsegmentView {
        SubsegmentView {
            namespace: first_some(s.namespace, Some("aws"@)),
            aws: Some(
                match s.aws {
                    Some(a) => AwsOperationView {
                        operation: first_some(a.operation, Some(self.operation)),
                        request_id: first_some(a.request_id, self.request_id),
                    },
                    None => AwsOperationView {
                        operation: Some(self.operation),
                        request_id: self.request_id,
                    },
                },
            ),
            http: match self.response_status {
                Some(status) => Some(http_with_status(s.http, status)),
                None => s.http,
            },
            ..s
        }
    }
}

impl AwsNamespace {
    /// Creates a namespace for an operation of a cloud service.
    pub fn new(service: &str, operation: &str) -> (r: AwsNamespace)
        ensures
            r@ == (AwsNamespaceView {
                service: service@,
                operation: operation@,
                request_id: None,
                response_status: None,
            }),
    {
        AwsNamespace {
            service: service.to_owned(),
            operation: operation.to_owned(),
            request_id: None,
            response_status: None,
        }
    }

    /// Sets the request id.
    pub fn request_id(&mut self, request_id: &str) -> (r: &mut Self)
        ensures
            r@ == (AwsNamespaceView { request_id: Some(request_id@), ..old(self)@ }),
            *final(self) == *final(r),
    {
        self.request_id = Some(request_id.to_owned());
        self
    }

    /// Sets the response status.
    pub fn response_status(&mut self, status: u16) -> (r: &mut Self)
        ensures
            r@ == (AwsNamespaceView { response_status: Some(status), ..old(self)@ }),
            *final(self) == *final(r),
    {
        self.response_status = Some(status);
        self
    }
}

impl Namespace for AwsNamespace {
    open spec fn display_name(&self, prefix: Seq<char>) -> Seq<char> {
        self@.service
    }

    open spec fn decorated(&self, s: SubsegmentView) -> SubsegmentView {
        self@.decorate(s)
    }

    proof fn lemma_decoration_keeps_identity(&self, s: SubsegmentView) {
    }

    fn name(&self, prefix: &str) -> (r: String) {
        self.service.clone()
    }

    fn update_subsegment(&self, subsegment: &mut Subsegment) {
        if subsegment.namespace.is_none() {
            subsegment.namespace = Some(String::from_str("aws"));
        }
        match &mut subsegment.aws {
            Some(aws) => {
                if aws.operation.is_none() {
                    aws.operation = Some(self.operation.clone());
                }
                if aws.request_id.is_none() {
                    aws.request_id = clone_opt_str(&self.request_id);
                }
            },
            None => {
                subsegment.aws = Some(
                    AwsOperation {
                        operation: Some(self.operation.clone()),
                        request_id: clone_opt_str(&self.request_id),
                    },
                );
            },
        }
        if let Some(status) = self.response_status {
            match &mut subsegment.http {
                Some(http) => set_status(http, status),
                None => {
                    subsegment.http = Some(
                        Http { request: None, response: Some(Response { status: Some(status) }) },
                    );
                },
            }
        }
    }
}

/// Namespace for a call to an arbitrary remote service.
#[derive(Debug)]
pub struct RemoteNamespace {
    name: String,
    method: String,
    url: String,
    response_status: Option<u16>,
}

/// The mathematical content of a [`RemoteNamespace`].
pub struct RemoteNamespaceView {
    pub name: Seq<char>,
    pub method: Seq<char>,
    pub url: Seq<char>,
    pub response_status: Option<u16>,
}

impl View for RemoteNamespace {
    type V = RemoteNamespaceView;

    closed spec fn view(&self) -> RemoteNamespaceView {
        RemoteNamespaceView {
            name: self.name@,
            method: self.method@,
            url: self.url@,
            response_status: self.response_status,
        }
    }
}

impl RemoteNamespaceView {
    /// The HTTP block after the request fields have been set where absent;
    /// an absent block, or an absent request, is created.
    pub open spec fn with_request(self, h: Option<HttpView>) -> HttpView {
        let fresh = HttpRequestView { method: Some(self.method), url: Some(self.url) };
        match h {
            Some(h) => HttpView {
                request: Some(
                    match h.request {
                        Some(r) => HttpRequestView {
                            method: first_some(r.method, Some(self.method)),
                            url: first_some(r.url, Some(self.url)),
                        },
                        None => fresh,
                    },
                ),
                ..h
            },
            None => HttpView { request: Some(fresh), response: None },
        }
    }

    /// The record after decoration: namespace `remote`, the request method
    /// and URL, and the response status, each set only where absent.
    pub open spec fn decorate(self, s: SubsegmentView) -> SubsegmentView {
        let h = self.with_request(s.http);
        SubsegmentView {
            namespace: first_some(s.namespace, Some("remote"@)),
            http: Some(
                match self.response_status {
                    Some(status) => http_with_status(Some(h), status),
                    None => h,
                },
            ),
            ..s
        }
    }
}

impl RemoteNamespace {
    /// Creates a namespace for a call to a remote service.
    pub fn new(name: &str, method: &str, url: &str) -> (r: RemoteNamespace)
        ensures
            r@ == (RemoteNamespaceView {
                name: name@,
                method: method@,
                url: url@,
                response_status: None,
            }),
    {
        RemoteNamespace {
            name: name.to_owned(),
            method: method.to_owned(),
            url: url.to_owned(),
            response_status: None,
        }
    }

    /// Sets the response status.
    pub fn response_status(&mut self, status: u16) -> (r: &mut Self)
        ensures
            r@ == (RemoteNamespaceView { response_status: Some(status), ..old(self)@ }),
            *final(self) == *final(r),
    {
        self.response_status = Some(status);
        self
    }
}

impl Namespace for RemoteNamespace {
    open spec fn display_name(&self, prefix: Seq<char>) -> Seq<char> {
        self@.name
    }

    open spec fn decorated(&self, s: SubsegmentView) -> SubsegmentView {
        self@.decorate(s)
    }

    proof fn lemma_decoration_keeps_identity(&self, s: SubsegmentView) {
    }

    fn name(&self, prefix: &str) -> (r: String) {
        self.name.clone()
    }

    fn update_subsegment(&self, subsegment: &mut Subsegment) {
        if subsegment.namespace.is_none() {
            subsegment.namespace = Some(String::from_str("remote"));
        }
        match &mut subsegment.http {
            Some(http) => {
                match &mut http.request {
                    Some(request) => {
                        if request.method.is_none() {
                            request.method = Some(self.method.clone());
                        }
                        if request.url.is_none() {
                            request.url = Some(self.url.clone());
                        }
                    },
                    None => {
                        http.request = Some(
                            HttpRequest { method: Some(self.method.clone()), url: Some(self.url.clone()) },
                        );
                    },
                }
                if let Some(status) = self.response_status {
                    set_status(http, status);
                }
            },
            None => {
                let mut http = Http {
                    request: Some(
                        HttpRequest { method: Some(self.method.clone()), url: Some(self.url.clone()) },
                    ),
                    response: None,
                };
                if let Some(status) = self.response_status {
                    set_status(&mut http, status);
                }
                subsegment.http = Some(http);
            },
        }
    }
}

/// Namespace for a custom record: named after its prefix and its own name,
/// and not decorated.
#[derive(Debug)]
pub struct CustomNamespace {
    name: String,
}

impl View for CustomNamespace {
    type V = Seq<char>;

    closed spec fn view(&self) -> Seq<char> {
        self.name@
    }
}

impl CustomNamespace {
    /// Creates a namespace for a custom record.
    pub fn new(name: &str) -> (r: CustomNamespace)
        ensures
            r@ == name@,
    {
        CustomNamespace { name: name.to_owned() }
    }
}

impl Namespace for CustomNamespace {
    open spec fn display_name(&self, prefix: Seq<char>) -> Seq<char> {
        prefix + self@
    }

    open spec fn decorated(&self, s: SubsegmentView) -> SubsegmentView {
        s
    }

    proof fn lemma_decoration_keeps_identity(&self, s: SubsegmentView) {
    }

    fn name(&self, prefix: &str) -> (r: String) {
        let mut r = String::from_str(prefix);
        r.append(self.name.as_str());
        r
    }

    fn update_subsegment(&self, subsegment: &mut Subsegment) {
    }
}

/// Decorating a fresh record twice with the same cloud operation, with the
/// request id set on the namespace in between, keeps the namespace `aws` and
/// the operation from the first call, and takes the request id from the
/// second: neither call overwrites what the other set.
pub proof fn lemma_aws_decoration_merges(
    namespace: AwsNamespaceView,
    s: SubsegmentView,
    request_id: Seq<char>,
)
    requires
        s.namespace is None,
        s.aws is None,
        namespace.request_id is None,
    ensures
        ({
            let once = namespace.decorate(s);
            let later = AwsNamespaceView { request_id: Some(request_id), ..namespace };
            let twice = later.decorate(once);
            &&& twice.namespace == Some("aws"@)
            &&& twice.aws == Some(
                AwsOperationView {
                    operation: Some(namespace.operation),
                    request_id: Some(request_id),
                },
            )
        }),
{
}

} // verus!
