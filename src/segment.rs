//! The segment record reported to the trace collector.
use vstd::prelude::*;

use crate::ids::{Seconds, SegmentId, TraceId};

verus! {

/// The view of an optional string.
pub open spec fn opt_str_view(o: Option<String>) -> Option<Seq<char>> {
    match o {
        Some(s) => Some(s@),
        None => None,
    }
}

/// A copy of an optional string.
pub fn clone_opt_str(o: &Option<String>) -> (r: Option<String>)
    ensures
        opt_str_view(r) == opt_str_view(*o),
{
    match o {
        Some(s) => Some(s.clone()),
        None => None,
    }
}

/// The cloud-operation block of a record.
#[derive(Debug)]
pub struct AwsOperation {
    /// Name of the operation.
    pub operation: Option<String>,
    /// Identifier of the request, as the service reported it.
    pub request_id: Option<String>,
}

/// The mathematical content of an [`AwsOperation`].
pub struct AwsOperationView {
    pub operation: Option<Seq<char>>,
    pub request_id: Option<Seq<char>>,
}

impl View for AwsOperation {
    type V = AwsOperationView;

    open spec fn view(&self) -> AwsOperationView {
        AwsOperationView {
            operation: opt_str_view(self.operation),
            request_id: opt_str_view(self.request_id),
        }
    }
}

/// The request part of the remote-HTTP block.
#[derive(Debug)]
pub struct HttpRequest {
    /// HTTP method.
    pub method: Option<String>,
    /// Requested URL.
    pub url: Option<String>,
}

/// The mathematical content of a [`HttpRequest`].
pub struct HttpRequestView {
    pub method: Option<Seq<char>>,
    pub url: Option<Seq<char>>,
}

impl View for HttpRequest {
    type V = HttpRequestView;

    open spec fn view(&self) -> HttpRequestView {
        HttpRequestView { method: opt_str_view(self.method), url: opt_str_view(self.url) }
    }
}

/// The response part of the remote-HTTP block.
#[derive(Clone, Copy, Debug, PartialEq, Eq, Structural)]
pub struct Response {
    /// HTTP status code.
    pub status: Option<u16>,
}

/// The remote-HTTP block of a record.
#[derive(Debug)]
pub struct Http {
    /// What was requested.
    pub request: Option<HttpRequest>,
    /// What came back.
    pub response: Option<Response>,
}

/// The mathematical content of an [`Http`] block.
pub struct HttpView {
    pub request: Option<HttpRequestView>,
    pub response: Option<Response>,
}

impl View for Http {
    type V = HttpView;

    open spec fn view(&self) -> HttpView {
        HttpView {
            request: match self.request {
                Some(r) => Some(r@),
                None => None,
            },
            response: self.response,
        }
    }
}

/// A segment record: one traced unit of work nested under a trace.
#[derive(Debug)]
pub struct Subsegment {
    /// Identifier of this record.
    pub id: SegmentId,
    /// Display name.
    pub name: String,
    /// When the work began.
    pub start_time: Seconds,
    /// When the work ended, once it has.
    pub end_time: Option<Seconds>,
    /// Whether the work is still going on.
    pub in_progress: bool,
    /// The trace this record belongs to.
    pub trace_id: TraceId,
    /// The segment this record is nested under.
    pub parent_id: Option<SegmentId>,
    /// Namespace of the record: `aws`, `remote`, or none.
    pub namespace: Option<String>,
    /// Cloud-operation block.
    pub aws: Option<AwsOperation>,
    /// Remote-HTTP block.
    pub http: Option<Http>,
}

/// The mathematical content of a [`Subsegment`].
pub struct SubsegmentView {
    pub id: Option<Seq<char>>,
    pub name: Seq<char>,
    pub start_time: Seconds,
    pub end_time: Option<Seconds>,
    pub in_progress: bool,
    pub trace_id: Option<Seq<char>>,
    pub parent_id: Option<Option<Seq<char>>>,
    pub namespace: Option<Seq<char>>,
    pub aws: Option<AwsOperationView>,
    pub http: Option<HttpView>,
}

impl View for Subsegment {
    type V = SubsegmentView;

    open spec fn view(&self) -> SubsegmentView {
        SubsegmentView {
            id: self.id@,
            name: self.name@,
            start_time: self.start_time,
            end_time: self.end_time,
            in_progress: self.in_progress,
            trace_id: self.trace_id@,
            parent_id: match self.parent_id {
                Some(p) => Some(p@),
                None => None,
            },
            namespace: opt_str_view(self.namespace),
            aws: match self.aws {
                Some(a) => Some(a@),
                None => None,
            },
            http: match self.http {
                Some(h) => Some(h@),
                None => None,
            },
        }
    }
}

impl SubsegmentView {
    /// Exactly one of "an end time is set" and "still in progress" holds.
    pub open spec fn is_consistent(self) -> bool {
        self.in_progress <==> self.end_time is None
    }

    /// The record as it stands when the work begins.
    pub open spec fn begun(
        trace_id: Option<Seq<char>>,
        parent_id: Option<Option<Seq<char>>>,
        name: Seq<char>,
        id: Option<Seq<char>>,
        start_time: Seconds,
    ) -> SubsegmentView {
        SubsegmentView {
            id,
            name,
            start_time,
            end_time: None,
            in_progress: true,
            trace_id,
            parent_id,
            namespace: None,
            aws: None,
            http: None,
        }
    }

    /// The record once the work has ended at `end_time`.
    pub open spec fn ended(self, end_time: Seconds) -> SubsegmentView {
        SubsegmentView { end_time: Some(end_time), in_progress: false, ..self }
    }
}

impl Subsegment {
    /// Begins a record of work that starts at `start_time` and has the
    /// freshly drawn identifier `id`.
    pub fn begin(
        trace_id: TraceId,
        parent_id: Option<SegmentId>,
        name: String,
        id: SegmentId,
        start_time: Seconds,
    ) -> (r: Subsegment)
        ensures
            r@ == SubsegmentView::begun(
                trace_id@,
                match parent_id {
                    Some(p) => Some(p@),
                    None => None,
                },
                name@,
                id@,
                start_time,
            ),
            r@.is_consistent(),
    {
        Subsegment {
            id,
            name,
            start_time,
            end_time: None,
            in_progress: true,
            trace_id,
            parent_id,
            namespace: None,
            aws: None,
            http: None,
        }
    }

    /// Ends the record at `end_time`.
    pub fn end(&mut self, end_time: Seconds)
        ensures
            final(self)@ == old(self)@.ended(end_time),
            final(self)@.is_consistent(),
    {
        self.end_time = Some(end_time);
        self.in_progress = false;
    }
}

impl Default for Subsegment {
    /// A record with nothing set, begun at the epoch and still in progress.
    fn default() -> (r: Self)
        ensures
            r@ == (SubsegmentView {
                id: None,
                name: Seq::empty(),
                start_time: Seconds { micros: 0 },
                end_time: None,
                in_progress: true,
                trace_id: None,
                parent_id: None,
                namespace: None,
                aws: None,
                http: None,
            }),
            r@.is_consistent(),
    {
        Subsegment {
            id: SegmentId::Unset,
            name: String::new(),
            start_time: Seconds { micros: 0 },
            end_time: None,
            in_progress: true,
            trace_id: TraceId::Unset,
            parent_id: None,
            namespace: None,
            aws: None,
            http: None,
        }
    }
}

} // verus!
