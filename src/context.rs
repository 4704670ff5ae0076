//! Tracing contexts: where sessions are entered.
use vstd::prelude::*;

use crate::client::{Client, XRayError};
use crate::header::{parse_header, Header, HeaderView};
use crate::ids::{SegmentId, Seconds};
use crate::namespace::Namespace;
use crate::session::SubsegmentSession;

verus! {

/// The message of the configuration error for a trace header value that does
/// not parse.
pub open spec fn bad_header_message(e: Seq<char>) -> Seq<char> {
    "invalid X-Ray trace ID header value: "@ + e
}

/// Reads the trace header of the current invocation from the value of the
/// environment variable `_X_AMZN_TRACE_ID` (`None` when it is not set).
pub fn header_from_env_value(value: Option<&str>) -> (r: Result<Header, XRayError>)
    ensures
        match value {
            None => r matches Err(XRayError::MissingEnvVar(name)) && name@ == "_X_AMZN_TRACE_ID"@,
            Some(v) => match parse_header(v@) {
                Ok(h) => r matches Ok(x) && x@ == h,
                Err(e) => r matches Err(XRayError::BadConfig(m)) && m@ == bad_header_message(e),
            },
        },
{
    match value {
        None => Err(XRayError::MissingEnvVar("_X_AMZN_TRACE_ID")),
        Some(v) => match Header::parse(v) {
            Ok(h) => Ok(h),
            Err(e) => {
                let mut m = String::from_str("invalid X-Ray trace ID header value: ");
                m.append(e.as_str());
                Err(XRayError::BadConfig(m))
            },
        },
    }
}

/// A place from which sessions are entered.
pub trait Context {
    /// Client type.
    type Client: Client;

    /// The header and the name prefix under which sessions are entered, or
    /// nothing for an inert context.
    spec fn trace_context(&self) -> Option<(HeaderView, Seq<char>)>;

    /// Enters a new session for `namespace`, whose record gets the freshly
    /// drawn identifier `id` and starts at `start_time`.
    fn enter_subsegment<T: Namespace>(&self, namespace: T, id: SegmentId, start_time: Seconds) -> (r:
        SubsegmentSession<Self::Client, T>)
        ensures
            match self.trace_context() {
                Some((h, prefix)) => r.entered_from(h, namespace, prefix, id@, start_time),
                None => r is Failed,
            },
    ;
}

/// A context that nests sessions under an existing segment.
#[derive(Debug)]
pub struct SubsegmentContext<C> {
    client: C,
    header: Header,
    name_prefix: String,
}

impl<C> SubsegmentContext<C> {
    /// The header under which sessions are entered.
    pub closed spec fn header_view(&self) -> HeaderView {
        self.header@
    }

    /// The prefix of the names of custom records.
    pub closed spec fn prefix_view(&self) -> Seq<char> {
        self.name_prefix@
    }

    /// Creates a context under `header`, with an empty name prefix.
    pub fn new(client: C, header: Header) -> (r: Self)
        ensures
            r.header_view() == header@,
            r.prefix_view() == Seq::<char>::empty(),
    {
        SubsegmentContext { client, header, name_prefix: String::new() }
    }

    /// Creates a context from the value of `_X_AMZN_TRACE_ID` (`None` when it
    /// is not set).
    pub fn from_env_value(client: C, value: Option<&str>) -> (r: Result<Self, XRayError>)
        ensures
            match value {
                None => r matches Err(XRayError::MissingEnvVar(name)) && name@ == "_X_AMZN_TRACE_ID"@,
                Some(v) => match parse_header(v@) {
                    Ok(h) => r matches Ok(x) && x.header_view() == h && x.prefix_view()
                        == Seq::<char>::empty(),
                    Err(e) => r matches Err(XRayError::BadConfig(m)) && m@ == bad_header_message(e),
                },
            },
    {
        match header_from_env_value(value) {
            Ok(header) => Ok(Self::new(client, header)),
            Err(e) => Err(e),
        }
    }

    /// Sets the prefix of the names of custom records.
    pub fn with_name_prefix(self, prefix: &str) -> (r: Self)
        ensures
            r.header_view() == self.header_view(),
            r.prefix_view() == prefix@,
    {
        SubsegmentContext { client: self.client, header: self.header, name_prefix: prefix.to_owned() }
    }
}

impl<C: Clone> Clone for SubsegmentContext<C> {
    fn clone(&self) -> (r: Self)
        ensures
            r.header_view() == self.header_view(),
            r.prefix_view() == self.prefix_view(),
    {
        SubsegmentContext {
            client: self.client.clone(),
            header: self.header.clone(),
            name_prefix: self.name_prefix.clone(),
        }
    }
}

impl<C: Client> Context for SubsegmentContext<C> {
    type Client = C;

    open spec fn trace_context(&self) -> Option<(HeaderView, Seq<char>)> {
        Some((self.header_view(), self.prefix_view()))
    }

    fn enter_subsegment<T: Namespace>(&self, namespace: T, id: SegmentId, start_time: Seconds) -> (r:
        SubsegmentSession<C, T>) {
        let r = SubsegmentSession::new(
            self.client.clone(),
            &self.header,
            namespace,
            self.name_prefix.as_str(),
            id,
            start_time,
        );
        r
    }
}

/// A context that may be inert: an inert context enters only failed
/// sessions, which do nothing.
#[derive(Debug)]
pub enum InfallibleContext<T> {
    /// Operational context.
    Op(T),
    /// Inert context.
    Noop,
}

impl<T: Context> InfallibleContext<T> {
    /// Wraps the result of building a context: a failure gives the inert context.
    pub fn new<E>(result: Result<T, E>) -> (r: Self)
        ensures
            match result {
                Ok(c) => r == InfallibleContext::Op(c),
                Err(_) => r is Noop,
            },
    {
        match result {
            Ok(context) => InfallibleContext::Op(context),
            Err(_) => InfallibleContext::Noop,
        }
    }
}

impl<T: Context> InfallibleContext<T> {
    /// The header and the name prefix of the operational context; nothing
    /// for the inert one.
    pub open spec fn trace_context(&self) -> Option<(HeaderView, Seq<char>)> {
        match self {
            InfallibleContext::Op(c) => c.trace_context(),
            InfallibleContext::Noop => None,
        }
    }

    /// Enters a new session through the operational context; the inert
    /// context gives a failed session.
    pub fn enter_subsegment<U: Namespace>(&self, namespace: U, id: SegmentId, start_time: Seconds) -> (r:
        SubsegmentSession<T::Client, U>)
        ensures
            match self.trace_context() {
                Some((h, prefix)) => r.entered_from(h, namespace, prefix, id@, start_time),
                None => r is Failed,
            },
    {
        match self {
            InfallibleContext::Op(context) => context.enter_subsegment(namespace, id, start_time),
            InfallibleContext::Noop => SubsegmentSession::failed(),
        }
    }
}

impl<T: Clone> Clone for InfallibleContext<T> {
    fn clone(&self) -> (r: Self)
        ensures
            self is Noop ==> r is Noop,
            self is Op ==> r is Op,
    {
        match self {
            InfallibleContext::Op(context) => InfallibleContext::Op(context.clone()),
            InfallibleContext::Noop => InfallibleContext::Noop,
        }
    }
}

/// Conversion of the result of building a context into an
/// [`InfallibleContext`], which falls back to the inert context on failure.
pub trait IntoInfallibleContext {
    /// Underlying context type.
    type Context: Context;

    /// Converts into an infallible context.
    fn into_infallible(self) -> InfallibleContext<Self::Context>;
}

impl<T: Context, E> IntoInfallibleContext for Result<T, E> {
    type Context = T;

    fn into_infallible(self) -> (r: InfallibleContext<T>)
        ensures
            self is Err ==> r is Noop,
            self is Ok ==> r == InfallibleContext::Op(self->Ok_0),
    {
        InfallibleContext::new(self)
    }
}

} // verus!
