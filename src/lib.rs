//! A lightweight client for distributed tracing.
//!
//! The library parses and renders the propagated trace header, models the
//! segment records that are reported to a local trace collector, decorates
//! them through namespaces, frames them for the datagram transport, and
//! drives the lifecycle of one traced unit of work. Each module states its
//! contracts over mathematical views, and the laws that relate several
//! operations stand beside them as proof functions.
pub mod classify;
pub mod client;
pub mod context;
pub mod header;
pub mod ids;
pub mod namespace;
pub mod segment;
pub mod session;
pub mod text;

pub use crate::classify::{
    aws_service_code, classify_endpoint, classify_request_parts, classify_s3_parts,
    classify_target, first_with_name, try_parse_aws_url, KnownServices, RequestClassifier,
    S3RequestClassifier,
};
pub use crate::client::{packet, Client, InfallibleClient, IntoInfallibleClient, XRayError};
pub use crate::context::{
    header_from_env_value, Context, InfallibleContext, IntoInfallibleContext, SubsegmentContext,
};
pub use crate::header::{Header, HeaderView, SamplingDecision};
pub use crate::ids::{SegmentId, Seconds, TraceId};
pub use crate::namespace::{
    AwsNamespace, AwsNamespaceView, CustomNamespace, Namespace, RemoteNamespace,
    RemoteNamespaceView,
};
pub use crate::segment::{
    AwsOperation, AwsOperationView, Http, HttpRequest, HttpRequestView, HttpView, Response,
    Subsegment, SubsegmentView,
};
pub use crate::session::SubsegmentSession;
