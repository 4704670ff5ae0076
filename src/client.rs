//! The datagram transport: the client interface and the packet framing.
use vstd::prelude::*;

use crate::segment::Subsegment;

verus! {

/// `std::io::Error`, carried in [`XRayError::IO`].
#[verifier::external_type_specification]
#[verifier::external_body]
pub struct ExIoError(std::io::Error);

/// `serde_json::Error`, carried in [`XRayError::Json`].
#[verifier::external_type_specification]
#[verifier::external_body]
pub struct ExJsonError(serde_json::Error);

/// Errors of building a client or a context, and of sending a record.
#[derive(Debug)]
pub enum XRayError {
    /// A required environment variable is missing.
    MissingEnvVar(&'static str),
    /// The socket failed.
    IO(std::io::Error),
    /// A record could not be encoded.
    Json(serde_json::Error),
    /// A configured value could not be read.
    BadConfig(String),
}

/// The bytes that open every packet, `{"format": "json", "version": 1}`: the
/// format marker that the collector expects before the newline and the
/// encoded record.
pub open spec fn preamble() -> Seq<u8> {
    seq![
        123u8, 34u8, 102u8, 111u8, 114u8, 109u8, 97u8, 116u8,
        34u8, 58u8, 32u8, 34u8, 106u8, 115u8, 111u8, 110u8,
        34u8, 44u8, 32u8, 34u8, 118u8, 101u8, 114u8, 115u8,
        105u8, 111u8, 110u8, 34u8, 58u8, 32u8, 49u8, 125u8,
    ]
}

/// The packet that carries one encoded record: the preamble, a newline (byte
/// 10), then the record.
pub open spec fn framed(payload: Seq<u8>) -> Seq<u8> {
    preamble() + seq![10u8] + payload
}

/// Frames an encoded record as one datagram.
pub fn packet(payload: &[u8]) -> (r: Vec<u8>)
    ensures
        r@ == framed(payload@),
{
    let mut r: Vec<u8> = vec![
        123u8, 34u8, 102u8, 111u8, 114u8, 109u8, 97u8, 116u8,
        34u8, 58u8, 32u8, 34u8, 106u8, 115u8, 111u8, 110u8,
        34u8, 44u8, 32u8, 34u8, 118u8, 101u8, 114u8, 115u8,
        105u8, 111u8, 110u8, 34u8, 58u8, 32u8, 49u8, 125u8,
    ];
    r.push(10u8);
    let ghost head = r@;
    let mut i: usize = 0;
    while i < payload.len()
        invariant
            i <= payload@.len(),
            r@ == head + payload@.subrange(0, i as int),
        decreases payload.len() - i,
    {
        r.push(payload[i]);
        assert(payload@.subrange(0, i + 1) == payload@.subrange(0, i as int).push(payload@[i as int]));
        i = i + 1;
    }
    assert(payload@.subrange(0, i as int) == payload@);
    r
}

/// A transport that delivers records to a trace collector.
///
/// Delivery is best effort: a send either hands the record over at once or
/// fails, and is never retried.
pub trait Client: Clone {
    /// Sends one record to the collector this client is bound to.
    fn send(&self, record: &Subsegment) -> Result<(), XRayError>;
}

/// A client that may be inert: sending through the inert variant does
/// nothing and succeeds.
#[derive(Debug)]
pub enum InfallibleClient<C> {
    /// Operational client.
    Op(C),
    /// Inert client.
    Noop,
}

impl<C> InfallibleClient<C> {
    /// Wraps the result of building a client: a failure gives the inert client.
    pub fn new<E>(result: Result<C, E>) -> (r: Self)
        ensures
            match result {
                Ok(c) => r == InfallibleClient::Op(c),
                Err(_) => r is Noop,
            },
    {
        match result {
            Ok(client) => InfallibleClient::Op(client),
            Err(_) => InfallibleClient::Noop,
        }
    }
}

impl<C: Clone> Clone for InfallibleClient<C> {
    fn clone(&self) -> (r: Self)
        ensures
            self is Noop ==> r is Noop,
            self is Op ==> r is Op,
    {
        match self {
            InfallibleClient::Op(client) => InfallibleClient::Op(client.clone()),
            InfallibleClient::Noop => InfallibleClient::Noop,
        }
    }
}

impl<C: Client> Client for InfallibleClient<C> {
    fn send(&self, record: &Subsegment) -> (r: Result<(), XRayError>)
        ensures
            self is Noop ==> r is Ok,
    {
        match self {
            InfallibleClient::Op(client) => client.send(record),
            InfallibleClient::Noop => Ok(()),
        }
    }
}

/// Conversion of the result of building a client into an [`InfallibleClient`],
/// which falls back to the inert client on failure.
pub trait IntoInfallibleClient {
    /// Client type.
    type Client: Client;

    /// Converts into an infallible client.
    fn into_infallible(self) -> InfallibleClient<Self::Client>;
}

impl<C: Client> IntoInfallibleClient for Result<C, XRayError> {
    type Client = C;

    fn into_infallible(self) -> (r: InfallibleClient<C>)
        ensures
            self is Err ==> r is Noop,
            self is Ok ==> r == InfallibleClient::Op(self->Ok_0),
    {
        InfallibleClient::new(self)
    }
}

} // verus!
