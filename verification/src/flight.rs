//! Handshake logic of the Flight gRPC surface.
//!
//! The wire transport lives outside; this module holds what the
//! protocol decides: the server echoes a handshake request back
//! unchanged, and the client accepts a handshake only when the
//! payload it sent comes back intact.

use vstd::prelude::*;
use std::sync::Arc;
use crate::text::bytes_eq;

verus! {

/// A handshake message: protocol version and an opaque payload.
#[derive(Clone, Debug)]
pub struct HandshakeRequest {
    pub protocol_version: u64,
    pub payload: Vec<u8>,
}

/// The server's answer to a handshake request.
#[derive(Clone, Debug)]
pub struct HandshakeResponse {
    pub protocol_version: u64,
    pub payload: Vec<u8>,
}

/// Error of the client-side handshake.
#[derive(Clone, Copy, Debug, PartialEq, Eq, Structural)]
pub enum FlightError {
    /// The server sent no response, or a response whose payload does
    /// not match what the client sent.
    HandshakeFailed,
}

/// The server side of the handshake: echo version and payload back
/// unchanged.
pub fn handshake_response(request: HandshakeRequest) -> (r: HandshakeResponse)
    ensures
        r.protocol_version == request.protocol_version,
        r.payload@ == request.payload@,
{
    HandshakeResponse { protocol_version: request.protocol_version, payload: request.payload }
}

/// The client side of the handshake: accept exactly when a response
/// arrived and its payload is the one that was sent. The payload's
/// content is the caller's choice and does not matter here, only
/// that it comes back intact.
pub fn check_handshake(sent: &HandshakeRequest, response: Option<HandshakeResponse>) -> (r: Result<
    (),
    FlightError,
>)
    ensures
        r is Ok <==> (match response {
            Some(resp) => resp.payload@ == sent.payload@,
            None => false,
        }),
        r is Err ==> r->Err_0 == FlightError::HandshakeFailed,
{
    match response {
        Some(resp) => {
            if bytes_eq(sent.payload.as_slice(), resp.payload.as_slice()) {
                Ok(())
            } else {
                Err(FlightError::HandshakeFailed)
            }
        },
        None => Err(FlightError::HandshakeFailed),
    }
}

/// Owner of the gRPC services the ingester exposes: it holds the
/// ingest handler and passes every valid request to it. The wire
/// server that serves it lives outside.
#[derive(Debug)]
pub struct GrpcDelegate<I> {
    pub ingest_handler: Arc<I>,
}

impl<I> GrpcDelegate<I> {
    /// Initialise a delegate passing valid requests to the given
    /// ingest handler.
    pub fn new(ingest_handler: Arc<I>) -> (r: Self)
        ensures
            r.ingest_handler == ingest_handler,
    {
        Self { ingest_handler }
    }
}

} // verus!
