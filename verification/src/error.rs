//! The failures that the proxy reports.

use crate::net::{IpAddress, SocketAddress};
use vstd::prelude::*;

verus! {

/// The error of the operating system's I/O layer. The library never looks
/// inside one: it hands each on to whoever is owed the failure.
#[verifier::external_type_specification]
#[verifier::external_body]
pub struct ExIoError(std::io::Error);

/// A failure of the proxy. The handshake and protocol variants carry the
/// description that the failing layer gave.
#[derive(Debug)]
pub enum Error {
    /// A listener could not be bound to the address. Fatal at startup.
    Bind(SocketAddress, std::io::Error),
    /// A socket or stream operation failed.
    Io(std::io::Error),
    /// The TLS handshake with a peer failed.
    TlsHandshake(String),
    /// The tunnel upgrade was refused or broke off.
    HttpHandshake(String),
    /// The HTTP transport failed.
    Http(String),
    /// The peer answered the tunnel request with this status.
    HttpStatus(u16),
    /// TLS material was unusable.
    Tls(String),
    /// The TLS library failed.
    Ssl(String),
    /// No identity could be had for the workload.
    Identity(String),
    /// No workload is known for the source address.
    UnknownSource(IpAddress),
    /// No workload is known for the destination address.
    UnknownDestination(IpAddress),
}

} // verus!
