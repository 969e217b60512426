//! The calls into `quinn` and `rustls` on which the endpoint configuration rests.
//!
//! Nothing in this file is proved. Each item says what it takes for granted of
//! the code that it calls.

use vstd::prelude::*;

verus! {

/// `quinn::TransportConfig`, carried by value and never looked into.
#[verifier::external_type_specification]
#[verifier::external_body]
pub struct ExTransportConfig(quinn::TransportConfig);

/// `quinn::ServerConfig`, carried by value and never looked into.
#[verifier::external_type_specification]
#[verifier::external_body]
pub struct ExServerConfig(quinn::ServerConfig);

/// `rustls::Error`, carried by value and never looked into.
#[verifier::external_type_specification]
#[verifier::external_body]
pub struct ExTlsError(rustls::Error);

/// `rustls::RootCertStore`, carried by value and never looked into.
#[verifier::external_type_specification]
#[verifier::external_body]
pub struct ExRootCertStore(rustls::RootCertStore);

/// Whether `quinn::ServerConfig::with_single_cert` accepts this certificate
/// chain and private key, both DER encoded.
pub uninterp spec fn identity_accepted(chain: Seq<Seq<u8>>, key: Seq<u8>) -> bool;

/// Whether `rustls::RootCertStore::add` accepts this DER-encoded certificate
/// as a trust anchor.
pub uninterp spec fn anchor_accepted(der: Seq<u8>) -> bool;

/// The keep-alive interval that a transport configuration holds, in seconds.
pub uninterp spec fn keep_alive_secs(transport: quinn::TransportConfig) -> Option<nat>;

/// The idle timeout that a transport configuration holds, in milliseconds.
pub uninterp spec fn idle_timeout_millis(transport: quinn::TransportConfig) -> Option<nat>;

/// The transport configuration that a server configuration holds.
pub uninterp spec fn installed_transport(server: quinn::ServerConfig) -> quinn::TransportConfig;

/// The number of trust anchors in a root certificate store.
pub uninterp spec fn anchor_count(store: rustls::RootCertStore) -> nat;

/// The byte sequences of a chain of encoded certificates.
pub open spec fn chain_view(chain: Seq<Vec<u8>>) -> Seq<Seq<u8>> {
    Seq::new(chain.len(), |i: int| chain[i]@)
}

/// Calls `quinn::ServerConfig::with_single_cert` on copies of the chain and
/// the key. Taken for granted: whether the call succeeds depends on the
/// encoded bytes alone.
#[verifier::external_body]
pub(crate) fn single_cert_config(chain: &Vec<Vec<u8>>, key: &Vec<u8>) -> (made: Result<
    quinn::ServerConfig,
    rustls::Error,
>)
    ensures
        made.is_ok() == identity_accepted(chain_view(chain@), key@),
{
    let certificates = chain.iter().map(|der| rustls::Certificate(der.clone())).collect();
    quinn::ServerConfig::with_single_cert(certificates, rustls::PrivateKey(key.clone()))
}

/// Calls `quinn::TransportConfig::default`. Taken for granted: the default
/// sends no keep-alive packets and times out after 10000 idle milliseconds.
#[verifier::external_body]
pub(crate) fn default_transport() -> (transport: quinn::TransportConfig)
    ensures
        keep_alive_secs(transport) == None::<nat>,
        idle_timeout_millis(transport) == Some(10_000nat),
{
    quinn::TransportConfig::default()
}

/// Calls `quinn::TransportConfig::keep_alive_interval` with an interval of
/// `secs` seconds. Taken for granted: the call replaces the keep-alive
/// interval and leaves the idle timeout alone.
#[verifier::external_body]
pub(crate) fn set_keep_alive(transport: &mut quinn::TransportConfig, secs: u64)
    ensures
        keep_alive_secs(*final(transport)) == Some(secs as nat),
        idle_timeout_millis(*final(transport)) == idle_timeout_millis(*old(transport)),
{
    transport.keep_alive_interval(Some(std::time::Duration::from_secs(secs)));
}

/// Calls `quinn::TransportConfig::max_idle_timeout` with a timeout of
/// `millis` milliseconds. Taken for granted: the call replaces the idle
/// timeout and leaves the keep-alive interval alone.
#[verifier::external_body]
pub(crate) fn set_idle_timeout(transport: &mut quinn::TransportConfig, millis: u32)
    ensures
        idle_timeout_millis(*final(transport)) == Some(millis as nat),
        keep_alive_secs(*final(transport)) == keep_alive_secs(*old(transport)),
{
    transport.max_idle_timeout(Some(quinn::IdleTimeout::from(quinn::VarInt::from_u32(millis))));
}

/// Stores `transport` in the public field `transport` of a
/// `quinn::ServerConfig`. Taken for granted: the server configuration then
/// holds that transport configuration.
#[verifier::external_body]
pub(crate) fn install_transport(server: &mut quinn::ServerConfig, transport: quinn::TransportConfig)
    ensures
        installed_transport(*final(server)) == transport,
{
    server.transport = std::sync::Arc::new(transport);
}

/// Calls `rustls::RootCertStore::empty`. Taken for granted: the new store
/// holds no trust anchor.
#[verifier::external_body]
pub(crate) fn empty_roots() -> (store: rustls::RootCertStore)
    ensures
        anchor_count(store) == 0,
{
    rustls::RootCertStore::empty()
}

/// Calls `rustls::RootCertStore::add` on a copy of `der`. Taken for granted:
/// whether the certificate is accepted depends on its bytes alone; an
/// accepted one adds one trust anchor, a refused one leaves the store as it
/// was.
#[verifier::external_body]
pub(crate) fn add_root(store: &mut rustls::RootCertStore, der: &Vec<u8>) -> (added: bool)
    ensures
        added == anchor_accepted(der@),
        anchor_count(*final(store)) == anchor_count(*old(store)) + (if added { 1nat } else { 0nat }),
{
    store.add(&rustls::Certificate(der.clone())).is_ok()
}

} // verus!
