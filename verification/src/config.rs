//! The endpoint configurator: from identity material to the server
//! configuration of a listening endpoint.

use vstd::prelude::*;

use crate::limits::{IDLE_TIMEOUT_MILLIS, KEEP_ALIVE_SECS};
use crate::transport::{
    add_root, anchor_accepted, anchor_count, chain_view, default_transport, empty_roots,
    identity_accepted, idle_timeout_millis, install_transport, installed_transport,
    keep_alive_secs, set_idle_timeout, set_keep_alive, single_cert_config,
};

verus! {

/// The identity that the endpoint presents in the encrypted handshake: a
/// chain of DER-encoded certificates and the DER-encoded private key that
/// belongs to it.
#[derive(Debug)]
pub struct IdentityMaterial {
    pub chain: Vec<Vec<u8>>,
    pub key: Vec<u8>,
}

impl IdentityMaterial {
    /// The certificates of the chain, each as its bytes.
    pub open spec fn chain_bytes(&self) -> Seq<Seq<u8>> {
        chain_view(self.chain@)
    }

    /// The private key as its bytes.
    pub open spec fn key_bytes(&self) -> Seq<u8> {
        self.key@
    }
}

/// Why identity material was refused. Either is fatal to the start of the
/// server.
#[derive(Debug, PartialEq)]
pub enum ConfigurationError {
    /// The transport refused the chain together with the private key.
    Identity { cause: rustls::Error },
    /// The certificate at `index` of the chain cannot serve as a trust anchor.
    TrustAnchor { index: usize },
}

/// Whether every certificate of `chain` is accepted as a trust anchor.
pub open spec fn all_anchors_accepted(chain: Seq<Seq<u8>>) -> bool {
    forall|i: int| 0 <= i < chain.len() ==> anchor_accepted(#[trigger] chain[i])
}

/// Whether `index` is the place of the first certificate of `chain` that is
/// refused as a trust anchor.
pub open spec fn first_refused_anchor(chain: Seq<Seq<u8>>, index: int) -> bool {
    &&& 0 <= index < chain.len()
    &&& !anchor_accepted(chain[index])
    &&& all_anchors_accepted(chain.take(index))
}

/// Whether `server` carries the timers of this endpoint: a keep-alive packet
/// every `KEEP_ALIVE_SECS` seconds, and a close after `IDLE_TIMEOUT_MILLIS`
/// milliseconds without activity.
pub open spec fn carries_timers(server: quinn::ServerConfig) -> bool {
    &&& keep_alive_secs(installed_transport(server)) == Some(KEEP_ALIVE_SECS as nat)
    &&& idle_timeout_millis(installed_transport(server)) == Some(IDLE_TIMEOUT_MILLIS as nat)
}

/// Turns the transport's answer on the identity into the configurator's own:
/// a configuration is handed on as it is, a refusal becomes
/// `ConfigurationError::Identity` with the transport's error as its cause.
pub fn admit_identity(made: Result<quinn::ServerConfig, rustls::Error>) -> (admitted: Result<
    quinn::ServerConfig,
    ConfigurationError,
>)
    ensures
        match made {
            Ok(server) => admitted == Ok::<quinn::ServerConfig, ConfigurationError>(server),
            Err(cause) => admitted == Err::<quinn::ServerConfig, ConfigurationError>(
                ConfigurationError::Identity { cause },
            ),
        },
{
    match made {
        Ok(server) => Ok(server),
        Err(cause) => Err(ConfigurationError::Identity { cause }),
    }
}

/// Gives `server` a fresh transport configuration with the timers of this
/// endpoint.
pub fn install_timers(server: &mut quinn::ServerConfig)
    ensures
        carries_timers(*final(server)),
{
    let mut transport = default_transport();
    set_keep_alive(&mut transport, KEEP_ALIVE_SECS);
    set_idle_timeout(&mut transport, IDLE_TIMEOUT_MILLIS);
    install_transport(server, transport);
}

/// Collects the certificates of `chain` as trust anchors, in order, and stops
/// at the first that is refused.
pub fn trust_anchors(chain: &Vec<Vec<u8>>) -> (collected: Result<
    rustls::RootCertStore,
    ConfigurationError,
>)
    ensures
        match collected {
            Ok(store) => {
                &&& all_anchors_accepted(chain_view(chain@))
                &&& anchor_count(store) == chain.len()
            },
            Err(ConfigurationError::TrustAnchor { index }) => first_refused_anchor(
                chain_view(chain@),
                index as int,
            ),
            Err(ConfigurationError::Identity { .. }) => false,
        },
{
    let mut store = empty_roots();
    let mut index: usize = 0;
    while index < chain.len()
        invariant
            index <= chain.len(),
            anchor_count(store) == index,
            all_anchors_accepted(chain_view(chain@).take(index as int)),
        decreases chain.len() - index,
    {
        let added = add_root(&mut store, &chain[index]);
        if !added {
            return Err(ConfigurationError::TrustAnchor { index });
        }
        proof {
            let bytes = chain_view(chain@);
            assert forall|i: int| 0 <= i < index + 1 implies anchor_accepted(
                #[trigger] bytes.take(index + 1)[i],
            ) by {
                if i < index {
                    assert(bytes.take(index + 1)[i] == bytes.take(index as int)[i]);
                }
            }
        }
        index += 1;
    }
    proof {
        let bytes = chain_view(chain@);
        assert(bytes.take(index as int) =~= bytes);
    }
    Ok(store)
}

/// Whether identity material with these bytes yields a configuration: the
/// transport accepts the chain with the key, and every certificate of the
/// chain is accepted as a trust anchor.
pub open spec fn configures(chain: Seq<Seq<u8>>, key: Seq<u8>) -> bool {
    identity_accepted(chain, key) && all_anchors_accepted(chain)
}

/// Builds the server configuration of the endpoint from its identity.
///
/// The transport is asked first for a configuration that presents the chain
/// with the key; that configuration then gets the timers of this endpoint;
/// last, every certificate of the chain must be usable as a trust anchor.
/// Nothing is bound: the configuration is what a listener is later bound
/// with, and without one there is nothing to bind.
pub fn quic(certs: &IdentityMaterial) -> (configured: Result<
    quinn::ServerConfig,
    ConfigurationError,
>)
    ensures
        configured.is_ok() == configures(certs.chain_bytes(), certs.key_bytes()),
        match configured {
            Ok(server) => carries_timers(server),
            Err(ConfigurationError::Identity { .. }) => !identity_accepted(
                certs.chain_bytes(),
                certs.key_bytes(),
            ),
            Err(ConfigurationError::TrustAnchor { index }) => identity_accepted(
                certs.chain_bytes(),
                certs.key_bytes(),
            ) && first_refused_anchor(certs.chain_bytes(), index as int),
        },
{
    let made = single_cert_config(&certs.chain, &certs.key);
    let mut server = match admit_identity(made) {
        Ok(server) => server,
        Err(error) => {
            return Err(error);
        },
    };
    install_timers(&mut server);
    match trust_anchors(&certs.chain) {
        Ok(_) => Ok(server),
        Err(error) => {
            proof {
                lemma_refusal_excludes_acceptance(certs.chain_bytes());
            }
            Err(error)
        },
    }
}

/// A chain with a refused certificate is not accepted as a whole.
pub proof fn lemma_refusal_excludes_acceptance(chain: Seq<Seq<u8>>)
    ensures
        forall|index: int| first_refused_anchor(chain, index) ==> !all_anchors_accepted(chain),
{
}

} // verus!
