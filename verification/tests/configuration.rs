use quic_ingress::config::{
    admit_identity, install_timers, quic, trust_anchors, ConfigurationError, IdentityMaterial,
};
use quic_ingress::limits::{IDLE_TIMEOUT_MILLIS, KEEP_ALIVE_SECS};

fn certificate_der() -> Vec<u8> {
    vec![
        0x30, 0x82, 0x01, 0x48, 0x30, 0x81, 0xf0, 0xa0, 0x03, 0x02, 0x01, 0x02, 0x02, 0x02, 0x03, 0xe8,
        0x30, 0x0a, 0x06, 0x08, 0x2a, 0x86, 0x48, 0xce, 0x3d, 0x04, 0x03, 0x02, 0x30, 0x17, 0x31, 0x15,
        0x30, 0x13, 0x06, 0x03, 0x55, 0x04, 0x03, 0x0c, 0x0c, 0x69, 0x6e, 0x67, 0x72, 0x65, 0x73, 0x73,
        0x2e, 0x74, 0x65, 0x73, 0x74, 0x30, 0x1e, 0x17, 0x0d, 0x32, 0x34, 0x30, 0x31, 0x30, 0x31, 0x30,
        0x30, 0x30, 0x30, 0x30, 0x30, 0x5a, 0x17, 0x0d, 0x34, 0x34, 0x30, 0x31, 0x30, 0x31, 0x30, 0x30,
        0x30, 0x30, 0x30, 0x30, 0x5a, 0x30, 0x17, 0x31, 0x15, 0x30, 0x13, 0x06, 0x03, 0x55, 0x04, 0x03,
        0x0c, 0x0c, 0x69, 0x6e, 0x67, 0x72, 0x65, 0x73, 0x73, 0x2e, 0x74, 0x65, 0x73, 0x74, 0x30, 0x59,
        0x30, 0x13, 0x06, 0x07, 0x2a, 0x86, 0x48, 0xce, 0x3d, 0x02, 0x01, 0x06, 0x08, 0x2a, 0x86, 0x48,
        0xce, 0x3d, 0x03, 0x01, 0x07, 0x03, 0x42, 0x00, 0x04, 0xb7, 0x57, 0xd5, 0xd9, 0x12, 0x75, 0xcf,
        0x72, 0x27, 0xc4, 0x39, 0x50, 0x6f, 0x5d, 0x76, 0x00, 0xde, 0x1a, 0xc0, 0x2e, 0x20, 0x52, 0x57,
        0x66, 0xa0, 0x78, 0x79, 0xff, 0x30, 0xd3, 0x59, 0xb3, 0x3c, 0xbc, 0xed, 0x42, 0x66, 0x07, 0x5d,
        0xbd, 0x22, 0x8f, 0x54, 0x59, 0xc9, 0x1d, 0x7c, 0xe6, 0x6b, 0xb2, 0x28, 0xfd, 0x83, 0x69, 0x7b,
        0xbf, 0x7e, 0xe0, 0x41, 0x43, 0xc1, 0xfd, 0xdf, 0x16, 0xa3, 0x2c, 0x30, 0x2a, 0x30, 0x17, 0x06,
        0x03, 0x55, 0x1d, 0x11, 0x04, 0x10, 0x30, 0x0e, 0x82, 0x0c, 0x69, 0x6e, 0x67, 0x72, 0x65, 0x73,
        0x73, 0x2e, 0x74, 0x65, 0x73, 0x74, 0x30, 0x0f, 0x06, 0x03, 0x55, 0x1d, 0x13, 0x01, 0x01, 0xff,
        0x04, 0x05, 0x30, 0x03, 0x01, 0x01, 0xff, 0x30, 0x0a, 0x06, 0x08, 0x2a, 0x86, 0x48, 0xce, 0x3d,
        0x04, 0x03, 0x02, 0x03, 0x47, 0x00, 0x30, 0x44, 0x02, 0x20, 0x3d, 0xfb, 0xba, 0x43, 0x17, 0xfd,
        0xf7, 0xdd, 0x89, 0x5f, 0xac, 0x8b, 0x26, 0x48, 0x2e, 0xa7, 0xd8, 0xbc, 0x39, 0x15, 0x94, 0x78,
        0x63, 0xa7, 0xff, 0x62, 0xbb, 0xf5, 0xa0, 0x36, 0x34, 0x33, 0x02, 0x20, 0x08, 0xf9, 0x91, 0xbd,
        0x5d, 0xd6, 0x80, 0x5f, 0x95, 0xde, 0x0a, 0x50, 0x3e, 0x7e, 0x40, 0xd5, 0xe4, 0xa7, 0x68, 0x62,
        0x35, 0xee, 0x18, 0x8a, 0xa9, 0x13, 0x76, 0xc0, 0x32, 0x73, 0x05, 0xef,
    ]
}

fn private_key_der() -> Vec<u8> {
    vec![
        0x30, 0x81, 0x87, 0x02, 0x01, 0x00, 0x30, 0x13, 0x06, 0x07, 0x2a, 0x86, 0x48, 0xce, 0x3d, 0x02,
        0x01, 0x06, 0x08, 0x2a, 0x86, 0x48, 0xce, 0x3d, 0x03, 0x01, 0x07, 0x04, 0x6d, 0x30, 0x6b, 0x02,
        0x01, 0x01, 0x04, 0x20, 0xea, 0x8a, 0x50, 0x21, 0x7c, 0x46, 0xaa, 0x03, 0xcf, 0xd3, 0xa4, 0xde,
        0x35, 0x24, 0xa1, 0x38, 0x0b, 0x6e, 0xe1, 0x58, 0x68, 0xde, 0x44, 0x7e, 0x41, 0x89, 0xf8, 0x51,
        0x69, 0x9e, 0x11, 0x92, 0xa1, 0x44, 0x03, 0x42, 0x00, 0x04, 0xb7, 0x57, 0xd5, 0xd9, 0x12, 0x75,
        0xcf, 0x72, 0x27, 0xc4, 0x39, 0x50, 0x6f, 0x5d, 0x76, 0x00, 0xde, 0x1a, 0xc0, 0x2e, 0x20, 0x52,
        0x57, 0x66, 0xa0, 0x78, 0x79, 0xff, 0x30, 0xd3, 0x59, 0xb3, 0x3c, 0xbc, 0xed, 0x42, 0x66, 0x07,
        0x5d, 0xbd, 0x22, 0x8f, 0x54, 0x59, 0xc9, 0x1d, 0x7c, 0xe6, 0x6b, 0xb2, 0x28, 0xfd, 0x83, 0x69,
        0x7b, 0xbf, 0x7e, 0xe0, 0x41, 0x43, 0xc1, 0xfd, 0xdf, 0x16,
    ]
}

fn identity() -> IdentityMaterial {
    IdentityMaterial { chain: vec![certificate_der()], key: private_key_der() }
}

fn outside_config() -> quinn::ServerConfig {
    quinn::ServerConfig::with_single_cert(
        vec![rustls::Certificate(certificate_der())],
        rustls::PrivateKey(private_key_der()),
    )
    .unwrap()
}

#[test]
fn timers_are_ten_seconds_and_fifteen_thousand_millis() {
    assert_eq!(KEEP_ALIVE_SECS, 10);
    assert_eq!(IDLE_TIMEOUT_MILLIS, 15_000);
}

#[test]
fn valid_identity_is_configured_with_the_timers() {
    let server = quic(&identity()).unwrap();
    let shown = format!("{:?}", server.transport);
    assert!(shown.contains("keep_alive_interval: Some(10s)"), "{}", shown);
    assert!(shown.contains("max_idle_timeout: Some(15000)"), "{}", shown);
}

#[test]
fn outside_default_has_other_timers() {
    let shown = format!("{:?}", outside_config().transport);
    assert!(shown.contains("keep_alive_interval: None"), "{}", shown);
    assert!(shown.contains("max_idle_timeout: Some(10000)"), "{}", shown);
}

#[test]
fn install_timers_replaces_the_transport() {
    let mut server = outside_config();
    install_timers(&mut server);
    let shown = format!("{:?}", server.transport);
    assert!(shown.contains("keep_alive_interval: Some(10s)"), "{}", shown);
    assert!(shown.contains("max_idle_timeout: Some(15000)"), "{}", shown);
}

#[test]
fn key_that_is_no_key_is_an_identity_error() {
    let certs = IdentityMaterial { chain: vec![certificate_der()], key: vec![1, 2, 3] };
    match quic(&certs) {
        Err(ConfigurationError::Identity { cause }) => {
            assert_eq!(cause, rustls::Error::General("invalid private key".to_string()));
        }
        other => panic!("unexpected {:?}", other.map(|_| ())),
    }
}

#[test]
fn certificate_in_place_of_the_key_is_an_identity_error() {
    let certs = IdentityMaterial { chain: vec![certificate_der()], key: certificate_der() };
    assert!(matches!(quic(&certs), Err(ConfigurationError::Identity { .. })));
}

#[test]
fn empty_key_is_an_identity_error() {
    let certs = IdentityMaterial { chain: vec![certificate_der()], key: Vec::new() };
    assert!(matches!(quic(&certs), Err(ConfigurationError::Identity { .. })));
}

#[test]
fn malformed_certificate_is_a_trust_anchor_error() {
    let certs = IdentityMaterial { chain: vec![vec![0x30, 0x00]], key: private_key_der() };
    assert_eq!(quic(&certs).err(), Some(ConfigurationError::TrustAnchor { index: 0 }));
}

#[test]
fn first_malformed_certificate_is_reported() {
    let chain = vec![certificate_der(), vec![9, 9, 9], certificate_der(), vec![7]];
    let certs = IdentityMaterial { chain, key: private_key_der() };
    assert_eq!(quic(&certs).err(), Some(ConfigurationError::TrustAnchor { index: 1 }));
}

#[test]
fn identity_is_judged_before_the_trust_anchors() {
    let certs = IdentityMaterial { chain: vec![vec![9, 9, 9]], key: vec![0] };
    assert!(matches!(quic(&certs), Err(ConfigurationError::Identity { .. })));
}

#[test]
fn empty_chain_with_a_valid_key_is_configured() {
    let certs = IdentityMaterial { chain: Vec::new(), key: private_key_der() };
    assert!(quic(&certs).is_ok());
}

#[test]
fn trust_anchors_counts_the_chain() {
    let chain = vec![certificate_der(), certificate_der(), certificate_der()];
    let store = trust_anchors(&chain).unwrap();
    assert_eq!(store.len(), 3);
}

#[test]
fn trust_anchors_of_no_chain_are_none() {
    let store = trust_anchors(&Vec::new()).unwrap();
    assert_eq!(store.len(), 0);
    assert!(store.is_empty());
}

#[test]
fn trust_anchors_stops_at_the_first_refusal() {
    let chain = vec![certificate_der(), certificate_der(), vec![0xff], vec![0xfe]];
    assert_eq!(trust_anchors(&chain).err(), Some(ConfigurationError::TrustAnchor { index: 2 }));
}

#[test]
fn admit_identity_keeps_the_cause() {
    let cause = rustls::Error::General("no".to_string());
    match admit_identity(Err(cause.clone())) {
        Err(ConfigurationError::Identity { cause: kept }) => assert_eq!(kept, cause),
        other => panic!("unexpected {:?}", other.map(|_| ())),
    }
}

#[test]
fn admit_identity_hands_a_configuration_on() {
    let admitted = admit_identity(Ok(outside_config()));
    assert!(admitted.is_ok());
}
