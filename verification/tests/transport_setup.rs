use morselink_core::transport::{client_config, generate_self_signed, server_config, transport_settings};

#[test]
fn settings_of_every_endpoint() {
    let s = transport_settings();
    assert_eq!(s.max_concurrent_bidi_streams, 32);
    assert_eq!(s.max_concurrent_uni_streams, 0);
    assert_eq!(s.keep_alive_secs, 5);
}

#[test]
fn self_signed_certificate_builds_server_and_pinned_client() {
    let (cert, key) = generate_self_signed("morselink.local").unwrap();
    assert!(!cert.is_empty() && !key.is_empty());
    let (cert2, key2) = generate_self_signed("morselink.local").unwrap();
    assert_ne!(cert, cert2, "certificates are ephemeral");
    assert_ne!(key, key2, "keys are ephemeral");
    assert!(client_config(cert.clone()).is_ok());
    assert!(server_config(cert, key).is_ok());
}

#[test]
fn garbage_certificate_is_refused_when_pinned() {
    let bogus = vec![1u8, 2, 3];
    match client_config(bogus) {
        Err(morselink_core::error::EngineError::Transport(m)) => assert!(m.starts_with("pin cert: "), "{m}"),
        Err(other) => panic!("unexpected error {other:?}"),
        Ok(_) => panic!("a malformed certificate must not be trusted"),
    }
}

#[test]
fn server_refuses_a_key_that_is_not_the_certificates() {
    let (cert, _) = generate_self_signed("a.test").unwrap();
    let (_, other_key) = generate_self_signed("a.test").unwrap();
    for key in [other_key, vec![0u8; 8]] {
        match server_config(cert.clone(), key) {
            Err(morselink_core::error::EngineError::Transport(m)) => {
                assert!(m.starts_with("rustls server config: "), "{m}")
            }
            Err(other) => panic!("unexpected error {other:?}"),
            Ok(_) => panic!("a foreign key must not be accepted"),
        }
    }
}
