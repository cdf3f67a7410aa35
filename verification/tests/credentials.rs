use billly::crypto::CryptoService;

#[test]
fn stored_credential_round_trips() {
    let stored = CryptoService::encrypt_api_key("SECRET-REDACTED").expect("encryption succeeds");
    assert!(
        stored == "keychain:billly:openai_api_key" || stored.starts_with("enc:"),
        "unexpected stored form: {}",
        stored
    );
    let recovered = CryptoService::decrypt_api_key(&stored).expect("decryption succeeds");
    assert_eq!(recovered, "SECRET-REDACTED".to_string());
}

#[test]
fn unknown_format_is_rejected() {
    let e = CryptoService::decrypt_api_key("plaintext-key").unwrap_err();
    assert_eq!(e, "Unknown encrypted format".to_string());
}

#[test]
fn foreign_keychain_reference_is_rejected() {
    let e = CryptoService::decrypt_api_key("keychain:other:entry").unwrap_err();
    assert_eq!(e, "Invalid keychain reference".to_string());
}

#[test]
fn malformed_symmetric_payload_is_rejected() {
    assert!(CryptoService::decrypt_api_key("enc:only-two").is_err());
    assert!(CryptoService::decrypt_api_key("enc:a:b:c:d").is_err());
    assert!(CryptoService::decrypt_api_key("enc:!!!:AAAA:AAAA").is_err());
}

#[test]
fn tampered_payload_fails_authentication() {
    let stored = CryptoService::encrypt_api_key("SECRET-REDACTED").expect("encryption succeeds");
    if stored.starts_with("enc:") {
        let mut tampered = stored.clone();
        let flip = tampered.pop().map(|c| if c == 'A' { 'B' } else { 'A' }).unwrap();
        tampered.push(flip);
        assert!(CryptoService::decrypt_api_key(&tampered).is_err());
    }
}
