use billly::fingerprint::{fingerprint_bytes, Fingerprinter};

#[test]
fn empty_content_has_the_known_digest() {
    assert_eq!(
        fingerprint_bytes(b""),
        "e3b0c44298fc1c149afbf4c8996fb92427ae41e4649b934ca495991b7852b855".to_string()
    );
}

#[test]
fn abc_has_the_known_digest() {
    assert_eq!(
        fingerprint_bytes(b"abc"),
        "ba7816bf8f01cfea414140de5dae2223b00361a396177a9cb410ff61f20015ad".to_string()
    );
}

#[test]
fn chunked_hashing_matches_one_shot() {
    let data = b"The quick brown fox jumps over the lazy dog";
    let mut fp = Fingerprinter::new();
    for chunk in data.chunks(7) {
        fp.update(chunk);
    }
    assert_eq!(fp.finish(), fingerprint_bytes(data));
}

#[test]
fn different_content_gives_different_fingerprints() {
    assert_ne!(fingerprint_bytes(b"invoice v1"), fingerprint_bytes(b"invoice v2"));
}

#[test]
fn fingerprints_are_lowercase_hex_of_length_64() {
    let fp = fingerprint_bytes(b"anything");
    assert_eq!(fp.len(), 64);
    assert!(fp.chars().all(|c| c.is_ascii_hexdigit() && !c.is_ascii_uppercase()));
}
