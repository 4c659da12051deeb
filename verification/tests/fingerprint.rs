use tokenguard::updater::digest_matches;
use tokenguard::license::{cli_device_fingerprint, device_fingerprint, sha256_hex};

#[test]
fn device_fingerprint_is_a_stable_sha256_hex() {
    let a = device_fingerprint("build-host", "alice", "linux");
    let b = device_fingerprint("build-host", "alice", "linux");
    assert_eq!(a, b);
    assert_eq!(a.len(), 64, "sha256 hex is 64 chars: {a}");
    assert!(a.chars().all(|c| c.is_ascii_hexdigit()));
    assert!(!a.contains("alice"));
}

#[test]
fn sha256_hex_matches_known_digests() {
    assert_eq!(sha256_hex("abc"), "ba7816bf8f01cfea414140de5dae2223b00361a396177a9cb410ff61f20015ad");
    assert_eq!(sha256_hex(""), "e3b0c44298fc1c149afbf4c8996fb92427ae41e4649b934ca495991b7852b855");
}

#[test]
fn fingerprint_hashes_the_joined_identity() {
    assert_eq!(device_fingerprint("h", "u", "linux"), sha256_hex("h|u|linux"));
    assert_eq!(cli_device_fingerprint("h", "u"), sha256_hex("h-u"));
    assert_ne!(device_fingerprint("h", "u", "linux"), device_fingerprint("h", "u", "macos"));
}

#[test]
fn downloads_are_checked_against_the_reported_digest() {
    let digest = "BA7816BF8F01CFEA414140DE5DAE2223B00361A396177A9CB410FF61F20015AD";
    assert!(digest_matches(b"abc", Some(digest)));
    assert!(!digest_matches(b"abd", Some(digest)));
    assert!(!digest_matches(b"abc", Some("abc")));
    assert!(digest_matches(b"anything", None));
}
