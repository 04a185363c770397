//! Sensitivity lattice, read gate and content fingerprinting.

use truthlayer::sensitivity::{Sensitivity, agent_can_read, content_hash};

#[test]
fn sensitivity_ordering() {
    assert!(Sensitivity::Public < Sensitivity::Internal);
    assert!(Sensitivity::Internal < Sensitivity::Confidential);
    assert!(Sensitivity::Confidential < Sensitivity::Restricted);
}

#[test]
fn default_is_internal() {
    assert_eq!(Sensitivity::default(), Sensitivity::Internal);
}

#[test]
fn agent_can_read_at_or_below_max() {
    assert!(agent_can_read(Sensitivity::Public, Sensitivity::Internal));
    assert!(agent_can_read(Sensitivity::Internal, Sensitivity::Internal));
    assert!(!agent_can_read(Sensitivity::Confidential, Sensitivity::Internal));
    assert!(!agent_can_read(Sensitivity::Restricted, Sensitivity::Internal));
    assert!(agent_can_read(Sensitivity::Confidential, Sensitivity::Confidential));
    assert!(agent_can_read(Sensitivity::Restricted, Sensitivity::Restricted));
}

#[test]
fn content_hash_is_deterministic() {
    let h1 = content_hash("hello world");
    let h2 = content_hash("hello world");
    assert_eq!(h1, h2);
    let h3 = content_hash("different content");
    assert_ne!(h1, h3);
}

#[test]
fn content_hash_is_sha256_hex() {
    let hash = content_hash("test");
    assert_eq!(hash.len(), 64);
    assert!(hash.chars().all(|c| c.is_ascii_hexdigit()));
}

#[test]
fn content_hash_known_digest() {
    assert_eq!(
        content_hash("hello"),
        "2cf24dba5fb0a30e26e83b2ac5b9e29e1b161e5c1fa7425e73043362938b9824"
    );
    assert_eq!(
        content_hash(""),
        "e3b0c44298fc1c149afbf4c8996fb92427ae41e4649b934ca495991b7852b855"
    );
}

#[test]
fn sensitivity_from_str() {
    assert_eq!(Sensitivity::from_str_opt("public"), Some(Sensitivity::Public));
    assert_eq!(Sensitivity::from_str_opt("internal"), Some(Sensitivity::Internal));
    assert_eq!(
        Sensitivity::from_str_opt("confidential"),
        Some(Sensitivity::Confidential)
    );
    assert_eq!(
        Sensitivity::from_str_opt("restricted"),
        Some(Sensitivity::Restricted)
    );
    assert_eq!(Sensitivity::from_str_opt("unknown"), None);
    assert_eq!(Sensitivity::from_str_opt("PUBLIC"), Some(Sensitivity::Public));
}
