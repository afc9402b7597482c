use saykocraft_launcher::utils::{compare_semver, sha1_hex, sha1_matches, sha256_hex, sha256_matches};
use std::cmp::Ordering;

#[test]
fn semver_orders_by_numbers() {
    assert_eq!(compare_semver("1.2.3", "1.2.4"), Some(Ordering::Less));
    assert_eq!(compare_semver("2.0.0", "1.9.9"), Some(Ordering::Greater));
    assert_eq!(compare_semver("1.10.0", "1.9.0"), Some(Ordering::Greater));
    assert_eq!(compare_semver("0.0.1", "0.0.1"), Some(Ordering::Equal));
}

#[test]
fn semver_ignores_one_leading_v() {
    assert_eq!(compare_semver("v1.2.3", "1.2.3"), Some(Ordering::Equal));
    assert_eq!(compare_semver("vv1.2.3", "1.2.3"), None);
}

#[test]
fn semver_pre_releases() {
    assert_eq!(compare_semver("1.0.0-alpha", "1.0.0"), Some(Ordering::Less));
    assert_eq!(compare_semver("1.0.0", "1.0.0-rc.1"), Some(Ordering::Greater));
    assert_eq!(compare_semver("1.0.0-alpha.1", "1.0.0-alpha.2"), Some(Ordering::Less));
    assert_eq!(compare_semver("1.0.0-alpha.10", "1.0.0-alpha.9"), Some(Ordering::Greater));
    assert_eq!(compare_semver("1.0.0-alpha", "1.0.0-1"), Some(Ordering::Greater));
    assert_eq!(compare_semver("1.0.0-alpha", "1.0.0-alpha.1"), Some(Ordering::Less));
    assert_eq!(compare_semver("1.0.0-beta", "1.0.0-alpha"), Some(Ordering::Greater));
}

#[test]
fn semver_accepts_plus_signed_numbers() {
    assert_eq!(compare_semver("+1.2.3", "1.2.3"), Some(Ordering::Equal));
}

#[test]
fn semver_rejects_malformed_versions() {
    assert_eq!(compare_semver("1.2", "1.2.0"), None);
    assert_eq!(compare_semver("1.2.3.4", "1.2.3"), None);
    assert_eq!(compare_semver("a.b.c", "1.2.3"), None);
    assert_eq!(compare_semver("1.2.3", ""), None);
    assert_eq!(compare_semver("1..3", "1.2.3"), None);
}

#[test]
fn semver_antisymmetry_example() {
    for (a, b) in [("1.2.3-rc.1", "1.2.3"), ("2.0.0", "1.0.0"), ("1.0.0-x.7", "1.0.0-x.y")] {
        let forward = compare_semver(a, b);
        let backward = compare_semver(b, a);
        assert_eq!(forward.map(Ordering::reverse), backward);
    }
}

#[test]
fn semver_reflexive_example() {
    assert_eq!(compare_semver("3.4.5-beta.2", "3.4.5-beta.2"), Some(Ordering::Equal));
}

#[test]
fn semver_transitive_example() {
    let chain = ["1.0.0-alpha", "1.0.0-alpha.1", "1.0.0-beta.2", "1.0.0", "1.0.1", "v1.1.0"];
    for i in 0..chain.len() {
        for j in i + 1..chain.len() {
            assert_eq!(compare_semver(chain[i], chain[j]), Some(Ordering::Less));
        }
    }
    assert_eq!(compare_semver("1.0.0-01", "1.0.0-1"), Some(Ordering::Equal));
    assert_eq!(compare_semver("1.0.0-1", "1.0.0-001"), Some(Ordering::Equal));
    assert_eq!(compare_semver("1.0.0-01", "1.0.0-001"), Some(Ordering::Equal));
}

#[test]
fn sha1_of_known_inputs() {
    assert_eq!(sha1_hex(b"abc"), "a9993e364706816aba3e25717850c26c9cd0d89d");
    assert_eq!(sha1_hex(b""), "da39a3ee5e6b4b0d3255bfef95601890afd80709");
}

#[test]
fn sha256_of_known_inputs() {
    assert_eq!(
        sha256_hex(b"abc"),
        "ba7816bf8f01cfea414140de5dae2223b00361a396177a9cb410ff61f20015ad"
    );
    assert_eq!(
        sha256_hex(b""),
        "e3b0c44298fc1c149afbf4c8996fb92427ae41e4649b934ca495991b7852b855"
    );
}

#[test]
fn digests_match_in_either_case() {
    assert!(sha1_matches(b"abc", "A9993E364706816ABA3E25717850C26C9CD0D89D"));
    assert!(!sha1_matches(b"abd", "a9993e364706816aba3e25717850c26c9cd0d89d"));
    assert!(sha256_matches(
        b"abc",
        "BA7816BF8F01CFEA414140DE5DAE2223B00361A396177A9CB410FF61F20015AD"
    ));
    assert!(!sha256_matches(b"abc", "ba78"));
}
