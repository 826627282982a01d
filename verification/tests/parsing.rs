use apt_chain::client::{artifact_url, display_filename};
use apt_chain::digest::{digest_matches, sha256_hex, to_hex};
use apt_chain::errors::Error;
use apt_chain::index::{find_package, parse_index, PackageRecord};
use apt_chain::manifest::parse_manifest;
use apt_chain::text::{eq_str, split_str};

#[test]
fn split_str_basic() {
    let parts = split_str("a b c", ' ');
    assert_eq!(parts, vec!["a".to_string(), "b".to_string(), "c".to_string()]);
}

#[test]
fn split_str_empty_pieces() {
    assert_eq!(split_str("", '\n'), vec!["".to_string()]);
    assert_eq!(split_str("x\n\ny", '\n'), vec!["x".to_string(), "".to_string(), "y".to_string()]);
    assert_eq!(split_str("a/", '/'), vec!["a".to_string(), "".to_string()]);
}

#[test]
fn eq_str_exact_and_case_sensitive() {
    assert!(eq_str("abc", "abc"));
    assert!(!eq_str("abc", "Abc"));
    assert!(!eq_str("abc", "abcd"));
    assert!(eq_str("", ""));
}

#[test]
fn to_hex_known_bytes() {
    assert_eq!(to_hex(&vec![]), "");
    assert_eq!(to_hex(&vec![0x00, 0xff, 0x1a]), "00ff1a");
}

#[test]
fn sha256_known_vectors() {
    // The digest primitive must compute real SHA-256, not echo its input.
    assert_eq!(
        sha256_hex(&vec![]),
        "e3b0c44298fc1c149afbf4c8996fb92427ae41e4649b934ca495991b7852b855"
    );
    assert_eq!(
        sha256_hex(&b"abc".to_vec()),
        "ba7816bf8f01cfea414140de5dae2223b00361a396177a9cb410ff61f20015ad"
    );
}

#[test]
fn digest_comparison_succeeds_iff_hash_equal() {
    let bytes = b"package index body".to_vec();
    let good = sha256_hex(&bytes);
    assert!(digest_matches(&bytes, &good));
    // A one-byte mutation flips the comparison to failure.
    let mut mutated = bytes.clone();
    mutated[0] ^= 0x01;
    assert!(!digest_matches(&mutated, &good));
    // Case differences are a mismatch: the comparison is exact.
    assert!(!digest_matches(&bytes, &good.to_uppercase()));
}

#[test]
fn manifest_two_unique_lines() {
    let m = parse_manifest("main/Packages 11aa\nnon-free/Packages 22bb\n").unwrap();
    assert_eq!(m.entries.len(), 2);
    assert_eq!(m.get("main/Packages"), Some("11aa".to_string()));
    assert_eq!(m.get("non-free/Packages"), Some("22bb".to_string()));
    assert_eq!(m.get("absent/Packages"), None);
}

#[test]
fn manifest_empty_lines_ignored() {
    let m = parse_manifest("\n\na 1\n\nb 2\n\n").unwrap();
    assert_eq!(m.entries.len(), 2);
}

#[test]
fn manifest_duplicate_path_rejected() {
    let r = parse_manifest("a 1\nb 2\na 3\n");
    assert!(matches!(r, Err(Error::ManifestMalformed)));
}

#[test]
fn manifest_malformed_lines_rejected() {
    assert!(matches!(parse_manifest("nospace"), Err(Error::ManifestMalformed)));
    assert!(matches!(parse_manifest("three fields here"), Err(Error::ManifestMalformed)));
    assert!(matches!(parse_manifest(" leadingspace"), Err(Error::ManifestMalformed)));
    assert!(matches!(parse_manifest("trailing "), Err(Error::ManifestMalformed)));
}

fn sample_index() -> Vec<PackageRecord> {
    parse_index(
        "alpha 1.0 pool/alpha.deb aaaa\nbeta 2.0 pool/beta.deb bbbb\nalpha 3.0 pool/alpha3.deb cccc\n",
    )
    .unwrap()
}

#[test]
fn index_parses_records_in_order() {
    let recs = sample_index();
    assert_eq!(recs.len(), 3);
    assert_eq!(recs[1].package, "beta");
    assert_eq!(recs[1].version, "2.0");
    assert_eq!(recs[1].filename, "pool/beta.deb");
    assert_eq!(recs[1].sha256sum, "bbbb");
}

#[test]
fn index_malformed_rejected() {
    assert!(matches!(parse_index("alpha 1.0 pool/alpha.deb"), Err(Error::IndexMalformed)));
    assert!(matches!(parse_index("a b c d e"), Err(Error::IndexMalformed)));
}

#[test]
fn find_package_exact_single_match() {
    let recs = sample_index();
    let r = find_package(&recs, "beta").unwrap();
    assert_eq!(r.version, "2.0");
}

#[test]
fn find_package_zero_matches() {
    let recs = sample_index();
    assert!(matches!(find_package(&recs, "gamma"), Err(Error::PackageNotFound)));
    // Exact, case-sensitive: no fuzzy fallback.
    assert!(matches!(find_package(&recs, "Beta"), Err(Error::PackageNotFound)));
}

#[test]
fn find_package_first_of_duplicates() {
    let recs = sample_index();
    let r = find_package(&recs, "alpha").unwrap();
    assert_eq!(r.version, "1.0");
    assert_eq!(r.sha256sum, "aaaa");
}

#[test]
fn display_filename_after_last_separator() {
    assert_eq!(display_filename("pool/non-free/s/spotify.deb"), "spotify.deb");
    assert_eq!(display_filename("plain.deb"), "???");
    assert_eq!(display_filename("dir/"), "");
}

#[test]
fn artifact_url_joins_base_and_path() {
    let rec = PackageRecord {
        package: "alpha".to_string(),
        version: "1.0".to_string(),
        filename: "pool/alpha.deb".to_string(),
        sha256sum: "aaaa".to_string(),
    };
    assert_eq!(artifact_url(&rec), "http://repository.spotify.com/pool/alpha.deb");
}
