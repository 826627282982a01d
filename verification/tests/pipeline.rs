use apt_chain::client::{index_path, package_name, Client, Event, State};
use apt_chain::digest::sha256_hex;
use apt_chain::errors::{ChainLink, Error};

fn artifact_bytes() -> Vec<u8> {
    b"binary artifact payload".to_vec()
}

fn index_bytes() -> Vec<u8> {
    let artifact_digest = sha256_hex(&artifact_bytes());
    format!(
        "other-pkg 0.1 pool/other.deb dddd\n{} 1.2.3 pool/spotify-client.deb {}\n",
        package_name(),
        artifact_digest
    )
    .into_bytes()
}

fn manifest_bytes() -> Vec<u8> {
    let index_digest = sha256_hex(&index_bytes());
    format!("{} {}\nmain/binary-amd64/Packages eeee\n", index_path(), index_digest).into_bytes()
}

fn client_with_verified_manifest() -> Client {
    let c = Client::new().unwrap();
    let c = c.step(Event::ManifestFetched {
        manifest: manifest_bytes(),
        signature: b"detached signature".to_vec(),
    });
    assert!(matches!(c.state, State::ManifestFetched { .. }));
    let c = c.step(Event::SignatureChecked { ok: true });
    assert!(matches!(c.state, State::ManifestVerified { .. }));
    c
}

#[test]
fn scenario_all_checks_pass() {
    let c = client_with_verified_manifest();
    match &c.state {
        State::ManifestVerified { expected_digest } => {
            assert_eq!(*expected_digest, sha256_hex(&index_bytes()));
        }
        s => panic!("unexpected state: {:?}", s),
    }
    let c = c.step(Event::IndexFetched { bytes: index_bytes() });
    match &c.state {
        State::PackageFound { record } => {
            assert_eq!(record.package, package_name());
            assert_eq!(record.version, "1.2.3");
            assert_eq!(record.filename, "pool/spotify-client.deb");
            assert_eq!(record.sha256sum, sha256_hex(&artifact_bytes()));
        }
        s => panic!("unexpected state: {:?}", s),
    }
    let c = c.step(Event::ArtifactFetched { bytes: artifact_bytes() });
    match &c.state {
        State::ArtifactVerified { artifact } => assert_eq!(*artifact, artifact_bytes()),
        s => panic!("unexpected state: {:?}", s),
    }
}

#[test]
fn scenario_invalid_signature_fails_before_index() {
    let c = Client::new().unwrap();
    let c = c.step(Event::ManifestFetched {
        manifest: manifest_bytes(),
        signature: b"bad signature".to_vec(),
    });
    let c = c.step(Event::SignatureChecked { ok: false });
    assert!(matches!(c.state, State::Failed { error: Error::SignatureInvalid }));
    // The failure is terminal: a later index arrival is never consumed.
    let c = c.step(Event::IndexFetched { bytes: index_bytes() });
    assert!(matches!(c.state, State::Failed { error: Error::SignatureInvalid }));
}

#[test]
fn scenario_index_digest_mismatch() {
    let c = client_with_verified_manifest();
    // Well-formed index text, but not the bytes the manifest signed for.
    let mut tampered = index_bytes();
    tampered[0] ^= 0x01;
    let observed = sha256_hex(&tampered);
    let expected = sha256_hex(&index_bytes());
    let c = c.step(Event::IndexFetched { bytes: tampered });
    match &c.state {
        State::Failed { error: Error::DigestMismatch { link, expected: e, observed: o } } => {
            assert!(matches!(link, ChainLink::Index));
            assert_eq!(*e, expected);
            assert_eq!(*o, observed);
        }
        s => panic!("unexpected state: {:?}", s),
    }
}

#[test]
fn scenario_package_absent() {
    let artifact_digest = sha256_hex(&artifact_bytes());
    let index = format!("other-pkg 0.1 pool/other.deb {}\n", artifact_digest).into_bytes();
    let index_digest = sha256_hex(&index);
    let manifest = format!("{} {}\n", index_path(), index_digest).into_bytes();

    let c = Client::new().unwrap();
    let c = c.step(Event::ManifestFetched { manifest, signature: b"sig".to_vec() });
    let c = c.step(Event::SignatureChecked { ok: true });
    let c = c.step(Event::IndexFetched { bytes: index });
    assert!(matches!(c.state, State::Failed { error: Error::PackageNotFound }));
}

#[test]
fn artifact_digest_mismatch_fails_artifact_link() {
    let c = client_with_verified_manifest();
    let c = c.step(Event::IndexFetched { bytes: index_bytes() });
    let mut tampered = artifact_bytes();
    tampered.push(0);
    let c = c.step(Event::ArtifactFetched { bytes: tampered });
    match &c.state {
        State::Failed { error: Error::DigestMismatch { link, .. } } => {
            assert!(matches!(link, ChainLink::Artifact));
        }
        s => panic!("unexpected state: {:?}", s),
    }
}

#[test]
fn manifest_without_index_entry_is_digest_missing() {
    let c = Client::new().unwrap();
    let c = c.step(Event::ManifestFetched {
        manifest: b"main/binary-amd64/Packages eeee\n".to_vec(),
        signature: b"sig".to_vec(),
    });
    let c = c.step(Event::SignatureChecked { ok: true });
    assert!(matches!(c.state, State::Failed { error: Error::DigestMissing }));
}

#[test]
fn undecodable_manifest_is_decode_failure() {
    let c = Client::new().unwrap();
    let c = c.step(Event::ManifestFetched {
        manifest: vec![0xff, 0xfe, 0x80],
        signature: b"sig".to_vec(),
    });
    let c = c.step(Event::SignatureChecked { ok: true });
    assert!(matches!(c.state, State::Failed { error: Error::DecodeFailure }));
}

#[test]
fn malformed_manifest_after_valid_signature() {
    let c = Client::new().unwrap();
    let c = c.step(Event::ManifestFetched {
        manifest: b"no-digest-field\n".to_vec(),
        signature: b"sig".to_vec(),
    });
    let c = c.step(Event::SignatureChecked { ok: true });
    assert!(matches!(c.state, State::Failed { error: Error::ManifestMalformed }));
}

#[test]
fn undecodable_index_is_decode_failure() {
    let index: Vec<u8> = vec![0xff, 0xc0, 0xaf];
    let index_digest = sha256_hex(&index);
    let manifest = format!("{} {}\n", index_path(), index_digest).into_bytes();
    let c = Client::new().unwrap();
    let c = c.step(Event::ManifestFetched { manifest, signature: b"sig".to_vec() });
    let c = c.step(Event::SignatureChecked { ok: true });
    let c = c.step(Event::IndexFetched { bytes: index });
    assert!(matches!(c.state, State::Failed { error: Error::DecodeFailure }));
}

#[test]
fn malformed_index_behind_matching_digest() {
    let index = b"only three fields\n".to_vec();
    let index_digest = sha256_hex(&index);
    let manifest = format!("{} {}\n", index_path(), index_digest).into_bytes();
    let c = Client::new().unwrap();
    let c = c.step(Event::ManifestFetched { manifest, signature: b"sig".to_vec() });
    let c = c.step(Event::SignatureChecked { ok: true });
    let c = c.step(Event::IndexFetched { bytes: index });
    assert!(matches!(c.state, State::Failed { error: Error::IndexMalformed }));
}

#[test]
fn transport_failure_at_any_fetch() {
    let c = Client::new().unwrap();
    let c = c.step(Event::FetchFailed);
    assert!(matches!(c.state, State::Failed { error: Error::TransportFailure }));

    let c = client_with_verified_manifest();
    let c = c.step(Event::FetchFailed);
    assert!(matches!(c.state, State::Failed { error: Error::TransportFailure }));
}

#[test]
fn staging_failure_during_verification() {
    let c = Client::new().unwrap();
    let c = c.step(Event::ManifestFetched {
        manifest: manifest_bytes(),
        signature: b"sig".to_vec(),
    });
    let c = c.step(Event::StagingFailed);
    assert!(matches!(c.state, State::Failed { error: Error::TemporaryStorageFailure }));
}

#[test]
fn terminal_states_absorb_events() {
    let c = client_with_verified_manifest();
    let c = c.step(Event::IndexFetched { bytes: index_bytes() });
    let c = c.step(Event::ArtifactFetched { bytes: artifact_bytes() });
    assert!(matches!(c.state, State::ArtifactVerified { .. }));
    let c = c.step(Event::FetchFailed);
    assert!(matches!(c.state, State::ArtifactVerified { .. }));
    let c = c.step(Event::SignatureChecked { ok: false });
    assert!(matches!(c.state, State::ArtifactVerified { .. }));
}

#[test]
fn mismatched_events_leave_state_unchanged() {
    let c = Client::new().unwrap();
    let c = c.step(Event::SignatureChecked { ok: true });
    assert!(matches!(c.state, State::Start));
    let c = c.step(Event::ArtifactFetched { bytes: artifact_bytes() });
    assert!(matches!(c.state, State::Start));
}
