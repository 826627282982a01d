//! The trust-chain pipeline itself, as a verified state machine.
//!
//! A run walks strictly forward: `Start`, manifest and signature fetched,
//! signature verified (and the index digest extracted from the now-trusted
//! manifest), package found in the digest-verified index, artifact verified.
//! Any failed check moves to `Failed`, which is terminal, as is
//! `ArtifactVerified`.  The caller performs the outside work — fetches,
//! staging, the PGP primitive — and reports each outcome as an [`Event`];
//! every decision between two events is made and proved here, in
//! [`next_spec`].  The index digest check and the artifact digest check run
//! inside a single transition, so the index is parsed only behind a passed
//! digest check, and bytes are never parsed speculatively.

use vstd::prelude::*;
use vstd::string::*;
use crate::digest::{digest_matches, hex_of, sha256_hex, sha256_of};
use crate::errors::{ChainLink, Error, ErrorV};
use crate::index::{find_package, find_spec, parse_index, parse_index_spec, PackageRecord, RecordV};
use crate::manifest::{lookup_spec, parse_manifest, parse_manifest_spec};
use crate::text::{decode_utf8, split_on, split_str, utf8_decoded};

verus! {

/// The repository path of the package index inside the manifest, and the
/// name of the package this client resolves.
pub open spec fn index_path_view() -> Seq<char> {
    "non-free/binary-amd64/Packages"@
}

pub open spec fn package_name_view() -> Seq<char> {
    "spotify-client"@
}

pub open spec fn repo_base_view() -> Seq<char> {
    "http://repository.spotify.com/"@
}

/// The index path whose digest the signed manifest must declare.
pub fn index_path() -> (r: &'static str)
    ensures
        r@ == index_path_view(),
{
    "non-free/binary-amd64/Packages"
}

/// The package name the pipeline resolves.
pub fn package_name() -> (r: &'static str)
    ensures
        r@ == package_name_view(),
{
    "spotify-client"
}

/// The fixed location of the release manifest.
pub fn release_url() -> (r: &'static str)
    ensures
        r@ == "http://repository.spotify.com/dists/testing/Release"@,
{
    "http://repository.spotify.com/dists/testing/Release"
}

/// The fixed location of the manifest's detached signature.
pub fn signature_url() -> (r: &'static str)
    ensures
        r@ == "http://repository.spotify.com/dists/testing/Release.gpg"@,
{
    "http://repository.spotify.com/dists/testing/Release.gpg"
}

/// The fixed location of the package index: the distribution base joined
/// with [`index_path_view`].
pub fn index_url() -> (r: &'static str)
    ensures
        r@ == "http://repository.spotify.com/dists/testing/"@ + index_path_view(),
{
    proof {
        reveal_strlit("http://repository.spotify.com/dists/testing/non-free/binary-amd64/Packages");
        reveal_strlit("http://repository.spotify.com/dists/testing/");
        reveal_strlit("non-free/binary-amd64/Packages");
        assert("http://repository.spotify.com/dists/testing/non-free/binary-amd64/Packages"@
            =~= "http://repository.spotify.com/dists/testing/"@ + index_path_view());
    }
    "http://repository.spotify.com/dists/testing/non-free/binary-amd64/Packages"
}

/// The fetch target for a record's artifact: the repository base joined
/// with the record's declared path.
pub fn artifact_url(record: &PackageRecord) -> (r: String)
    ensures
        r@ == repo_base_view() + record.filename@,
{
    String::from_str("http://repository.spotify.com/").concat(record.filename.as_str())
}

/// The display name of an artifact: the part of its path after the last
/// separator, or a placeholder when the path holds none.  Used for
/// reporting only; it never takes part in verification.
pub open spec fn display_filename_spec(path: Seq<char>) -> Seq<char> {
    let parts = split_on(path, '/');
    if parts.len() == 1 {
        "???"@
    } else {
        parts.last()
    }
}

pub fn display_filename(path: &str) -> (r: String)
    ensures
        r@ == display_filename_spec(path@),
{
    let parts = split_str(path, '/');
    proof {
        crate::text::lemma_split_on_len(path@, '/');
        assert(parts@.len() == parts.deep_view().len());
    }
    if parts.len() == 1 {
        String::from_str("???")
    } else {
        let r = parts[parts.len() - 1].clone();
        proof {
            assert(parts.deep_view().last() == parts.deep_view()[parts.deep_view().len() - 1]);
        }
        r
    }
}

/// The mathematical image of a [`State`].
pub ghost enum StateV {
    Start,
    ManifestFetched { manifest: Seq<u8>, signature: Seq<u8> },
    ManifestVerified { expected_digest: Seq<char> },
    PackageFound { record: RecordV },
    ArtifactVerified { artifact: Seq<u8> },
    Failed { error: ErrorV },
}

/// Where the pipeline stands.  Each non-terminal state waits for the
/// outcome of one piece of outside work; `ArtifactVerified` and `Failed`
/// are terminal.
#[derive(Clone, Debug)]
pub enum State {
    /// Nothing fetched yet: the caller fetches the manifest and its
    /// detached signature.
    Start,
    /// Manifest and signature in hand: the caller stages both and runs the
    /// signature-verification primitive against the keyring.
    ManifestFetched { manifest: Vec<u8>, signature: Vec<u8> },
    /// The manifest is trusted and declares this digest for the index: the
    /// caller fetches the index bytes.
    ManifestVerified { expected_digest: String },
    /// The target record, read from the digest-verified index: the caller
    /// fetches the artifact at the record's path.
    PackageFound { record: PackageRecord },
    /// Terminal success: the artifact bytes passed the recorded digest.
    ArtifactVerified { artifact: Vec<u8> },
    /// Terminal failure.
    Failed { error: Error },
}

impl View for State {
    type V = StateV;

    open spec fn view(&self) -> StateV {
        match self {
            State::Start => StateV::Start,
            State::ManifestFetched { manifest, signature } => StateV::ManifestFetched {
                manifest: manifest@,
                signature: signature@,
            },
            State::ManifestVerified { expected_digest } => StateV::ManifestVerified {
                expected_digest: expected_digest@,
            },
            State::PackageFound { record } => StateV::PackageFound { record: record@ },
            State::ArtifactVerified { artifact } => StateV::ArtifactVerified {
                artifact: artifact@,
            },
            State::Failed { error } => StateV::Failed { error: error@ },
        }
    }
}

/// The mathematical image of an [`Event`].
pub ghost enum EventV {
    ManifestFetched { manifest: Seq<u8>, signature: Seq<u8> },
    SignatureChecked { ok: bool },
    StagingFailed,
    IndexFetched { bytes: Seq<u8> },
    ArtifactFetched { bytes: Seq<u8> },
    FetchFailed,
}

/// The outcome of one piece of outside work, reported by the caller.
#[derive(Debug)]
pub enum Event {
    /// The manifest and its detached signature arrived.
    ManifestFetched { manifest: Vec<u8>, signature: Vec<u8> },
    /// The signature-verification primitive accepted or rejected the
    /// staged manifest and signature.
    SignatureChecked { ok: bool },
    /// The staging area for signature verification could not be used.
    StagingFailed,
    /// The package index bytes arrived.
    IndexFetched { bytes: Vec<u8> },
    /// The artifact bytes arrived.
    ArtifactFetched { bytes: Vec<u8> },
    /// A fetch could not complete.
    FetchFailed,
}

impl View for Event {
    type V = EventV;

    open spec fn view(&self) -> EventV {
        match self {
            Event::ManifestFetched { manifest, signature } => EventV::ManifestFetched {
                manifest: manifest@,
                signature: signature@,
            },
            Event::SignatureChecked { ok } => EventV::SignatureChecked { ok: *ok },
            Event::StagingFailed => EventV::StagingFailed,
            Event::IndexFetched { bytes } => EventV::IndexFetched { bytes: bytes@ },
            Event::ArtifactFetched { bytes } => EventV::ArtifactFetched { bytes: bytes@ },
            Event::FetchFailed => EventV::FetchFailed,
        }
    }
}

/// A state from which no transition leaves.
pub open spec fn is_terminal(s: StateV) -> bool {
    s is ArtifactVerified || s is Failed
}

/// What follows once the signature over the manifest bytes has verified:
/// decode the bytes as text, parse the manifest, and extract the digest
/// declared for the index path.  A manifest that fails signature
/// verification never reaches this point.
pub open spec fn manifest_gate_spec(manifest: Seq<u8>) -> StateV {
    match utf8_decoded(manifest) {
        None => StateV::Failed { error: ErrorV::DecodeFailure },
        Some(text) => match parse_manifest_spec(text) {
            None => StateV::Failed { error: ErrorV::ManifestMalformed },
            Some(entries) => match lookup_spec(entries, index_path_view()) {
                None => StateV::Failed { error: ErrorV::DigestMissing },
                Some(d) => StateV::ManifestVerified { expected_digest: d },
            },
        },
    }
}

/// What follows once the index bytes have arrived: their digest is checked
/// against the manifest-declared one first, and only bytes that pass are
/// decoded, parsed and searched for the target package.
pub open spec fn index_gate_spec(expected: Seq<char>, bytes: Seq<u8>) -> StateV {
    if hex_of(sha256_of(bytes)) != expected {
        StateV::Failed {
            error: ErrorV::DigestMismatch {
                link: ChainLink::Index,
                expected: expected,
                observed: hex_of(sha256_of(bytes)),
            },
        }
    } else {
        match utf8_decoded(bytes) {
            None => StateV::Failed { error: ErrorV::DecodeFailure },
            Some(text) => match parse_index_spec(text) {
                None => StateV::Failed { error: ErrorV::IndexMalformed },
                Some(records) => match find_spec(records, package_name_view()) {
                    None => StateV::Failed { error: ErrorV::PackageNotFound },
                    Some(rec) => StateV::PackageFound { record: rec },
                },
            },
        }
    }
}

/// What follows once the artifact bytes have arrived: they are verified
/// against the digest recorded in the already-verified index record.
pub open spec fn artifact_gate_spec(record: RecordV, bytes: Seq<u8>) -> StateV {
    if hex_of(sha256_of(bytes)) == record.sha256sum {
        StateV::ArtifactVerified { artifact: bytes }
    } else {
        StateV::Failed {
            error: ErrorV::DigestMismatch {
                link: ChainLink::Artifact,
                expected: record.sha256sum,
                observed: hex_of(sha256_of(bytes)),
            },
        }
    }
}

/// The pipeline's transition function.  An event that does not answer the
/// state's pending work leaves the state unchanged; terminal states absorb
/// every event.
pub open spec fn next_spec(s: StateV, e: EventV) -> StateV {
    match (s, e) {
        (StateV::Start, EventV::ManifestFetched { manifest, signature }) =>
            StateV::ManifestFetched { manifest, signature },
        (StateV::ManifestFetched { manifest, signature }, EventV::SignatureChecked { ok }) =>
            if ok {
                manifest_gate_spec(manifest)
            } else {
                StateV::Failed { error: ErrorV::SignatureInvalid }
            },
        (StateV::ManifestFetched { manifest, signature }, EventV::StagingFailed) =>
            StateV::Failed { error: ErrorV::TemporaryStorageFailure },
        (StateV::ManifestVerified { expected_digest }, EventV::IndexFetched { bytes }) =>
            index_gate_spec(expected_digest, bytes),
        (StateV::PackageFound { record }, EventV::ArtifactFetched { bytes }) =>
            artifact_gate_spec(record, bytes),
        (s, EventV::FetchFailed) =>
            if is_terminal(s) {
                s
            } else {
                StateV::Failed { error: ErrorV::TransportFailure }
            },
        (s, _) => s,
    }
}

/// The trust-chain client: holds the pipeline's current state.
pub struct Client {
    pub state: State,
}

/// Runs the manifest gate: called only behind a passed signature check.
fn manifest_gate(manifest: Vec<u8>) -> (r: State)
    ensures
        r@ == manifest_gate_spec(manifest@),
{
    match decode_utf8(manifest) {
        None => State::Failed { error: Error::DecodeFailure },
        Some(text) => match parse_manifest(text.as_str()) {
            Err(_) => State::Failed { error: Error::ManifestMalformed },
            Ok(m) => match m.get(index_path()) {
                None => State::Failed { error: Error::DigestMissing },
                Some(d) => State::ManifestVerified { expected_digest: d },
            },
        },
    }
}

/// Runs the index gate: digest check first, then decode, parse and search.
fn index_gate(expected: String, bytes: Vec<u8>) -> (r: State)
    ensures
        r@ == index_gate_spec(expected@, bytes@),
{
    if !digest_matches(&bytes, expected.as_str()) {
        let observed = sha256_hex(&bytes);
        return State::Failed {
            error: Error::DigestMismatch { link: ChainLink::Index, expected, observed },
        };
    }
    match decode_utf8(bytes) {
        None => State::Failed { error: Error::DecodeFailure },
        Some(text) => match parse_index(text.as_str()) {
            Err(_) => State::Failed { error: Error::IndexMalformed },
            Ok(records) => match find_package(&records, package_name()) {
                Err(_) => State::Failed { error: Error::PackageNotFound },
                Ok(record) => State::PackageFound { record },
            },
        },
    }
}

/// Runs the artifact gate: the downloaded bytes against the record's digest.
fn artifact_gate(record: PackageRecord, bytes: Vec<u8>) -> (r: State)
    ensures
        r@ == artifact_gate_spec(record@, bytes@),
{
    if digest_matches(&bytes, record.sha256sum.as_str()) {
        State::ArtifactVerified { artifact: bytes }
    } else {
        let observed = sha256_hex(&bytes);
        State::Failed {
            error: Error::DigestMismatch {
                link: ChainLink::Artifact,
                expected: record.sha256sum,
                observed,
            },
        }
    }
}

impl Client {
    /// A client at the start of a fresh run.
    pub fn new() -> (r: Result<Client, Error>)
        ensures
            r matches Ok(c) && c.state@ == StateV::Start,
    {
        Ok(Client { state: State::Start })
    }

    /// Advance the pipeline by one reported outcome.  The new state is
    /// exactly [`next_spec`] of the old state and the event.
    pub fn step(self, event: Event) -> (r: Client)
        ensures
            r.state@ == next_spec(self.state@, event@),
    {
        match (self.state, event) {
            (State::Start, Event::ManifestFetched { manifest, signature }) => Client {
                state: State::ManifestFetched { manifest, signature },
            },
            (State::ManifestFetched { manifest, signature }, Event::SignatureChecked { ok }) => {
                if ok {
                    Client { state: manifest_gate(manifest) }
                } else {
                    Client { state: State::Failed { error: Error::SignatureInvalid } }
                }
            },
            (State::ManifestFetched { manifest, signature }, Event::StagingFailed) => Client {
                state: State::Failed { error: Error::TemporaryStorageFailure },
            },
            (State::ManifestVerified { expected_digest }, Event::IndexFetched { bytes }) => Client {
                state: index_gate(expected_digest, bytes),
            },
            (State::PackageFound { record }, Event::ArtifactFetched { bytes }) => Client {
                state: artifact_gate(record, bytes),
            },
            (s, Event::FetchFailed) => {
                match s {
                    State::ArtifactVerified { artifact } => Client {
                        state: State::ArtifactVerified { artifact },
                    },
                    State::Failed { error } => Client { state: State::Failed { error } },
                    _ => Client { state: State::Failed { error: Error::TransportFailure } },
                }
            },
            (s, _) => Client { state: s },
        }
    }
}

/// The state a run reaches from `s` after the events in `events`, in order.
pub open spec fn run_spec(s: StateV, events: Seq<EventV>) -> StateV
    decreases events.len(),
{
    if events.len() == 0 {
        s
    } else {
        run_spec(next_spec(s, events[0]), events.skip(1))
    }
}

/// A terminal state absorbs every event: a failed run stays failed and a
/// finished run stays finished, so no later work is ever consumed.
pub proof fn lemma_terminal_absorbs(s: StateV, e: EventV)
    ensures
        is_terminal(s) ==> next_spec(s, e) == s,
{
}

/// How far along the chain a state stands.
pub open spec fn phase(s: StateV) -> int {
    match s {
        StateV::Start => 0,
        StateV::ManifestFetched { .. } => 1,
        StateV::ManifestVerified { .. } => 2,
        StateV::PackageFound { .. } => 3,
        StateV::ArtifactVerified { .. } => 4,
        StateV::Failed { .. } => 4,
    }
}

/// Control flows strictly forward: a transition either leaves the state
/// untouched or moves to a strictly later phase, so no state is ever
/// re-entered and there is no branching back.
pub proof fn lemma_forward_only(s: StateV, e: EventV)
    ensures
        next_spec(s, e) == s || phase(next_spec(s, e)) > phase(s),
{
}

/// A failed run stays failed with the same error, whatever else happens:
/// after an invalid signature, for instance, an index arrival is never
/// consumed.
pub proof fn lemma_failure_persists(error: ErrorV, events: Seq<EventV>)
    ensures
        run_spec(StateV::Failed { error }, events) == (StateV::Failed { error }),
    decreases events.len(),
{
    if events.len() == 0 {
    } else {
        lemma_failure_persists(error, events.skip(1));
    }
}

/// A signature check reported failed moves a fetched manifest straight to
/// `SignatureInvalid`; no gate after the signature ever runs on it.
pub proof fn lemma_signature_gate(s: StateV)
    ensures
        s is ManifestFetched ==> next_spec(s, EventV::SignatureChecked { ok: false }) == (
        StateV::Failed { error: ErrorV::SignatureInvalid }),
{
}

/// Index bytes whose digest is not the declared one fail with a mismatch
/// tagged for the index link, whatever the bytes would parse to: the check
/// comes before any parsing.
pub proof fn lemma_index_digest_first(expected: Seq<char>, bytes: Seq<u8>)
    ensures
        hex_of(sha256_of(bytes)) != expected ==> index_gate_spec(expected, bytes) == (
        StateV::Failed {
            error: ErrorV::DigestMismatch {
                link: ChainLink::Index,
                expected: expected,
                observed: hex_of(sha256_of(bytes)),
            },
        }),
{
}

/// `ManifestVerified` is newly reached only from a fetched manifest whose
/// signature check was reported passed, and only with the digest that the
/// decoded, parsed manifest declares for the index path; the alternative
/// is an event that left the state as it was.
pub proof fn lemma_manifest_verified_inversion(s: StateV, e: EventV)
    ensures
        next_spec(s, e) matches StateV::ManifestVerified { expected_digest } ==> next_spec(s, e)
            == s || exists|
            m: Seq<u8>,
            sig: Seq<u8>,
        |
            s == (StateV::ManifestFetched { manifest: m, signature: sig }) && e == (
            EventV::SignatureChecked { ok: true }) && manifest_gate_spec(m) == (
            StateV::ManifestVerified { expected_digest }),
{
    match (s, e) {
        (StateV::ManifestFetched { manifest, signature }, EventV::SignatureChecked { ok }) => {
            if ok {
                match manifest_gate_spec(manifest) {
                    StateV::ManifestVerified { expected_digest } => {
                        assert(s == (StateV::ManifestFetched { manifest, signature }) && e == (
                        EventV::SignatureChecked { ok: true }) && manifest_gate_spec(manifest)
                            == (StateV::ManifestVerified { expected_digest }));
                    },
                    _ => {},
                }
            }
        },
        _ => {},
    }
}

/// `PackageFound` is newly reached only from a verified manifest digest,
/// through index bytes that hash to exactly that digest, with the record
/// the index gate selected; the alternative is an event that left the
/// state as it was.
pub proof fn lemma_package_found_inversion(s: StateV, e: EventV)
    ensures
        next_spec(s, e) matches StateV::PackageFound { record } ==> next_spec(s, e) == s
            || exists|
            d: Seq<char>,
            bytes: Seq<u8>,
        |
            s == (StateV::ManifestVerified { expected_digest: d }) && e == (
            EventV::IndexFetched { bytes }) && index_gate_spec(d, bytes) == (
            StateV::PackageFound { record }) && hex_of(sha256_of(bytes)) == d,
{
    match (s, e) {
        (StateV::ManifestVerified { expected_digest }, EventV::IndexFetched { bytes }) => {
            match index_gate_spec(expected_digest, bytes) {
                StateV::PackageFound { record } => {
                    assert(s == (StateV::ManifestVerified { expected_digest }) && e == (
                    EventV::IndexFetched { bytes }) && index_gate_spec(expected_digest, bytes)
                        == (StateV::PackageFound { record }) && hex_of(sha256_of(bytes))
                        == expected_digest);
                },
                _ => {},
            }
        },
        _ => {},
    }
}

/// `ArtifactVerified` is newly reached only from a found record, with
/// exactly the fetched bytes, and only when their digest equals the
/// recorded one; the alternative is an event that left the state as it
/// was.
pub proof fn lemma_artifact_verified_inversion(s: StateV, e: EventV)
    ensures
        next_spec(s, e) matches StateV::ArtifactVerified { artifact } ==> next_spec(s, e) == s
            || exists|rec: RecordV|
            s == (StateV::PackageFound { record: rec }) && e == (
            EventV::ArtifactFetched { bytes: artifact }) && hex_of(sha256_of(artifact))
                == rec.sha256sum,
{
    match (s, e) {
        (StateV::PackageFound { record }, EventV::ArtifactFetched { bytes }) => {
            match artifact_gate_spec(record, bytes) {
                StateV::ArtifactVerified { artifact } => {
                    assert(s == (StateV::PackageFound { record }) && e == (
                    EventV::ArtifactFetched { bytes: artifact }) && hex_of(sha256_of(artifact))
                        == record.sha256sum);
                },
                _ => {},
            }
        },
        _ => {},
    }
}

/// What must have stood behind the state a run is in: each trusted state
/// carries witnesses that every earlier gate passed.
pub open spec fn chain_holds(s: StateV) -> bool {
    match s {
        StateV::ManifestVerified { expected_digest } => exists|m: Seq<u8>|
            manifest_gate_spec(m) == (StateV::ManifestVerified { expected_digest }),
        StateV::PackageFound { record } => exists|m: Seq<u8>, d: Seq<char>, idx: Seq<u8>|
            manifest_gate_spec(m) == (StateV::ManifestVerified { expected_digest: d })
                && index_gate_spec(d, idx) == (StateV::PackageFound { record }),
        StateV::ArtifactVerified { artifact } => exists|
            m: Seq<u8>,
            d: Seq<char>,
            idx: Seq<u8>,
            rec: RecordV,
        |
            manifest_gate_spec(m) == (StateV::ManifestVerified { expected_digest: d })
                && index_gate_spec(d, idx) == (StateV::PackageFound { record: rec })
                && artifact_gate_spec(rec, artifact) == (StateV::ArtifactVerified { artifact }),
        _ => true,
    }
}

/// One transition preserves the chain witnesses.
pub proof fn lemma_chain_step(s: StateV, e: EventV)
    requires
        chain_holds(s),
    ensures
        chain_holds(next_spec(s, e)),
{
    match (s, e) {
        (StateV::ManifestFetched { manifest, signature }, EventV::SignatureChecked { ok }) => {
            if ok {
                match manifest_gate_spec(manifest) {
                    StateV::ManifestVerified { expected_digest } => {
                        assert(manifest_gate_spec(manifest) == (StateV::ManifestVerified {
                            expected_digest,
                        }));
                    },
                    _ => {},
                }
            }
        },
        (StateV::ManifestVerified { expected_digest }, EventV::IndexFetched { bytes }) => {
            let m = choose|m: Seq<u8>|
                manifest_gate_spec(m) == (StateV::ManifestVerified { expected_digest });
            match index_gate_spec(expected_digest, bytes) {
                StateV::PackageFound { record } => {
                    assert(manifest_gate_spec(m) == (StateV::ManifestVerified { expected_digest })
                        && index_gate_spec(expected_digest, bytes) == (StateV::PackageFound {
                        record,
                    }));
                },
                _ => {},
            }
        },
        (StateV::PackageFound { record }, EventV::ArtifactFetched { bytes }) => {
            let (m, d, idx) = choose|m: Seq<u8>, d: Seq<char>, idx: Seq<u8>|
                manifest_gate_spec(m) == (StateV::ManifestVerified { expected_digest: d })
                    && index_gate_spec(d, idx) == (StateV::PackageFound { record });
            match artifact_gate_spec(record, bytes) {
                StateV::ArtifactVerified { artifact } => {
                    assert(manifest_gate_spec(m) == (StateV::ManifestVerified {
                        expected_digest: d,
                    }) && index_gate_spec(d, idx) == (StateV::PackageFound { record })
                        && artifact_gate_spec(record, artifact) == (StateV::ArtifactVerified {
                        artifact,
                    }));
                },
                _ => {},
            }
        },
        _ => {},
    }
}

/// A whole run preserves the chain witnesses.
pub proof fn lemma_chain_run(s: StateV, events: Seq<EventV>)
    requires
        chain_holds(s),
    ensures
        chain_holds(run_spec(s, events)),
    decreases events.len(),
{
    if events.len() == 0 {
    } else {
        lemma_chain_step(s, events[0]);
        lemma_chain_run(next_spec(s, events[0]), events.skip(1));
    }
}

/// The converse of the chain theorem: success is owed.  When the manifest
/// gate accepts the fetched manifest, the index gate accepts the fetched
/// index under the declared digest, and the artifact bytes hash to the
/// found record's digest, the four-event run from `Start` ends at
/// `ArtifactVerified` with exactly those bytes.
pub proof fn lemma_run_success(
    manifest: Seq<u8>,
    signature: Seq<u8>,
    d: Seq<char>,
    index: Seq<u8>,
    rec: RecordV,
    artifact: Seq<u8>,
)
    requires
        manifest_gate_spec(manifest) == (StateV::ManifestVerified { expected_digest: d }),
        index_gate_spec(d, index) == (StateV::PackageFound { record: rec }),
        hex_of(sha256_of(artifact)) == rec.sha256sum,
    ensures
        run_spec(
            StateV::Start,
            seq![
                EventV::ManifestFetched { manifest, signature },
                EventV::SignatureChecked { ok: true },
                EventV::IndexFetched { bytes: index },
                EventV::ArtifactFetched { bytes: artifact },
            ],
        ) == (StateV::ArtifactVerified { artifact }),
{
    let e1 = EventV::ManifestFetched { manifest, signature };
    let e2 = EventV::SignatureChecked { ok: true };
    let e3 = EventV::IndexFetched { bytes: index };
    let e4 = EventV::ArtifactFetched { bytes: artifact };
    let evs = seq![e1, e2, e3, e4];
    assert(next_spec(StateV::Start, e1) == (StateV::ManifestFetched { manifest, signature }));
    assert(next_spec(StateV::ManifestFetched { manifest, signature }, e2) == (
    StateV::ManifestVerified { expected_digest: d }));
    assert(next_spec(StateV::ManifestVerified { expected_digest: d }, e3) == (
    StateV::PackageFound { record: rec }));
    assert(next_spec(StateV::PackageFound { record: rec }, e4) == (StateV::ArtifactVerified {
        artifact,
    }));
    assert(evs.skip(1) =~= seq![e2, e3, e4]);
    assert(evs.skip(1).skip(1) =~= seq![e3, e4]);
    assert(evs.skip(1).skip(1).skip(1) =~= seq![e4]);
    assert(evs.skip(1).skip(1).skip(1).skip(1) =~= Seq::<EventV>::empty());
    let s1 = StateV::ManifestFetched { manifest, signature };
    let s2 = StateV::ManifestVerified { expected_digest: d };
    let s3 = StateV::PackageFound { record: rec };
    let s4 = StateV::ArtifactVerified { artifact };
    assert(run_spec(StateV::Start, evs) == run_spec(s1, evs.skip(1)));
    assert(run_spec(s1, evs.skip(1)) == run_spec(s2, evs.skip(1).skip(1)));
    assert(run_spec(s2, evs.skip(1).skip(1)) == run_spec(s3, evs.skip(1).skip(1).skip(1)));
    assert(run_spec(s3, evs.skip(1).skip(1).skip(1)) == run_spec(
        s4,
        evs.skip(1).skip(1).skip(1).skip(1),
    ));
    assert(run_spec(s4, evs.skip(1).skip(1).skip(1).skip(1)) == s4);
}

/// The trust chain, end to end: a run from `Start` hands back verified
/// artifact bytes only if some signature-passed manifest declared a digest
/// for the index path, some index bytes hashed to exactly that digest and
/// parsed to records holding the target package, and the artifact bytes
/// hash to exactly the digest that record declares.
pub proof fn lemma_trust_chain(events: Seq<EventV>)
    ensures
        run_spec(StateV::Start, events) matches StateV::ArtifactVerified { artifact } ==> exists|
            m: Seq<u8>,
            d: Seq<char>,
            idx: Seq<u8>,
            rec: RecordV,
        |
            manifest_gate_spec(m) == (StateV::ManifestVerified { expected_digest: d })
                && index_gate_spec(d, idx) == (StateV::PackageFound { record: rec })
                && artifact_gate_spec(rec, artifact) == (StateV::ArtifactVerified { artifact }),
{
    lemma_chain_run(StateV::Start, events);
}

} // verus!
