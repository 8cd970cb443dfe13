//! Secure pairing of nodes: the coordinator issues a random challenge,
//! the node signs it with its key, and the coordinator, having checked the
//! signature, issues a device certificate that it signs itself.
//!
//! Signatures are Ed25519. A challenge is kept under `<node id>:<hex of its
//! first 8 bytes>` for 300 seconds; a certificate is valid for 365 days and
//! its signed text is `<node id>:<cluster id>:<hex of public key>:<issued>:<expires>`.

use vstd::prelude::*;
use crate::kvmap::{keys_unique, seq_to_map, lemma_map_absent, lemma_map_lookup, lemma_map_domain, lemma_map_push, lemma_unique_push, lemma_map_update, lemma_map_remove, lemma_map_len};
use crate::model_registry::{sha256, sha256_digest};
use crate::text::{hex_lower, hex_encode, signed_decimal, i64_to_decimal, str_eq};
use crate::types::{NodeId, ClusterId, uuid_text, uuid_string, new_uuid, now_secs};

verus! {

/// Seconds a challenge stays valid.
pub const CHALLENGE_LIFETIME_SECS: u64 = 300;

/// Seconds a certificate stays valid: 365 days.
pub const CERTIFICATE_LIFETIME_SECS: i64 = 365 * 24 * 60 * 60;

/// Pairing errors.
#[derive(Debug, Clone, PartialEq, Eq)]
pub enum PairingError {
    /// No challenge is pending under the response's key.
    ChallengeNotFound,
    /// The challenge is older than its lifetime.
    ChallengeExpired,
    /// The public key is not a valid Ed25519 key.
    InvalidPublicKey,
    /// The signature bytes are not an Ed25519 signature.
    InvalidSignature,
    /// The signature does not verify.
    VerificationFailed,
}

/// What checking an Ed25519 signature found.
#[derive(Debug, Clone, Copy, PartialEq, Eq, Structural)]
pub enum SignatureCheck {
    BadKey,
    BadSignature,
    Invalid,
    Valid,
}

/// The 32 bytes are the compressed form of a point on the curve.
pub uninterp spec fn key_decompresses(public_key: Seq<u8>) -> bool;

/// The signature verifies for the message under the public key.
pub uninterp spec fn signature_verifies(public_key: Seq<u8>, message: Seq<u8>, signature: Seq<u8>) -> bool;

/// `ed25519_dalek::PublicKey::from_bytes` accepts 32 bytes that decompress.
pub open spec fn key_ok(public_key: Seq<u8>) -> bool {
    public_key.len() == 32 && key_decompresses(public_key)
}

/// `ed25519_dalek::Signature::from_bytes` accepts 64 bytes whose last byte
/// has its three high bits clear.
pub open spec fn signature_bytes_ok(signature: Seq<u8>) -> bool {
    signature.len() == 64 && signature[63] < 32
}

pub open spec fn check_result(public_key: Seq<u8>, message: Seq<u8>, signature: Seq<u8>) -> SignatureCheck {
    if !key_ok(public_key) {
        SignatureCheck::BadKey
    } else if !signature_bytes_ok(signature) {
        SignatureCheck::BadSignature
    } else if signature_verifies(public_key, message, signature) {
        SignatureCheck::Valid
    } else {
        SignatureCheck::Invalid
    }
}

/// `ed25519_dalek::PublicKey::from_bytes`, `ed25519_dalek::Signature::from_bytes`
/// and `Verifier::verify`: the key is read (32 bytes that decompress to a
/// curve point), then the signature (64 bytes, the last below 32), then
/// the signature is verified; the first step that fails says why.
#[verifier::external_body]
fn ed25519_check(public_key: &[u8], message: &[u8], signature: &[u8]) -> (r: SignatureCheck)
    ensures
        !(public_key@.len() == 32 && key_decompresses(public_key@)) ==> r == SignatureCheck::BadKey,
        public_key@.len() == 32 && key_decompresses(public_key@) && !signature_bytes_ok(signature@) ==> r == SignatureCheck::BadSignature,
        public_key@.len() == 32 && key_decompresses(public_key@) && signature_bytes_ok(signature@) ==>
            r == (if signature_verifies(public_key@, message@, signature@) { SignatureCheck::Valid } else { SignatureCheck::Invalid }),
{
    let key = match ed25519_dalek::PublicKey::from_bytes(public_key) {
        Ok(k) => k,
        Err(_) => return SignatureCheck::BadKey,
    };
    let sig = match ed25519_dalek::Signature::from_bytes(signature) {
        Ok(s) => s,
        Err(_) => return SignatureCheck::BadSignature,
    };
    match ed25519_dalek::Verifier::verify(&key, message, &sig) {
        Ok(()) => SignatureCheck::Valid,
        Err(_) => SignatureCheck::Invalid,
    }
}

/// The 32 bytes of the public key that belongs to a 32-byte secret key
/// (`ed25519_dalek::PublicKey::from(&SecretKey)`).
pub uninterp spec fn ed25519_public_of(secret: Seq<u8>) -> Seq<u8>;

/// The signature that `Signer::sign` makes of a message with the key pair
/// whose 64 bytes are given (Ed25519 signing is deterministic).
pub uninterp spec fn ed25519_signature(key_pair: Seq<u8>, message: Seq<u8>) -> Seq<u8>;

/// The 64 bytes of a key pair: a secret key, then the public key that
/// belongs to it, which decompresses to a curve point.
pub open spec fn key_pair_ok(key_pair: Seq<u8>) -> bool {
    &&& key_pair.len() == 64
    &&& key_pair.subrange(32, 64) == ed25519_public_of(key_pair.subrange(0, 32))
    &&& key_decompresses(key_pair.subrange(32, 64))
}

/// `ed25519_dalek::Keypair::generate` with the operating system's random
/// source, as the pair's 64 bytes (`Keypair::to_bytes`): a fresh secret key
/// and the public key computed from it, which decompresses like every
/// compressed curve point.
#[verifier::external_body]
fn ed25519_generate() -> (r: Vec<u8>)
    ensures
        key_pair_ok(r@),
{
    ed25519_dalek::Keypair::generate(&mut rand::rngs::OsRng).to_bytes().to_vec()
}

/// `Signer::sign` with the key pair read from its 64 bytes
/// (`Keypair::from_bytes`, which only fails on a public key that does not
/// decompress): the 64-byte signature of `message`, whose scalar half is
/// reduced so that its last byte is below 32, and which verifies under the
/// pair's public key when that key belongs to its secret key.
#[verifier::external_body]
fn ed25519_sign(key_pair: &[u8], message: &[u8]) -> (r: Vec<u8>)
    requires
        key_pair@.len() == 64,
        key_decompresses(key_pair@.subrange(32, 64)),
    ensures
        r@ == ed25519_signature(key_pair@, message@),
        signature_bytes_ok(r@),
        key_pair@.subrange(32, 64) == ed25519_public_of(key_pair@.subrange(0, 32))
            ==> signature_verifies(key_pair@.subrange(32, 64), message@, r@),
{
    let pair = ed25519_dalek::Keypair::from_bytes(key_pair).unwrap();
    ed25519_dalek::Signer::sign(&pair, message).to_bytes().to_vec()
}

/// `RngCore::fill_bytes` on the operating system's random source: 32 random bytes.
#[verifier::external_body]
pub(crate) fn random_challenge() -> (r: Vec<u8>)
    ensures
        r@.len() == 32,
{
    let mut bytes = [0u8; 32];
    rand::RngCore::fill_bytes(&mut rand::rngs::OsRng, &mut bytes);
    bytes.to_vec()
}

/// Device certificate issued by the coordinator.
#[derive(Debug)]
pub struct DeviceCertificate {
    pub node_id: NodeId,
    pub cluster_id: ClusterId,
    pub public_key: Vec<u8>,
    pub issued_at: i64,
    pub expires_at: i64,
    pub coordinator_signature: Vec<u8>,
}

/// What a certificate says.
pub struct CertificateView {
    pub node_id: NodeId,
    pub cluster_id: ClusterId,
    pub public_key: Seq<u8>,
    pub issued_at: i64,
    pub expires_at: i64,
    pub coordinator_signature: Seq<u8>,
}

impl View for DeviceCertificate {
    type V = CertificateView;

    open spec fn view(&self) -> CertificateView {
        CertificateView {
            node_id: self.node_id,
            cluster_id: self.cluster_id,
            public_key: self.public_key@,
            issued_at: self.issued_at,
            expires_at: self.expires_at,
            coordinator_signature: self.coordinator_signature@,
        }
    }
}

impl Clone for DeviceCertificate {
    fn clone(&self) -> (r: Self)
        ensures
            r@ == self@,
    {
        let pk = self.public_key.clone();
        let sig = self.coordinator_signature.clone();
        assert(pk@ =~= self.public_key@);
        assert(sig@ =~= self.coordinator_signature@);
        DeviceCertificate {
            node_id: self.node_id,
            cluster_id: self.cluster_id,
            public_key: pk,
            issued_at: self.issued_at,
            expires_at: self.expires_at,
            coordinator_signature: sig,
        }
    }
}

/// Pairing request from a node.
#[derive(Debug, Clone)]
pub struct PairingRequest {
    pub node_name: String,
    pub hostname: String,
    pub cluster_id: ClusterId,
    pub public_key: Vec<u8>,
    pub fingerprint: String,
}

/// Pairing challenge from the coordinator.
#[derive(Debug, Clone)]
pub struct PairingChallenge {
    pub node_id: NodeId,
    pub challenge: Vec<u8>,
    pub coordinator_public_key: Vec<u8>,
}

/// Pairing response from a node.
#[derive(Debug, Clone)]
pub struct PairingResponse {
    pub node_id: NodeId,
    pub challenge_response: Vec<u8>,
    pub challenge_signature: Vec<u8>,
}

/// A challenge waiting for its response; the time is in seconds since the epoch.
#[derive(Debug)]
pub struct PendingChallenge {
    pub node_id: NodeId,
    pub challenge: Vec<u8>,
    pub timestamp: i64,
    pub expires_in_seconds: u64,
}

/// What a pending challenge says.
pub struct PendingView {
    pub node_id: NodeId,
    pub challenge: Seq<u8>,
    pub timestamp: i64,
    pub expires_in_seconds: u64,
}

pub open spec fn pending_view(p: PendingChallenge) -> PendingView {
    PendingView { node_id: p.node_id, challenge: p.challenge@, timestamp: p.timestamp, expires_in_seconds: p.expires_in_seconds }
}

/// A paired node: its key and certificate.
#[derive(Debug)]
pub struct NodeKeyPair {
    pub node_id: NodeId,
    pub public_key: Vec<u8>,
    pub certificate: DeviceCertificate,
}

/// What the pairing manager holds.
pub struct PairingView {
    pub cluster_id: ClusterId,
    pub public_key: Seq<u8>,
    pub pending: Map<Seq<char>, PendingView>,
    pub nodes: Map<NodeId, CertificateView>,
}

/// The key a challenge is kept under.
pub open spec fn challenge_key(node_id: NodeId, challenge: Seq<u8>) -> Seq<char> {
    uuid_text(node_id) + seq![':'] + hex_lower(challenge.take(8))
}

/// The text a certificate's signature covers.
pub open spec fn certificate_text(c: CertificateView) -> Seq<char> {
    uuid_text(c.node_id) + seq![':'] + uuid_text(c.cluster_id) + seq![':'] + hex_lower(c.public_key) + seq![':']
        + signed_decimal(c.issued_at as int) + seq![':'] + signed_decimal(c.expires_at as int)
}

/// The digest a certificate's signature covers.
pub open spec fn certificate_digest(c: CertificateView) -> Seq<u8> {
    sha256(vstd::utf8::encode_utf8(certificate_text(c)))
}

/// A challenge pending since `timestamp` has expired at `now`.
pub open spec fn expired(p: PendingView, now: i64) -> bool {
    now - p.timestamp > p.expires_in_seconds as int
}

/// The pending challenges left after dropping those expired at `now`.
pub open spec fn after_cleanup(m: Map<Seq<char>, PendingView>, now: i64) -> Map<Seq<char>, PendingView> {
    m.restrict(m.dom().filter(|k: Seq<char>| !expired(m[k], now)))
}

/// Times are within the range of chrono dates.
pub open spec fn time_ok(t: i64) -> bool {
    -10_000_000_000_000 < t < 10_000_000_000_000
}

/// A stored challenge has a time within range and the standard lifetime.
pub open spec fn pending_ok(p: PendingChallenge) -> bool {
    time_ok(p.timestamp) && p.expires_in_seconds == CHALLENGE_LIFETIME_SECS
}

pub open spec fn pending_pairs(s: Seq<(String, PendingChallenge)>) -> Seq<(Seq<char>, PendingView)> {
    s.map_values(|p: (String, PendingChallenge)| (p.0@, pending_view(p.1)))
}

pub open spec fn node_pairs(s: Seq<(NodeId, NodeKeyPair)>) -> Seq<(NodeId, CertificateView)> {
    s.map_values(|p: (NodeId, NodeKeyPair)| (p.0, p.1.certificate@))
}

/// The outcome of verifying a pairing response with the challenge checked
/// at `checked_at` and the certificate issued at `issued_at`.
pub open spec fn verify_outcome(
    old_v: PairingView,
    new_v: PairingView,
    response: PairingResponse,
    node_public_key: Seq<u8>,
    checked_at: i64,
    issued_at: i64,
    r: Result<DeviceCertificate, PairingError>,
) -> bool {
    let key = challenge_key(response.node_id, response.challenge_response@);
    if !old_v.pending.contains_key(key) {
        r == Err::<DeviceCertificate, PairingError>(PairingError::ChallengeNotFound) && new_v == old_v
    } else {
        let p = old_v.pending[key];
        &&& new_v.cluster_id == old_v.cluster_id
        &&& new_v.public_key == old_v.public_key
        &&& new_v.pending == old_v.pending.remove(key)
        &&& if expired(p, checked_at) {
            r == Err::<DeviceCertificate, PairingError>(PairingError::ChallengeExpired) && new_v.nodes == old_v.nodes
        } else {
            match check_result(node_public_key, p.challenge, response.challenge_signature@) {
                SignatureCheck::BadKey => r == Err::<DeviceCertificate, PairingError>(PairingError::InvalidPublicKey) && new_v.nodes == old_v.nodes,
                SignatureCheck::BadSignature => r == Err::<DeviceCertificate, PairingError>(PairingError::InvalidSignature) && new_v.nodes == old_v.nodes,
                SignatureCheck::Invalid => r == Err::<DeviceCertificate, PairingError>(PairingError::VerificationFailed) && new_v.nodes == old_v.nodes,
                SignatureCheck::Valid => r matches Ok(c) && {
                    &&& c@.node_id == response.node_id
                    &&& c@.cluster_id == old_v.cluster_id
                    &&& c@.public_key == node_public_key
                    &&& c@.issued_at == issued_at
                    &&& c@.expires_at == issued_at + CERTIFICATE_LIFETIME_SECS
                    &&& signature_bytes_ok(c@.coordinator_signature)
                    &&& signature_verifies(old_v.public_key, certificate_digest(c@), c@.coordinator_signature)
                    &&& new_v.nodes == old_v.nodes.insert(response.node_id, c@)
                },
            }
        }
    }
}

/// What checking a certificate at `now` gives: `false` once it has
/// expired; else whether the coordinator's signature of its digest
/// verifies, unreadable keys and signature bytes being errors.
pub open spec fn certificate_check(coordinator_public_key: Seq<u8>, c: CertificateView, now: i64) -> Result<bool, PairingError> {
    if now > c.expires_at {
        Ok(false)
    } else {
        match check_result(coordinator_public_key, certificate_digest(c), c.coordinator_signature) {
            SignatureCheck::BadKey => Err(PairingError::InvalidPublicKey),
            SignatureCheck::BadSignature => Err(PairingError::InvalidSignature),
            SignatureCheck::Invalid => Ok(false),
            SignatureCheck::Valid => Ok(true),
        }
    }
}

/// The pairing manager of the coordinator, or of a node.
pub struct PairingManager {
    cluster_id: ClusterId,
    pending_challenges: Vec<(String, PendingChallenge)>,
    node_keys: Vec<(NodeId, NodeKeyPair)>,
    key_pair: Vec<u8>,
    public_key_bytes: Vec<u8>,
}

impl View for PairingManager {
    type V = PairingView;

    closed spec fn view(&self) -> PairingView {
        PairingView {
            cluster_id: self.cluster_id,
            public_key: self.public_key_bytes@,
            pending: seq_to_map(pending_pairs(self.pending_challenges@)),
            nodes: seq_to_map(node_pairs(self.node_keys@)),
        }
    }
}

/// `<node id>:<hex of the first 8 bytes>`.
fn make_challenge_key(node_id: NodeId, challenge: &[u8]) -> (r: String)
    requires
        challenge@.len() >= 8,
    ensures
        r@ == challenge_key(node_id, challenge@),
{
    let mut s = uuid_string(node_id);
    s.append(":");
    let mut head: Vec<u8> = Vec::new();
    let mut i: usize = 0;
    while i < 8
        invariant
            i <= 8,
            challenge@.len() >= 8,
            head@ == challenge@.take(i as int),
        decreases 8 - i,
    {
        head.push(challenge[i]);
        assert(challenge@.take(i + 1) =~= challenge@.take(i as int).push(challenge@[i as int]));
        i = i + 1;
    }
    let hx = hex_encode(head.as_slice());
    s.append(hx.as_str());
    proof {
        reveal_strlit(":");
    }
    s
}

/// The text a certificate's signature covers.
fn make_certificate_text(node_id: NodeId, cluster_id: ClusterId, public_key: &[u8], issued_at: i64, expires_at: i64) -> (r: String)
    ensures
        r@ == certificate_text(CertificateView {
            node_id,
            cluster_id,
            public_key: public_key@,
            issued_at,
            expires_at,
            coordinator_signature: Seq::empty(),
        }),
{
    proof {
        reveal_strlit(":");
    }
    let mut s = uuid_string(node_id);
    s.append(":");
    let c = uuid_string(cluster_id);
    s.append(c.as_str());
    s.append(":");
    let k = hex_encode(public_key);
    s.append(k.as_str());
    s.append(":");
    let a = i64_to_decimal(issued_at);
    s.append(a.as_str());
    s.append(":");
    let b = i64_to_decimal(expires_at);
    s.append(b.as_str());
    s
}

impl PairingManager {
    /// One entry per challenge key and per node; the public key is 32
    /// bytes; challenge times are within the range of chrono dates.
    pub closed spec fn wf(&self) -> bool {
        &&& keys_unique(pending_pairs(self.pending_challenges@))
        &&& keys_unique(node_pairs(self.node_keys@))
        &&& key_pair_ok(self.key_pair@)
        &&& self.public_key_bytes@ == self.key_pair@.subrange(32, 64)
        &&& forall|i: int| 0 <= i < self.pending_challenges@.len() ==> pending_ok(#[trigger] self.pending_challenges@[i].1)
    }

    /// The public key of a well-formed manager is 32 bytes that
    /// `PublicKey::from_bytes` accepts.
    pub proof fn lemma_public_key_ok(&self)
        requires
            self.wf(),
        ensures
            self@.public_key.len() == 32,
            key_ok(self@.public_key),
    {
    }

    pub(crate) fn with_key(cluster_id: ClusterId) -> (r: Self)
        ensures
            r.wf(),
            r@.cluster_id == cluster_id,
            r@.public_key.len() == 32,
            r@.pending == Map::<Seq<char>, PendingView>::empty(),
            r@.nodes == Map::<NodeId, CertificateView>::empty(),
    {
        let key_pair = ed25519_generate();
        let public_key_bytes = vstd::slice::slice_to_vec(vstd::slice::slice_subrange(key_pair.as_slice(), 32, 64));
        let r = PairingManager { cluster_id, pending_challenges: Vec::new(), node_keys: Vec::new(), key_pair, public_key_bytes };
        assert(pending_pairs(r.pending_challenges@) =~= Seq::empty());
        assert(node_pairs(r.node_keys@) =~= Seq::empty());
        r
    }

    /// A pairing manager for the coordinator of a cluster, with a fresh key.
    pub fn new_coordinator(cluster_id: ClusterId) -> (r: Result<Self, PairingError>)
        ensures
            r matches Ok(m) && m.wf() && m@.cluster_id == cluster_id && m@.public_key.len() == 32
                && m@.pending == Map::<Seq<char>, PendingView>::empty()
                && m@.nodes == Map::<NodeId, CertificateView>::empty(),
    {
        Ok(Self::with_key(cluster_id))
    }

    /// A pairing manager for a node of a cluster, with a fresh key.
    pub fn new_node(cluster_id: ClusterId) -> (r: Result<Self, PairingError>)
        ensures
            r matches Ok(m) && m.wf() && m@.cluster_id == cluster_id && m@.public_key.len() == 32
                && m@.pending == Map::<Seq<char>, PendingView>::empty()
                && m@.nodes == Map::<NodeId, CertificateView>::empty(),
    {
        Ok(Self::with_key(cluster_id))
    }

    fn find_pending(&self, key: &str) -> (r: Option<usize>)
        ensures
            match r {
                Some(i) => i < self.pending_challenges@.len() && self.pending_challenges@[i as int].0@ == key@,
                None => forall|i: int| 0 <= i < self.pending_challenges@.len() ==> self.pending_challenges@[i].0@ != key@,
            },
    {
        let mut i: usize = 0;
        while i < self.pending_challenges.len()
            invariant
                i <= self.pending_challenges@.len(),
                forall|j: int| 0 <= j < i ==> self.pending_challenges@[j].0@ != key@,
            decreases self.pending_challenges@.len() - i,
        {
            if str_eq(self.pending_challenges[i].0.as_str(), key) {
                return Some(i);
            }
            i = i + 1;
        }
        None
    }

    fn find_node(&self, node_id: NodeId) -> (r: Option<usize>)
        ensures
            match r {
                Some(i) => i < self.node_keys@.len() && self.node_keys@[i as int].0 == node_id,
                None => forall|i: int| 0 <= i < self.node_keys@.len() ==> self.node_keys@[i].0 != node_id,
            },
    {
        let mut i: usize = 0;
        while i < self.node_keys.len()
            invariant
                i <= self.node_keys@.len(),
                forall|j: int| 0 <= j < i ==> self.node_keys@[j].0 != node_id,
            decreases self.node_keys@.len() - i,
        {
            if self.node_keys[i].0 == node_id {
                return Some(i);
            }
            i = i + 1;
        }
        None
    }

    /// Issues a challenge to a node joining: the challenge names the node by
    /// the id the request carries, holds 32 random bytes, is kept from now
    /// for 300 seconds, and carries this manager's public key.
    pub fn generate_challenge(&mut self, request: &PairingRequest) -> (r: Result<PairingChallenge, PairingError>)
        requires
            old(self).wf(),
        ensures
            final(self).wf(),
            final(self)@.cluster_id == old(self)@.cluster_id,
            final(self)@.public_key == old(self)@.public_key,
            final(self)@.nodes == old(self)@.nodes,
            r matches Ok(c) && {
                let key = challenge_key(c.node_id, c.challenge@);
                &&& c.node_id == request.cluster_id
                &&& c.challenge@.len() == 32
                &&& c.coordinator_public_key@ == old(self)@.public_key
                &&& final(self)@.pending.contains_key(key)
                &&& time_ok(final(self)@.pending[key].timestamp)
                &&& final(self)@.pending == old(self)@.pending.insert(key, PendingView {
                        node_id: c.node_id,
                        challenge: c.challenge@,
                        timestamp: final(self)@.pending[key].timestamp,
                        expires_in_seconds: CHALLENGE_LIFETIME_SECS,
                    })
            },
    {
        let challenge = random_challenge();
        let now = now_secs();
        Ok(self.generate_challenge_at(request.cluster_id, challenge, now))
    }

    /// Issues the challenge `challenge` to the node `node_id` at `now`
    /// (seconds since the epoch): it is kept, under `<node id>:<hex of its
    /// first 8 bytes>`, for 300 seconds from `now`, replacing a challenge
    /// kept under the same key, and comes back with this manager's public key.
    pub fn generate_challenge_at(&mut self, node_id: NodeId, challenge: Vec<u8>, now: i64) -> (r: PairingChallenge)
        requires
            old(self).wf(),
            challenge@.len() >= 8,
            time_ok(now),
        ensures
            final(self).wf(),
            final(self)@.cluster_id == old(self)@.cluster_id,
            final(self)@.public_key == old(self)@.public_key,
            final(self)@.nodes == old(self)@.nodes,
            r.node_id == node_id,
            r.challenge@ == challenge@,
            r.coordinator_public_key@ == old(self)@.public_key,
            final(self)@.pending == old(self)@.pending.insert(challenge_key(node_id, challenge@), PendingView {
                node_id,
                challenge: challenge@,
                timestamp: now,
                expires_in_seconds: CHALLENGE_LIFETIME_SECS,
            }),
    {
        let key = make_challenge_key(node_id, challenge.as_slice());
        let mut stored: Vec<u8> = Vec::new();
        let mut i: usize = 0;
        while i < challenge.len()
            invariant
                i <= challenge@.len(),
                stored@ == challenge@.take(i as int),
            decreases challenge@.len() - i,
        {
            stored.push(challenge[i]);
            assert(challenge@.take(i + 1) =~= challenge@.take(i as int).push(challenge@[i as int]));
            i = i + 1;
        }
        assert(challenge@.take(i as int) =~= challenge@);
        let pending = PendingChallenge { node_id, challenge: stored, timestamp: now, expires_in_seconds: CHALLENGE_LIFETIME_SECS };
        let ghost pv = pending_view(pending);
        let ghost ps = pending_pairs(self.pending_challenges@);
        match self.find_pending(key.as_str()) {
            Some(k) => {
                proof {
                    lemma_map_update(ps, k as int, pv);
                }
                let ghost old_entries = self.pending_challenges@;
                let (old_key, _) = self.pending_challenges.remove(k);
                self.pending_challenges.insert(k, (old_key, pending));
                proof {
                    assert(pending_pairs(self.pending_challenges@) =~= ps.update(k as int, (ps[k as int].0, pv)));
                    assert forall|j: int| 0 <= j < self.pending_challenges@.len() implies pending_ok(#[trigger] self.pending_challenges@[j].1) by {
                        if j != k {
                            assert(self.pending_challenges@[j] == old_entries[j]);
                        }
                    }
                }
            },
            None => {
                proof {
                    lemma_unique_push(ps, key@, pv);
                    lemma_map_push(ps, key@, pv);
                }
                let k2 = key.clone();
                self.pending_challenges.push((k2, pending));
                assert(pending_pairs(self.pending_challenges@) =~= ps.push((key@, pv)));
            },
        }
        let public = self.public_key_bytes.clone();
        assert(public@ =~= self.public_key_bytes@);
        PairingChallenge { node_id, challenge, coordinator_public_key: public }
    }


    /// Removes and returns the challenge pending under `key`.
    fn take_pending(&mut self, key: &str) -> (r: Option<PendingChallenge>)
        requires
            old(self).wf(),
        ensures
            final(self).wf(),
            final(self)@.cluster_id == old(self)@.cluster_id,
            final(self)@.public_key == old(self)@.public_key,
            final(self)@.nodes == old(self)@.nodes,
            final(self).key_pair == old(self).key_pair,
            !old(self)@.pending.contains_key(key@) ==> r is None && final(self)@ == old(self)@,
            old(self)@.pending.contains_key(key@) ==> (r matches Some(p) && pending_view(p) == old(self)@.pending[key@]
                && pending_ok(p))
                && final(self)@.pending == old(self)@.pending.remove(key@),
    {
        let ghost ps = pending_pairs(self.pending_challenges@);
        match self.find_pending(key) {
            Some(k) => {
                proof {
                    lemma_map_lookup(ps, k as int);
                    lemma_map_remove(ps, k as int);
                }
                let ghost old_entries = self.pending_challenges@;
                let (_, p) = self.pending_challenges.remove(k);
                proof {
                    assert(pending_pairs(self.pending_challenges@) =~= ps.remove(k as int));
                    assert(pending_ok(old_entries[k as int].1));
                    assert forall|j: int| 0 <= j < self.pending_challenges@.len() implies pending_ok(#[trigger] self.pending_challenges@[j].1) by {
                        let j2 = if j < k { j } else { j + 1 };
                        assert(self.pending_challenges@[j] == old_entries[j2]);
                    }
                }
                Some(p)
            },
            None => {
                proof {
                    lemma_map_absent(ps, key@);
                }
                None
            },
        }
    }

    /// Records the certificate of a paired node, replacing an earlier one.
    fn store_node(&mut self, cert: DeviceCertificate)
        requires
            old(self).wf(),
        ensures
            final(self).wf(),
            final(self)@.cluster_id == old(self)@.cluster_id,
            final(self)@.public_key == old(self)@.public_key,
            final(self)@.pending == old(self)@.pending,
            final(self)@.nodes == old(self)@.nodes.insert(cert.node_id, cert@),
    {
        let ghost ps = node_pairs(self.node_keys@);
        let ghost cv = cert@;
        let node_id = cert.node_id;
        let pk = cert.public_key.clone();
        let entry = NodeKeyPair { node_id, public_key: pk, certificate: cert };
        match self.find_node(node_id) {
            Some(k) => {
                proof {
                    lemma_map_update(ps, k as int, cv);
                }
                self.node_keys.set(k, (node_id, entry));
                assert(node_pairs(self.node_keys@) =~= ps.update(k as int, (ps[k as int].0, cv)));
            },
            None => {
                proof {
                    lemma_unique_push(ps, node_id, cv);
                    lemma_map_push(ps, node_id, cv);
                }
                self.node_keys.push((node_id, entry));
                assert(node_pairs(self.node_keys@) =~= ps.push((node_id, cv)));
            },
        }
    }

    /// Checks a node's response to its challenge, with the challenge's age
    /// taken at `checked_at` and the certificate issued at `issued_at`
    /// (seconds since the epoch). The challenge is used up either way.
    pub fn verify_response_at(
        &mut self,
        response: &PairingResponse,
        node_public_key: &[u8],
        checked_at: i64,
        issued_at: i64,
    ) -> (r: Result<DeviceCertificate, PairingError>)
        requires
            old(self).wf(),
            response.challenge_response@.len() >= 8,
            time_ok(checked_at),
            time_ok(issued_at),
        ensures
            final(self).wf(),
            verify_outcome(old(self)@, final(self)@, *response, node_public_key@, checked_at, issued_at, r),
    {
        let key = make_challenge_key(response.node_id, response.challenge_response.as_slice());
        assert(challenge_key(response.node_id, response.challenge_response@) == key@);
        let pending = match self.take_pending(key.as_str()) {
            Some(p) => p,
            None => return Err(PairingError::ChallengeNotFound),
        };
        let elapsed = checked_at - pending.timestamp;
        if elapsed > pending.expires_in_seconds as i64 {
            return Err(PairingError::ChallengeExpired);
        }
        match ed25519_check(node_public_key, pending.challenge.as_slice(), response.challenge_signature.as_slice()) {
            SignatureCheck::BadKey => return Err(PairingError::InvalidPublicKey),
            SignatureCheck::BadSignature => return Err(PairingError::InvalidSignature),
            SignatureCheck::Invalid => return Err(PairingError::VerificationFailed),
            SignatureCheck::Valid => {},
        }
        let expires = issued_at + CERTIFICATE_LIFETIME_SECS;
        let text = make_certificate_text(response.node_id, self.cluster_id, node_public_key, issued_at, expires);
        proof {
            vstd::utf8::encode_utf8_decode_utf8(text@);
        }
        let digest = sha256_digest(text.as_str().as_bytes());
        let signature = ed25519_sign(self.key_pair.as_slice(), digest.as_slice());
        let mut pk: Vec<u8> = Vec::new();
        let mut i: usize = 0;
        while i < node_public_key.len()
            invariant
                i <= node_public_key@.len(),
                pk@ == node_public_key@.take(i as int),
            decreases node_public_key@.len() - i,
        {
            pk.push(node_public_key[i]);
            assert(node_public_key@.take(i + 1) =~= node_public_key@.take(i as int).push(node_public_key@[i as int]));
            i = i + 1;
        }
        assert(node_public_key@.take(i as int) =~= node_public_key@);
        let certificate = DeviceCertificate {
            node_id: response.node_id,
            cluster_id: self.cluster_id,
            public_key: pk,
            issued_at,
            expires_at: expires,
            coordinator_signature: signature,
        };
        let stored = certificate.clone();
        self.store_node(stored);
        Ok(certificate)
    }

    /// Checks a node's response to its challenge now; see `verify_response_at`.
    pub fn verify_response(&mut self, response: &PairingResponse, node_public_key: &[u8]) -> (r: Result<DeviceCertificate, PairingError>)
        requires
            old(self).wf(),
            response.challenge_response@.len() >= 8,
        ensures
            final(self).wf(),
            exists|checked_at: i64, issued_at: i64| time_ok(checked_at) && time_ok(issued_at)
                && verify_outcome(old(self)@, final(self)@, *response, node_public_key@, checked_at, issued_at, r),
    {
        let checked_at = now_secs();
        let issued_at = now_secs();
        self.verify_response_at(response, node_public_key, checked_at, issued_at)
    }

    /// Signs a challenge with this manager's key: 64 bytes that verify
    /// under its public key.
    pub fn sign_challenge(&self, challenge: &[u8]) -> (r: Result<Vec<u8>, PairingError>)
        requires
            self.wf(),
        ensures
            r matches Ok(s) && s@ == self.signature_of(challenge@) && signature_bytes_ok(s@)
                && signature_verifies(self@.public_key, challenge@, s@),
    {
        Ok(ed25519_sign(self.key_pair.as_slice(), challenge))
    }

    /// The signature this manager makes of a message.
    pub closed spec fn signature_of(&self, message: Seq<u8>) -> Seq<u8> {
        ed25519_signature(self.key_pair@, message)
    }

    /// Whether `signature` is a valid signature of `data` under the key;
    /// unreadable keys and signature bytes are errors.
    pub fn verify_coordinator_signature(&self, data: &[u8], signature: &[u8], coordinator_public_key: &[u8]) -> (r: Result<bool, PairingError>)
        ensures
            r == (match check_result(coordinator_public_key@, data@, signature@) {
                SignatureCheck::BadKey => Err::<bool, PairingError>(PairingError::InvalidPublicKey),
                SignatureCheck::BadSignature => Err::<bool, PairingError>(PairingError::InvalidSignature),
                SignatureCheck::Invalid => Ok::<bool, PairingError>(false),
                SignatureCheck::Valid => Ok::<bool, PairingError>(true),
            }),
    {
        match ed25519_check(coordinator_public_key, data, signature) {
            SignatureCheck::BadKey => Err(PairingError::InvalidPublicKey),
            SignatureCheck::BadSignature => Err(PairingError::InvalidSignature),
            SignatureCheck::Invalid => Ok(false),
            SignatureCheck::Valid => Ok(true),
        }
    }

    /// This manager's public key.
    pub fn public_key(&self) -> (r: Vec<u8>)
        ensures
            r@ == self@.public_key,
    {
        let r = self.public_key_bytes.clone();
        assert(r@ =~= self.public_key_bytes@);
        r
    }

    /// Whether a certificate is unexpired at `now` and carries a valid
    /// coordinator signature of its text's digest.
    pub fn verify_certificate_at(&self, certificate: &DeviceCertificate, coordinator_public_key: &[u8], now: i64) -> (r: Result<bool, PairingError>)
        ensures
            r == certificate_check(coordinator_public_key@, certificate@, now),
    {
        if now > certificate.expires_at {
            return Ok(false);
        }
        let text = make_certificate_text(
            certificate.node_id,
            certificate.cluster_id,
            certificate.public_key.as_slice(),
            certificate.issued_at,
            certificate.expires_at,
        );
        proof {
            vstd::utf8::encode_utf8_decode_utf8(text@);
        }
        let digest = sha256_digest(text.as_str().as_bytes());
        self.verify_coordinator_signature(digest.as_slice(), certificate.coordinator_signature.as_slice(), coordinator_public_key)
    }

    /// Checks a certificate now; see `verify_certificate_at`.
    pub fn verify_certificate(&self, certificate: &DeviceCertificate, coordinator_public_key: &[u8]) -> (r: Result<bool, PairingError>)
        ensures
            exists|now: i64| time_ok(now) && r == certificate_check(coordinator_public_key@, certificate@, now),
    {
        let now = now_secs();
        let r = self.verify_certificate_at(certificate, coordinator_public_key, now);
        assert(time_ok(now) && r == certificate_check(coordinator_public_key@, certificate@, now));
        r
    }

    /// Forgets a paired node.
    pub fn revoke_node(&mut self, node_id: NodeId) -> (r: Result<(), PairingError>)
        requires
            old(self).wf(),
        ensures
            final(self).wf(),
            r is Ok,
            final(self)@ == (PairingView { nodes: old(self)@.nodes.remove(node_id), ..old(self)@ }),
    {
        let ghost ps = node_pairs(self.node_keys@);
        match self.find_node(node_id) {
            Some(k) => {
                proof {
                    lemma_map_remove(ps, k as int);
                }
                self.node_keys.remove(k);
                assert(node_pairs(self.node_keys@) =~= ps.remove(k as int));
            },
            None => {
                proof {
                    lemma_map_absent(ps, node_id);
                    assert(seq_to_map(ps).remove(node_id) =~= seq_to_map(ps));
                }
            },
        }
        Ok(())
    }

    /// Whether a node is paired.
    pub fn is_paired(&self, node_id: NodeId) -> (r: bool)
        requires
            self.wf(),
        ensures
            r == self@.nodes.contains_key(node_id),
    {
        let ghost ps = node_pairs(self.node_keys@);
        match self.find_node(node_id) {
            Some(i) => {
                proof {
                    lemma_map_lookup(ps, i as int);
                }
                true
            },
            None => {
                proof {
                    lemma_map_absent(ps, node_id);
                }
                false
            },
        }
    }

    /// The paired nodes, each once.
    pub fn registered_nodes(&self) -> (r: Vec<NodeId>)
        requires
            self.wf(),
        ensures
            r@.len() == self@.nodes.len(),
            forall|i: int| 0 <= i < r@.len() ==> self@.nodes.contains_key(#[trigger] r@[i]),
            forall|n: NodeId| self@.nodes.contains_key(n) ==> r@.contains(n),
    {
        let ghost ps = node_pairs(self.node_keys@);
        proof {
            lemma_map_len(ps);
        }
        let mut r: Vec<NodeId> = Vec::new();
        let mut i: usize = 0;
        while i < self.node_keys.len()
            invariant
                i <= self.node_keys@.len(),
                ps == node_pairs(self.node_keys@),
                keys_unique(ps),
                r@.len() == i,
                forall|k: int| 0 <= k < i ==> r@[k] == #[trigger] ps[k].0,
            decreases self.node_keys@.len() - i,
        {
            r.push(self.node_keys[i].0);
            i = i + 1;
        }
        proof {
            assert forall|k: int| 0 <= k < r@.len() implies self@.nodes.contains_key(#[trigger] r@[k]) by {
                lemma_map_lookup(ps, k);
            }
            assert forall|n: NodeId| self@.nodes.contains_key(n) implies r@.contains(n) by {
                lemma_map_domain(ps, n);
                let k = choose|k: int| 0 <= k < ps.len() && ps[k].0 == n;
                assert(r@[k] == n);
            }
        }
        r
    }

    /// Drops the challenges expired at `now`.
    pub fn cleanup_expired_challenges_at(&mut self, now: i64)
        requires
            old(self).wf(),
            time_ok(now),
        ensures
            final(self).wf(),
            final(self)@.cluster_id == old(self)@.cluster_id,
            final(self)@.public_key == old(self)@.public_key,
            final(self)@.nodes == old(self)@.nodes,
            final(self)@.pending == after_cleanup(old(self)@.pending, now),
    {
        let ghost ps = pending_pairs(self.pending_challenges@);
        let ghost m0 = self@.pending;
        let ghost old_entries = self.pending_challenges@;
        let mut kept: Vec<(String, PendingChallenge)> = Vec::new();
        let ghost mut origin: Seq<int> = Seq::empty();
        let n0 = self.pending_challenges.len();
        let mut rest: Vec<(String, PendingChallenge)> = Vec::new();
        std::mem::swap(&mut rest, &mut self.pending_challenges);
        let mut taken: usize = 0;
        let ghost total = old_entries.len();
        while rest.len() > 0
            invariant
                old_entries.len() == total,
                total == n0,
                time_ok(now),
                rest@ =~= old_entries.skip(taken as int),
                taken <= total,
                taken + rest@.len() == total,
                ps == pending_pairs(old_entries),
                keys_unique(ps),
                forall|i: int| 0 <= i < old_entries.len() ==> pending_ok(#[trigger] old_entries[i].1),
                origin.len() == kept@.len(),
                forall|k: int| 0 <= k < kept@.len() ==> 0 <= #[trigger] origin[k] < taken
                    && pending_pairs(kept@)[k] == ps[origin[k]]
                    && !expired(ps[origin[k]].1, now),
                forall|k: int, q: int| 0 <= k < q < kept@.len() ==> #[trigger] origin[k] < #[trigger] origin[q],
                forall|j: int| 0 <= j < taken && !expired(ps[j].1, now) ==> exists|k: int| 0 <= k < kept@.len() && #[trigger] origin[k] == j,
            decreases rest@.len(),
        {
            let ghost before_rest = rest@;
            let ghost origin0 = origin;
            let ghost kept_len0 = kept@.len();
            let (key, p) = rest.remove(0);
            assert(before_rest[0] == old_entries[taken as int]);
            assert(rest@ =~= old_entries.skip(taken + 1));
            assert(pending_ok(old_entries[taken as int].1));
            let elapsed = now - p.timestamp;
            if elapsed <= p.expires_in_seconds as i64 {
                proof {
                    origin = origin.push(taken as int);
                }
                kept.push((key, p));
            }
            taken = taken + 1;
            proof {
                assert(ps[taken - 1] == (old_entries[taken - 1].0@, pending_view(old_entries[taken - 1].1)));
                assert forall|j: int| 0 <= j < taken && !expired(ps[j].1, now) implies exists|k: int| 0 <= k < kept@.len() && #[trigger] origin[k] == j by {
                    if j == taken - 1 {
                        assert(origin[kept@.len() - 1] == j);
                    } else {
                        let k = choose|k: int| 0 <= k < kept_len0 && #[trigger] origin0[k] == j;
                        assert(origin[k] == j);
                    }
                }
            }
        }
        proof {
            let kp = pending_pairs(kept@);
            assert forall|a: int, b: int| 0 <= a < kp.len() && 0 <= b < kp.len() && a != b implies kp[a].0 != kp[b].0 by {
                if a < b {
                    assert(origin[a] < origin[b]);
                } else {
                    assert(origin[b] < origin[a]);
                }
            }
            let target = after_cleanup(m0, now);
            assert forall|k: Seq<char>| #[trigger] seq_to_map(kp).contains_key(k) == target.contains_key(k) by {
                lemma_map_domain(kp, k);
                lemma_map_domain(ps, k);
                if seq_to_map(kp).contains_key(k) {
                    let a = choose|a: int| 0 <= a < kp.len() && kp[a].0 == k;
                    lemma_map_lookup(ps, origin[a]);
                }
                if target.contains_key(k) {
                    let j = choose|j: int| 0 <= j < ps.len() && ps[j].0 == k;
                    lemma_map_lookup(ps, j);
                    let a = choose|a: int| 0 <= a < kept@.len() && #[trigger] origin[a] == j;
                    assert(kp[a].0 == k);
                }
            }
            assert forall|k: Seq<char>| #[trigger] seq_to_map(kp).contains_key(k) implies seq_to_map(kp)[k] == target[k] by {
                lemma_map_domain(kp, k);
                let a = choose|a: int| 0 <= a < kp.len() && kp[a].0 == k;
                lemma_map_lookup(kp, a);
                lemma_map_lookup(ps, origin[a]);
            }
            assert(seq_to_map(kp) =~= target);
        }
        self.pending_challenges = kept;
        proof {
            assert forall|i: int| 0 <= i < self.pending_challenges@.len() implies pending_ok(#[trigger] self.pending_challenges@[i].1) by {
                assert(pending_pairs(kept@)[i] == ps[origin[i]]);
                assert(pending_ok(old_entries[origin[i]].1));
            }
        }
    }

    /// Drops the challenges expired now; see `cleanup_expired_challenges_at`.
    pub fn cleanup_expired_challenges(&mut self)
        requires
            old(self).wf(),
        ensures
            final(self).wf(),
            final(self)@.cluster_id == old(self)@.cluster_id,
            final(self)@.public_key == old(self)@.public_key,
            final(self)@.nodes == old(self)@.nodes,
            exists|now: i64| final(self)@.pending == #[trigger] after_cleanup(old(self)@.pending, now),
    {
        let now = now_secs();
        self.cleanup_expired_challenges_at(now);
    }
}

/// A short fingerprint of a public key: the hex of the first 8 bytes of its
/// SHA-256 digest.
pub fn generate_fingerprint(public_key: &[u8]) -> (r: String)
    ensures
        r@ == hex_lower(sha256(public_key@).take(8)),
{
    let digest = sha256_digest(public_key);
    let mut head: Vec<u8> = Vec::new();
    let mut i: usize = 0;
    while i < 8
        invariant
            i <= 8,
            digest@.len() == 32,
            head@ == digest@.take(i as int),
        decreases 8 - i,
    {
        head.push(digest[i]);
        assert(digest@.take(i + 1) =~= digest@.take(i as int).push(digest@[i as int]));
        i = i + 1;
    }
    hex_encode(head.as_slice())
}

/// A challenge answers at most one response: whatever the outcome of a
/// verification that found its challenge, the challenge is used up, and the
/// same response verified again is refused as not found.
pub proof fn law_challenge_used_once(
    v0: PairingView,
    v1: PairingView,
    v2: PairingView,
    response: PairingResponse,
    node_public_key: Seq<u8>,
    t1: i64,
    i1: i64,
    t2: i64,
    i2: i64,
    r1: Result<DeviceCertificate, PairingError>,
    r2: Result<DeviceCertificate, PairingError>,
)
    requires
        v0.pending.contains_key(challenge_key(response.node_id, response.challenge_response@)),
        verify_outcome(v0, v1, response, node_public_key, t1, i1, r1),
        verify_outcome(v1, v2, response, node_public_key, t2, i2, r2),
    ensures
        !v1.pending.contains_key(challenge_key(response.node_id, response.challenge_response@)),
        r2 == Err::<DeviceCertificate, PairingError>(PairingError::ChallengeNotFound),
        v2 == v1,
{
}

/// Cleaning up at `now` keeps exactly the challenges that have not expired
/// at `now`, unchanged.
pub proof fn law_cleanup_keeps_live(m: Map<Seq<char>, PendingView>, now: i64, k: Seq<char>)
    ensures
        after_cleanup(m, now).contains_key(k) <==> m.contains_key(k) && !expired(m[k], now),
        after_cleanup(m, now).contains_key(k) ==> after_cleanup(m, now)[k] == m[k],
{
}

/// A revoked node is no longer paired; the other nodes stay paired.
pub proof fn law_revoke_unpairs(nodes: Map<NodeId, CertificateView>, id: NodeId, other: NodeId)
    ensures
        !nodes.remove(id).contains_key(id),
        other != id ==> (nodes.remove(id).contains_key(other) == nodes.contains_key(other)),
{
}


/// A node that answers a live challenge with its own signature of it and is
/// checked with its own public key is paired: the verification succeeds with
/// a certificate naming the node and its key, under which the node is kept.
pub proof fn law_signed_response_accepted(
    before: PairingView,
    after: PairingView,
    node: PairingManager,
    response: PairingResponse,
    checked_at: i64,
    issued_at: i64,
    r: Result<DeviceCertificate, PairingError>,
)
    requires
        node.wf(),
        before.pending.contains_key(challenge_key(response.node_id, response.challenge_response@)),
        !expired(before.pending[challenge_key(response.node_id, response.challenge_response@)], checked_at),
        signature_verifies(
            node@.public_key,
            before.pending[challenge_key(response.node_id, response.challenge_response@)].challenge,
            response.challenge_signature@,
        ),
        signature_bytes_ok(response.challenge_signature@),
        verify_outcome(before, after, response, node@.public_key, checked_at, issued_at, r),
    ensures
        r matches Ok(c) && c@.node_id == response.node_id && c@.cluster_id == before.cluster_id
            && c@.public_key == node@.public_key && after.nodes.contains_key(response.node_id)
            && after.nodes[response.node_id] == c@,
{
    node.lemma_public_key_ok();
}

/// A certificate the coordinator issued checks out under the coordinator's
/// public key at any time up to its expiry.
pub proof fn law_issued_certificate_verifies(
    coordinator: PairingManager,
    after: PairingView,
    response: PairingResponse,
    node_public_key: Seq<u8>,
    checked_at: i64,
    issued_at: i64,
    r: Result<DeviceCertificate, PairingError>,
    now: i64,
)
    requires
        coordinator.wf(),
        verify_outcome(coordinator@, after, response, node_public_key, checked_at, issued_at, r),
        r is Ok,
        now <= r->Ok_0.expires_at,
    ensures
        certificate_check(coordinator@.public_key, r->Ok_0@, now) == Ok::<bool, PairingError>(true),
{
    coordinator.lemma_public_key_ok();
}


/// The whole handshake: after the coordinator issues a challenge (as
/// `generate_challenge` records it), a node that answers it within 300
/// seconds with its own signature of it (as `sign_challenge` makes it) and
/// is checked with its own public key is paired, under the challenge's
/// node id, with a certificate of the coordinator's cluster for its key.
pub proof fn law_pairing_handshake(
    v0: PairingView,
    v1: PairingView,
    v2: PairingView,
    challenge: PairingChallenge,
    issued: i64,
    node: PairingManager,
    response: PairingResponse,
    checked_at: i64,
    issued_at: i64,
    r: Result<DeviceCertificate, PairingError>,
)
    requires
        node.wf(),
        challenge.challenge@.len() == 32,
        v1.cluster_id == v0.cluster_id,
        v1.pending == v0.pending.insert(challenge_key(challenge.node_id, challenge.challenge@), PendingView {
            node_id: challenge.node_id,
            challenge: challenge.challenge@,
            timestamp: issued,
            expires_in_seconds: CHALLENGE_LIFETIME_SECS,
        }),
        response.node_id == challenge.node_id,
        response.challenge_response@ == challenge.challenge@,
        signature_verifies(node@.public_key, challenge.challenge@, response.challenge_signature@),
        signature_bytes_ok(response.challenge_signature@),
        checked_at - issued <= CHALLENGE_LIFETIME_SECS,
        verify_outcome(v1, v2, response, node@.public_key, checked_at, issued_at, r),
    ensures
        r matches Ok(c) && c@.node_id == challenge.node_id && c@.cluster_id == v0.cluster_id
            && c@.public_key == node@.public_key && v2.nodes.contains_key(challenge.node_id)
            && v2.nodes[challenge.node_id] == c@,
        !v2.pending.contains_key(challenge_key(challenge.node_id, challenge.challenge@)),
{
    let key = challenge_key(challenge.node_id, challenge.challenge@);
    assert(v1.pending.contains_key(key));
    assert(v1.pending[key].challenge == challenge.challenge@);
    law_signed_response_accepted(v1, v2, node, response, checked_at, issued_at, r);
}

} // verus!

