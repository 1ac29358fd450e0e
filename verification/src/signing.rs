//! The node's signing identity.
//!
//! A `SigningService` wraps the node's secp256k1 key pair: it signs a
//! 32-byte digest, exposes the public key for attestation verification,
//! and offers the startup self-check that signs a fixed message and
//! verifies it against the held public key, so that a mismatched pair
//! never serves unverifiable attestations.
//!
//! Key provisioning is isolated here: a pair can be generated fresh or
//! parsed from provided material; randomness never appears elsewhere.

use vstd::prelude::*;
use secp256k1::hashes::Hash as _;

verus! {

/// Holds a secp256k1 context with all capabilities. The verifier cannot see
/// inside `Secp256k1<C>` (its capability parameter is a sealed trait), so
/// the context lives in this opaque holder and every wrapper that needs it
/// takes it from here.
#[verifier::external_body]
pub struct SigningContext {
    ctx: secp256k1::Secp256k1<secp256k1::All>,
}

#[verifier::external_type_specification]
#[verifier::external_body]
pub struct ExSecretKey(secp256k1::SecretKey);

#[verifier::external_type_specification]
#[verifier::external_body]
pub struct ExPublicKey(secp256k1::PublicKey);

/// The 32 bytes a `SecretKey` holds.
pub uninterp spec fn sk_bytes(k: secp256k1::SecretKey) -> Seq<u8>;

/// The 33-byte compressed encoding of the point a `PublicKey` holds.
pub uninterp spec fn pk_bytes(k: secp256k1::PublicKey) -> Seq<u8>;

/// The SHA-256 digest of a byte string: a function of the input alone.
pub uninterp spec fn sha256_of(data: Seq<u8>) -> Seq<u8>;

/// The compact encoding of the deterministic (RFC 6979) ECDSA signature of
/// a 32-byte digest under a secret key: a function of the two alone.
pub uninterp spec fn ecdsa_signature(digest: Seq<u8>, key: Seq<u8>) -> Seq<u8>;

/// The compressed public key derived from a secret key.
pub uninterp spec fn pk_of(key: Seq<u8>) -> Seq<u8>;

/// Whether a compact 64-byte signature is well-formed and valid for a
/// digest under a public key: a function of the three alone.
pub uninterp spec fn ecdsa_verifies(digest: Seq<u8>, sig: Seq<u8>, key: Seq<u8>) -> bool;

/// Whether 32 bytes are a valid secret-key scalar (nonzero and below the
/// curve order): exactly the inputs `SecretKey::from_byte_array` accepts,
/// a function of the bytes alone.
pub uninterp spec fn valid_secret_scalar(b: Seq<u8>) -> bool;

/// Whether 33 bytes are a valid compressed point encoding: exactly the
/// inputs `PublicKey::from_byte_array_compressed` accepts, a function of
/// the bytes alone.
pub uninterp spec fn valid_compressed_point(b: Seq<u8>) -> bool;

/// Relies on `secp256k1::Secp256k1::new`: a context with all capabilities.
#[verifier::external_body]
pub fn new_context() -> (r: SigningContext) {
    SigningContext { ctx: secp256k1::Secp256k1::new() }
}

/// Relies on sha256 of bitcoin_hashes (re-exported by secp256k1): a 32-byte
/// digest that depends on the input bytes alone.
#[verifier::external_body]
pub fn sha256_digest(data: &[u8]) -> (r: Vec<u8>)
    ensures
        r@ == sha256_of(data@),
        r@.len() == 32,
{
    secp256k1::hashes::sha256::Hash::hash(data).to_byte_array().to_vec()
}

/// Relies on `secp256k1::SecretKey::from_byte_array`: it accepts exactly
/// the 32-byte strings that pass secret-key verification (a check on the
/// bytes alone), and the key then holds those bytes.
#[verifier::external_body]
pub fn secret_key_from_bytes(bytes: &[u8; 32]) -> (r: Option<secp256k1::SecretKey>)
    ensures
        r is Some <==> valid_secret_scalar(bytes@),
        r matches Some(k) ==> sk_bytes(k) == bytes@,
{
    secp256k1::SecretKey::from_byte_array(*bytes).ok()
}

/// Relies on `secp256k1::Secp256k1::generate_keypair`: the pair is drawn
/// from the process randomness, but whatever was drawn, the returned public
/// key is the one derived from the returned secret key.
#[verifier::external_body]
pub fn generate_keypair(secp: &SigningContext) -> (r: (
    secp256k1::SecretKey,
    secp256k1::PublicKey,
))
    ensures
        pk_bytes(r.1) == pk_of(sk_bytes(r.0)),
{
    secp.ctx.generate_keypair(&mut secp256k1::rand::rng())
}

/// Relies on `secp256k1::PublicKey::from_secret_key`.
#[verifier::external_body]
pub fn public_key_of(secp: &SigningContext, sk: &secp256k1::SecretKey) -> (r: secp256k1::PublicKey)
    ensures
        pk_bytes(r) == pk_of(sk_bytes(*sk)),
{
    secp256k1::PublicKey::from_secret_key(&secp.ctx, sk)
}

/// Relies on `secp256k1::PublicKey::from_byte_array_compressed`: it accepts
/// exactly the valid 33-byte compressed encodings (a check on the bytes
/// alone), and the parsed key serializes back to those bytes.
#[verifier::external_body]
pub fn public_key_from_bytes(bytes: &[u8; 33]) -> (r: Option<secp256k1::PublicKey>)
    ensures
        r is Some <==> valid_compressed_point(bytes@),
        r matches Some(k) ==> pk_bytes(k) == bytes@,
{
    secp256k1::PublicKey::from_byte_array_compressed(*bytes).ok()
}

/// Relies on `secp256k1::PublicKey::serialize`: the 33-byte compressed
/// encoding of the key.
#[verifier::external_body]
pub fn public_key_serialize(pk: &secp256k1::PublicKey) -> (r: Vec<u8>)
    ensures
        r@ == pk_bytes(*pk),
        r@.len() == 33,
{
    pk.serialize().to_vec()
}

/// Relies on `secp256k1::Secp256k1::sign_ecdsa` (deterministic, RFC 6979)
/// and `Signature::serialize_compact`: the compact 64-byte signature of the
/// digest under the key. The produced signature verifies under the public
/// key derived from the signing key, as the `verify_ecdsa` documentation
/// shows of a freshly produced signature.
#[verifier::external_body]
pub fn sign_digest(secp: &SigningContext, digest: &[u8], sk: &secp256k1::SecretKey) -> (r: Vec<u8>)
    requires
        digest@.len() == 32,
    ensures
        r@ == ecdsa_signature(digest@, sk_bytes(*sk)),
        r@.len() == 64,
        ecdsa_verifies(digest@, r@, pk_of(sk_bytes(*sk))),
{
    let mut d = [0u8; 32];
    d.copy_from_slice(digest);
    let msg = secp256k1::Message::from_digest(d);
    secp.ctx.sign_ecdsa(msg, sk).serialize_compact().to_vec()
}

/// Relies on `secp256k1::Secp256k1::verify_ecdsa` and
/// `Signature::from_compact`: whether the 64 bytes are a well-formed
/// compact signature that is valid for the digest under the key.
#[verifier::external_body]
pub fn verify_signature(
    secp: &SigningContext,
    digest: &[u8],
    sig: &[u8],
    pk: &secp256k1::PublicKey,
) -> (r: bool)
    requires
        digest@.len() == 32,
        sig@.len() == 64,
    ensures
        r == ecdsa_verifies(digest@, sig@, pk_bytes(*pk)),
{
    let mut d = [0u8; 32];
    d.copy_from_slice(digest);
    let mut s = [0u8; 64];
    s.copy_from_slice(sig);
    match secp256k1::ecdsa::Signature::from_compact(&s) {
        Ok(parsed) => secp.ctx.verify_ecdsa(secp256k1::Message::from_digest(d), &parsed, pk).is_ok(),
        Err(_) => false,
    }
}

/// The fixed message the startup self-check signs.
pub open spec fn self_check_message() -> Seq<u8> {
    seq![0u8, 0u8, 0u8, 0u8]
}

/// What the self-check computes: whether the deterministic signature of the
/// fixed message's digest under the secret key verifies against the held
/// public key.
pub open spec fn self_check_spec(sk: Seq<u8>, pk: Seq<u8>) -> bool {
    ecdsa_verifies(
        sha256_of(self_check_message()),
        ecdsa_signature(sha256_of(self_check_message()), sk),
        pk,
    )
}

/// The node's signing identity: a secret/public key pair and the context
/// the signatures are produced with.
pub struct SigningService {
    secp: SigningContext,
    secret_key: secp256k1::SecretKey,
    public_key: secp256k1::PublicKey,
}

impl SigningService {
    /// The bytes of the held secret key.
    pub closed spec fn sk(self) -> Seq<u8> {
        sk_bytes(self.secret_key)
    }

    /// The compressed encoding of the held public key.
    pub closed spec fn pk(self) -> Seq<u8> {
        pk_bytes(self.public_key)
    }

    /// A fresh key pair from the process randomness.
    pub fn generate() -> (r: SigningService)
        ensures
            r.pk() == pk_of(r.sk()),
    {
        let secp = new_context();
        let (secret_key, public_key) = generate_keypair(&secp);
        SigningService { secp, secret_key, public_key }
    }

    /// A pair from provided secret-key material, with the public key
    /// derived from it; `None` exactly when the bytes are no valid scalar.
    pub fn from_secret_bytes(bytes: &[u8; 32]) -> (r: Option<SigningService>)
        ensures
            r is Some <==> valid_secret_scalar(bytes@),
            r matches Some(s) ==> s.sk() == bytes@ && s.pk() == pk_of(bytes@),
    {
        let secp = new_context();
        match secret_key_from_bytes(bytes) {
            Some(secret_key) => {
                let public_key = public_key_of(&secp, &secret_key);
                Some(SigningService { secp, secret_key, public_key })
            },
            None => None,
        }
    }

    /// A pair from fully provided material; `None` exactly when either part
    /// does not parse. Nothing here checks that the two keys match; the
    /// self-check does, at startup.
    pub fn from_key_material(secret: &[u8; 32], public: &[u8; 33]) -> (r: Option<SigningService>)
        ensures
            r is Some <==> valid_secret_scalar(secret@) && valid_compressed_point(public@),
            r matches Some(s) ==> s.sk() == secret@ && s.pk() == public@,
    {
        let secp = new_context();
        match secret_key_from_bytes(secret) {
            Some(secret_key) => match public_key_from_bytes(public) {
                Some(public_key) => Some(SigningService { secp, secret_key, public_key }),
                None => None,
            },
            None => None,
        }
    }

    /// Signs a 32-byte digest; no side effects beyond producing the
    /// signature. The signature verifies under the public key derived from
    /// the held secret key.
    pub fn sign(&self, digest: &[u8]) -> (r: Vec<u8>)
        requires
            digest@.len() == 32,
        ensures
            r@ == ecdsa_signature(digest@, self.sk()),
            r@.len() == 64,
            ecdsa_verifies(digest@, r@, pk_of(self.sk())),
    {
        sign_digest(&self.secp, digest, &self.secret_key)
    }

    /// The public key consumers verify attestations against.
    pub fn public_key_bytes(&self) -> (r: Vec<u8>)
        ensures
            r@ == self.pk(),
            r@.len() == 33,
    {
        public_key_serialize(&self.public_key)
    }

    /// The raw secret key, for the aggregation step that signs with it.
    pub fn secret_key(&self) -> (r: &secp256k1::SecretKey)
        ensures
            sk_bytes(*r) == self.sk(),
    {
        &self.secret_key
    }

    /// Startup self-check: signs a fixed known message and verifies it
    /// against the held public key; a pair whose public key is the one
    /// derived from its secret key always passes. A `false` means the pair
    /// is mismatched and startup must abort.
    pub fn self_check(&self) -> (r: bool)
        ensures
            r == self_check_spec(self.sk(), self.pk()),
            self.pk() == pk_of(self.sk()) ==> r,
    {
        let message: [u8; 4] = [0u8, 0u8, 0u8, 0u8];
        let digest = sha256_digest(message.as_slice());
        let signature = self.sign(digest.as_slice());
        proof {
            assert(message@ =~= self_check_message());
        }
        verify_signature(&self.secp, digest.as_slice(), signature.as_slice(), &self.public_key)
    }
}

} // verus!
