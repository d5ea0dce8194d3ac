//! Ed25519 keys and signatures.

use ed25519_consensus::{SigningKey, VerificationKey};
use vstd::prelude::*;
use vstd::string::*;
use zeroize::Zeroize;

use crate::ident::Ident;

verus! {

/// The public key of a seed, by Ed25519.
pub uninterp spec fn ed25519_public_key(seed: Seq<u8>) -> Seq<u8>;

/// The signature of a message with the key of a seed, by Ed25519.
pub uninterp spec fn ed25519_signature(seed: Seq<u8>, msg: Seq<u8>) -> Seq<u8>;

/// Whether bytes are an Ed25519 public key: the encoding of a point of the
/// curve.
pub uninterp spec fn ed25519_is_public_key(bytes: Seq<u8>) -> bool;

/// Whether a signature of a message is valid for a public key, by Ed25519.
pub uninterp spec fn ed25519_verifies(public_key: Seq<u8>, msg: Seq<u8>, signature: Seq<u8>) -> bool;

/// `ed25519_consensus`'s key for signing.
#[verifier::external_type_specification]
#[verifier::external_body]
pub struct ExSigningKey(SigningKey);

/// What is left of the key of a seed once it was erased.
pub uninterp spec fn erased_signing_key(seed: Seq<u8>) -> SigningKey;

/// What a key, erased or not, gives for a message.
pub uninterp spec fn signing_key_signature(key: SigningKey, msg: Seq<u8>) -> Seq<u8>;

/// The key of a seed, by `ed25519_consensus`'s `SigningKey::from`, after its
/// `Zeroize::zeroize`, which erases the seed and the scalar but neither the prefix
/// for nonces nor the public key. It depends on the seed alone and is named
/// [`erased_signing_key`].
#[verifier::external_body]
fn erase_key(seed: &[u8; 32]) -> (r: SigningKey)
    ensures
        r == erased_signing_key(seed@),
{
    let mut key = SigningKey::from(*seed);
    key.zeroize();
    key
}

/// What a key gives for a message, by `ed25519_consensus`'s `SigningKey::sign`. It
/// depends on the key and the message alone and is named
/// [`signing_key_signature`].
#[verifier::external_body]
fn sign_with_key(key: &SigningKey, msg: &[u8]) -> (r: [u8; 64])
    ensures
        r@ == signing_key_signature(*key, msg@),
{
    key.sign(msg).to_bytes()
}

/// The public key of a seed, by `ed25519_consensus`'s
/// `SigningKey::verification_key` on `SigningKey::from`. It depends on the seed
/// alone and is named [`ed25519_public_key`]; it is a public key.
#[verifier::external_body]
fn derive_public_key(seed: &[u8; 32]) -> (r: [u8; 32])
    ensures
        r@ == ed25519_public_key(seed@),
        ed25519_is_public_key(r@),
{
    SigningKey::from(*seed).verification_key().to_bytes()
}

/// The signature of a message, by `ed25519_consensus`'s `SigningKey::sign` on
/// `SigningKey::from`. It depends on the seed and the message alone and is named
/// [`ed25519_signature`]; it is valid for the public key of the seed.
#[verifier::external_body]
fn sign_with_seed(seed: &[u8; 32], msg: &[u8]) -> (r: [u8; 64])
    ensures
        r@ == ed25519_signature(seed@, msg@),
        ed25519_verifies(ed25519_public_key(seed@), msg@, r@),
{
    SigningKey::from(*seed).sign(msg).to_bytes()
}

/// Whether bytes are a public key, by `ed25519_consensus`'s
/// `VerificationKey::try_from`. It depends on the bytes alone and is named
/// [`ed25519_is_public_key`].
#[verifier::external_body]
fn is_public_key(bytes: &[u8; 32]) -> (r: bool)
    ensures
        r == ed25519_is_public_key(bytes@),
{
    VerificationKey::try_from(*bytes).is_ok()
}

/// Whether a signature is valid, by `ed25519_consensus`'s
/// `VerificationKey::verify`. It depends on the key, the message and the
/// signature alone and is named [`ed25519_verifies`].
#[verifier::external_body]
fn verifies(public_key: &[u8; 32], msg: &[u8], signature: &[u8; 64]) -> (r: bool)
    requires
        ed25519_is_public_key(public_key@),
    ensures
        r == ed25519_verifies(public_key@, msg@, signature@),
{
    VerificationKey::try_from(*public_key).unwrap().verify(&(*signature).into(), msg).is_ok()
}

/// Zero, in each byte.
pub open spec fn all_zero(bytes: Seq<u8>) -> bool {
    forall|i: int| 0 <= i < bytes.len() ==> bytes[i] == 0
}

/// Overwrite bytes with zeros by `zeroize`'s `Zeroize::zeroize`.
#[verifier::external_body]
fn erase(bytes: &mut [u8; 32])
    ensures
        all_zero(final(bytes)@),
{
    bytes.zeroize();
}

/// Why bytes are not a key or a signature.
#[derive(Clone, Copy, Debug, PartialEq, Eq, Structural)]
pub enum Error {
    /// The bytes are not a public key.
    MalformedPublicKey,
    /// There are too few or too many bytes.
    InvalidSliceLength,
}

impl Error {
    /// The text of the error.
    pub fn message(&self) -> (r: String)
        ensures
            r@ == (match self {
                Error::MalformedPublicKey => "Malformed public key encoding."@,
                Error::InvalidSliceLength => "Invalid length when parsing byte slice."@,
            }),
    {
        match self {
            Error::MalformedPublicKey => "Malformed public key encoding.".to_owned(),
            Error::InvalidSliceLength => "Invalid length when parsing byte slice.".to_owned(),
        }
    }
}

/// A signature is not valid.
#[derive(Clone, Copy, Debug, PartialEq, Eq, Structural)]
pub struct InvalidSignature;

/// The first bytes of `bytes`, as an array.
fn array_of<const N: usize>(bytes: &[u8]) -> (r: [u8; N])
    requires
        bytes@.len() == N,
    ensures
        r@ == bytes@,
{
    let mut out: [u8; N] = [0u8; N];
    let mut i: usize = 0;
    while i < N
        invariant
            i <= N,
            bytes@.len() == N,
            forall|j: int| 0 <= j < i ==> out@[j] == bytes@[j],
        decreases N - i,
    {
        out[i] = bytes[i];
        i = i + 1;
    }
    assert(out@ =~= bytes@);
    out
}

/// The bytes of an array.
fn vec_of<const N: usize>(bytes: &[u8; N]) -> (r: Vec<u8>)
    ensures
        r@ == bytes@,
{
    let mut out: Vec<u8> = Vec::new();
    let mut i: usize = 0;
    while i < N
        invariant
            i <= N,
            out@ == bytes@.subrange(0, i as int),
        decreases N - i,
    {
        out.push(bytes[i]);
        assert(out@ =~= bytes@.subrange(0, i + 1));
        i = i + 1;
    }
    assert(out@ =~= bytes@);
    out
}

/// A signature.
#[derive(Clone, Copy, Debug, PartialEq, Eq, PartialOrd, Ord)]
pub struct Signature {
    bytes: [u8; 64],
}

impl View for Signature {
    type V = Seq<u8>;

    closed spec fn view(&self) -> Seq<u8> {
        self.bytes@
    }
}

impl Signature {
    /// The bytes of the signature.
    pub fn to_bytes(&self) -> (r: [u8; 64])
        ensures
            r@ == self@,
    {
        self.bytes
    }

    /// The signature with the given bytes.
    pub fn from_bytes(bytes: [u8; 64]) -> (r: Self)
        ensures
            r@ == bytes@,
    {
        Signature { bytes }
    }

    /// The signature with the given bytes, if there are as many as it takes.
    pub fn try_from_slice(bytes: &[u8]) -> (r: Result<Self, Error>)
        ensures
            match r {
                Ok(s) => bytes@.len() == 64 && s@ == bytes@,
                Err(e) => bytes@.len() != 64 && e == Error::InvalidSliceLength,
            },
    {
        if bytes.len() != 64 {
            return Err(Error::InvalidSliceLength);
        }
        Ok(Signature { bytes: array_of(bytes) })
    }

    /// A signature of zeros, which is valid for nothing in particular.
    pub fn test() -> (r: Self)
        ensures
            r@ == Seq::new(64, |i: int| 0u8),
    {
        let r = Signature { bytes: [0u8; 64] };
        assert(r@ =~= Seq::new(64, |i: int| 0u8));
        r
    }
}

impl TryFrom<&[u8]> for Signature {
    type Error = Error;

    fn try_from(bytes: &[u8]) -> (r: Result<Self, Error>)
        ensures
            match r {
                Ok(s) => bytes@.len() == 64 && s@ == bytes@,
                Err(e) => bytes@.len() != 64 && e == Error::InvalidSliceLength,
            },
    {
        Signature::try_from_slice(bytes)
    }
}

impl vstd::std_specs::convert::TryFromSpecImpl<&[u8]> for Signature {
    open spec fn obeys_try_from_spec() -> bool {
        false
    }

    open spec fn try_from_spec(v: &[u8]) -> Result<Self, Error> {
        arbitrary()
    }
}

/// A public key.
#[derive(Clone, Copy, Debug, PartialEq, Eq, PartialOrd, Ord)]
pub struct PublicKey {
    bytes: [u8; 32],
}

impl View for PublicKey {
    type V = Seq<u8>;

    closed spec fn view(&self) -> Seq<u8> {
        self.bytes@
    }
}

impl PublicKey {
    /// The bytes are a public key.
    #[verifier::type_invariant]
    closed spec fn wf(&self) -> bool {
        ed25519_is_public_key(self.bytes@)
    }

    /// The bytes of the key.
    pub fn as_bytes(&self) -> (r: &[u8; 32])
        ensures
            r@ == self@,
    {
        &self.bytes
    }

    /// The key with the given bytes, if they are that of one.
    pub fn from_bytes(bytes: [u8; 32]) -> (r: Result<Self, Error>)
        ensures
            match r {
                Ok(k) => ed25519_is_public_key(bytes@) && k@ == bytes@,
                Err(e) => !ed25519_is_public_key(bytes@) && e == Error::MalformedPublicKey,
            },
    {
        if is_public_key(&bytes) {
            Ok(PublicKey { bytes })
        } else {
            Err(Error::MalformedPublicKey)
        }
    }

    /// Check a signature of a message.
    pub fn verify(&self, msg: &[u8], signature: &Signature) -> (r: Result<(), InvalidSignature>)
        ensures
            r is Ok == ed25519_verifies(self@, msg@, signature@),
    {
        proof {
            use_type_invariant(self);
        }
        if verifies(&self.bytes, msg, &signature.bytes) {
            Ok(())
        } else {
            Err(InvalidSignature)
        }
    }
}

/// A private key: the seed that it comes from, its public key, and, once the
/// seed was erased, what is left of it.
#[derive(Clone, Debug)]
pub struct PrivateKey {
    seed: [u8; 32],
    public_key: PublicKey,
    erased: Option<SigningKey>,
}

impl PrivateKey {
    /// The seed.
    pub closed spec fn seed(self) -> Seq<u8> {
        self.seed@
    }

    /// The bytes of the public key.
    pub closed spec fn public(self) -> Seq<u8> {
        self.public_key@
    }

    /// What is left of the key, where it was erased.
    pub closed spec fn erased(self) -> Option<SigningKey> {
        self.erased
    }

    /// Whether the key was not erased, and the public key is that of the seed.
    pub open spec fn intact(self) -> bool {
        self.erased() is None && self.public() == ed25519_public_key(self.seed())
    }

    /// The key of a seed.
    pub fn from_seed(bytes: [u8; 32]) -> (r: Self)
        ensures
            r.seed() == bytes@,
            r.intact(),
    {
        let public_key = PublicKey { bytes: derive_public_key(&bytes) };
        PrivateKey { seed: bytes, public_key, erased: None }
    }

    /// The public key.
    pub fn public_key(&self) -> (r: PublicKey)
        ensures
            r@ == self.public(),
    {
        self.public_key
    }

    /// Sign a message: with the seed, or with what is left of a key that was
    /// erased.
    pub fn sign(&self, msg: &[u8]) -> (r: Signature)
        ensures
            r@ == match self.erased() {
                Some(key) => signing_key_signature(key, msg@),
                None => ed25519_signature(self.seed(), msg@),
            },
            self.intact() ==> ed25519_verifies(self.public(), msg@, r@),
    {
        match &self.erased {
            Some(key) => Signature { bytes: sign_with_key(key, msg) },
            None => Signature { bytes: sign_with_seed(&self.seed, msg) },
        }
    }

    /// The bytes of the seed.
    pub fn as_bytes(&self) -> (r: &[u8; 32])
        ensures
            r@ == self.seed(),
    {
        &self.seed
    }

    /// Erase the seed. The public key stays known, and what is signed from then
    /// on is what `ed25519_consensus` signs with what is left of the key.
    pub fn zeroize(&mut self)
        ensures
            all_zero(final(self).seed()),
            final(self).public() == old(self).public(),
            final(self).erased() == Some(
                match old(self).erased() {
                    Some(key) => key,
                    None => erased_signing_key(old(self).seed()),
                },
            ),
    {
        if self.erased.is_none() {
            self.erased = Some(erase_key(&self.seed));
        }
        erase(&mut self.seed);
    }
}

impl From<[u8; 32]> for PrivateKey {
    fn from(bytes: [u8; 32]) -> (r: Self)
        ensures
            r.seed() == bytes@,
            r.intact(),
    {
        PrivateKey::from_seed(bytes)
    }
}

impl vstd::std_specs::convert::FromSpecImpl<[u8; 32]> for PrivateKey {
    open spec fn obeys_from_spec() -> bool {
        false
    }

    open spec fn from_spec(v: [u8; 32]) -> Self {
        arbitrary()
    }
}

/// The signing scheme: how keys and signatures are encoded.
#[derive(Clone, Copy, Debug, PartialEq, Eq, Structural)]
pub struct Ed25519;

impl Ed25519 {
    /// The bytes of a signature.
    pub fn encode_signature(signature: &Signature) -> (r: Vec<u8>)
        ensures
            r@ == signature@,
            r@.len() == 64,
    {
        vec_of(&signature.bytes)
    }

    /// The signature with the given bytes.
    pub fn decode_signature(bytes: &[u8]) -> (r: Result<Signature, Error>)
        ensures
            match r {
                Ok(s) => bytes@.len() == 64 && s@ == bytes@,
                Err(e) => bytes@.len() != 64 && e == Error::InvalidSliceLength,
            },
    {
        Signature::try_from_slice(bytes)
    }

    /// The bytes of a public key.
    pub fn encode_public_key(public_key: &PublicKey) -> (r: Vec<u8>)
        ensures
            r@ == public_key@,
            r@.len() == 32,
            ed25519_is_public_key(r@),
    {
        proof {
            use_type_invariant(public_key);
        }
        vec_of(&public_key.bytes)
    }

    /// The public key with the given bytes, if there are as many as it takes
    /// and they are that of one.
    pub fn decode_public_key(bytes: &[u8]) -> (r: Result<PublicKey, Error>)
        ensures
            match r {
                Ok(k) => bytes@.len() == 32 && ed25519_is_public_key(bytes@) && k@ == bytes@,
                Err(Error::InvalidSliceLength) => bytes@.len() != 32,
                Err(Error::MalformedPublicKey) => bytes@.len() == 32 && !ed25519_is_public_key(
                    bytes@,
                ),
            },
    {
        if bytes.len() != 32 {
            return Err(Error::InvalidSliceLength);
        }
        PublicKey::from_bytes(array_of(bytes))
    }
}

/// An encoded signature is decoded to the same signature.
pub proof fn law_signature_round_trip(
    signature: Signature,
    encoded: Vec<u8>,
    bytes: &[u8],
    decoded: Result<Signature, Error>,
)
    requires
        call_ensures(Ed25519::encode_signature, (&signature,), encoded),
        bytes@ == encoded@,
        call_ensures(Ed25519::decode_signature, (bytes,), decoded),
    ensures
        decoded matches Ok(s) && s@ == signature@,
{
}

/// An encoded public key is decoded to the same key.
pub proof fn law_public_key_round_trip(
    public_key: PublicKey,
    encoded: Vec<u8>,
    bytes: &[u8],
    decoded: Result<PublicKey, Error>,
)
    requires
        call_ensures(Ed25519::encode_public_key, (&public_key,), encoded),
        bytes@ == encoded@,
        call_ensures(Ed25519::decode_public_key, (bytes,), decoded),
    ensures
        decoded matches Ok(k) && k@ == public_key@,
{
}

/// What a key signs is valid for its public key.
pub proof fn law_signed_message_verifies(
    key: PrivateKey,
    public_key: PublicKey,
    msg: &[u8],
    signature: Signature,
    verdict: Result<(), InvalidSignature>,
)
    requires
        key.intact(),
        call_ensures(PrivateKey::public_key, (&key,), public_key),
        call_ensures(PrivateKey::sign, (&key, msg), signature),
        call_ensures(PublicKey::verify, (&public_key, msg, &signature), verdict),
    ensures
        verdict is Ok,
{
}

} // verus!
