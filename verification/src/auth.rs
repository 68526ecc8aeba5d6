//! Agent identity: an Ed25519 keypair held as 32 secret bytes, the
//! agent id derived from it, and challenge signing.
//!
//! The agent id is `"agent-"` followed by the lowercase hex of the first
//! 16 bytes of the SHA-256 of the public key; it is a pure function of
//! the secret, so it is stable for the life of the key.

use vstd::prelude::*;
use crate::error::Error;
use crate::outside::{
    base64_decode, base64_decoded, base64_encode, base64_of, ed25519_public_key,
    ed25519_public_key_of, ed25519_sign, ed25519_signature_of, ed25519_verifies, ed25519_verify,
    hex_digit_char, hex_encode, hex_of, lemma_hex_of_len, random_bytes_32, sha256_digest,
    sha256_of,
};

verus! {

/// The agent id determined by a public key.
pub open spec fn spec_agent_id_of_public_key(public_key: Seq<u8>) -> Seq<char> {
    "agent-"@ + hex_of(sha256_of(public_key).take(16))
}

/// The agent id determined by a 32-byte secret.
pub open spec fn spec_agent_id(secret: Seq<u8>) -> Seq<char> {
    spec_agent_id_of_public_key(ed25519_public_key_of(secret))
}

/// A lowercase hexadecimal digit.
pub open spec fn is_lower_hex_digit(c: char) -> bool {
    ('0' <= c && c <= '9') || ('a' <= c && c <= 'f')
}

/// Every character a hex encoding produces is a lowercase hex digit.
pub proof fn lemma_hex_of_digits(bytes: Seq<u8>)
    ensures
        forall|i: int| 0 <= i < hex_of(bytes).len() ==> is_lower_hex_digit(#[trigger] hex_of(
            bytes,
        )[i]),
    decreases bytes.len(),
{
    if bytes.len() > 0 {
        lemma_hex_of_digits(bytes.drop_first());
        assert(is_lower_hex_digit(hex_digit_char(bytes.first() / 16)));
        assert(is_lower_hex_digit(hex_digit_char(bytes.first() % 16)));
        lemma_hex_of_len(bytes.drop_first());
    }
}

/// Derives the agent id from a public key: `"agent-"` plus 32 lowercase
/// hex characters of the first 16 digest bytes. The id is a function of
/// the key alone, so two derivations from the same key are equal.
pub fn derive_agent_id(public_key: &[u8]) -> (r: String)
    ensures
        r@ == spec_agent_id_of_public_key(public_key@),
        r@.len() == 38,
        r@.subrange(0, 6) == "agent-"@,
        forall|i: int| 6 <= i < 38 ==> is_lower_hex_digit(#[trigger] r@[i]),
{
    let digest = sha256_digest(public_key);
    let head = vstd::slice::slice_subrange(digest.as_slice(), 0, 16);
    let hex = hex_encode(head);
    let mut id = "agent-".to_owned();
    id.append(hex.as_str());
    proof {
        assert(digest@.subrange(0, 16) =~= sha256_of(public_key@).take(16));
        lemma_hex_of_len(sha256_of(public_key@).take(16));
        lemma_hex_of_digits(sha256_of(public_key@).take(16));
        reveal_strlit("agent-");
        assert(id@.subrange(0, 6) =~= "agent-"@);
    }
    id
}

/// The signer behind the agent: the raw secret, the public key and the
/// agent id derived from it.
pub struct Authenticator {
    secret: Vec<u8>,
    public_key: Vec<u8>,
    agent_id: String,
}

impl Authenticator {
    /// The secret's bytes, for specification purposes.
    pub closed spec fn secret_view(&self) -> Seq<u8> {
        self.secret@
    }

    #[verifier::type_invariant]
    spec fn type_inv(self) -> bool {
        &&& self.secret@.len() == 32
        &&& self.public_key@.len() == 32
        &&& self.public_key@ == ed25519_public_key_of(self.secret@)
        &&& self.agent_id@ == spec_agent_id(self.secret@)
    }

    /// Builds the signer from raw secret bytes; exactly the 32-byte
    /// inputs are accepted, anything else is a configuration error.
    pub fn from_secret_bytes(secret: Vec<u8>) -> (r: Result<Self, Error>)
        ensures
            match r {
                Ok(a) => secret@.len() == 32 && a.secret_view() == secret@,
                Err(e) => secret@.len() != 32 && e is InvalidConfig,
            },
    {
        if secret.len() != 32 {
            return Err(Error::InvalidConfig("Private key must be 32 bytes".to_owned()));
        }
        let public_key = ed25519_public_key(secret.as_slice());
        let agent_id = derive_agent_id(public_key.as_slice());
        Ok(Authenticator { secret, public_key, agent_id })
    }

    /// Generates a fresh keypair from the system's randomness.
    pub fn generate() -> (r: Self)
        ensures
            r.secret_view().len() == 32,
    {
        let secret = random_bytes_32();
        let public_key = ed25519_public_key(secret.as_slice());
        let agent_id = derive_agent_id(public_key.as_slice());
        Authenticator { secret, public_key, agent_id }
    }

    /// The raw secret, for persisting to the key file.
    pub fn secret_bytes(&self) -> (r: &Vec<u8>)
        ensures
            r@ == self.secret_view(),
            r@.len() == 32,
    {
        proof {
            use_type_invariant(self);
        }
        &self.secret
    }

    /// The derived agent id.
    pub fn agent_id(&self) -> (r: &str)
        ensures
            r@ == spec_agent_id(self.secret_view()),
    {
        proof {
            use_type_invariant(self);
        }
        self.agent_id.as_str()
    }

    /// The public key, base64-encoded.
    pub fn public_key_base64(&self) -> (r: String)
        ensures
            r@ == base64_of(ed25519_public_key_of(self.secret_view())),
            r@.len() > 0,
    {
        proof {
            use_type_invariant(self);
        }
        base64_encode(self.public_key.as_slice())
    }

    /// Signs a message and returns the signature base64-encoded.
    pub fn sign_challenge(&self, challenge: &[u8]) -> (r: String)
        ensures
            r@ == base64_of(ed25519_signature_of(self.secret_view(), challenge@)),
            r@.len() > 0,
    {
        proof {
            use_type_invariant(self);
        }
        let signature = ed25519_sign(self.secret.as_slice(), challenge);
        base64_encode(signature.as_slice())
    }

    /// Checks a base64-encoded signature over a message against this
    /// agent's own public key. Never errs: malformed signature material
    /// — text that is not base64, or decoded bytes that are not a
    /// 64-byte signature — verifies as `false`, as does a well-formed
    /// signature this key did not make over the message.
    pub fn verify_signature(&self, message: &[u8], signature: &str) -> (r: Result<bool, Error>)
        ensures
            r matches Ok(b) && b == (base64_decoded(signature@) matches Some(sig) && sig.len()
                == 64 && ed25519_verifies(
                ed25519_public_key_of(self.secret_view()),
                message@,
                sig,
            )),
    {
        proof {
            use_type_invariant(self);
        }
        let sig_bytes = match base64_decode(signature) {
            Some(v) => v,
            None => {
                return Ok(false);
            },
        };
        if sig_bytes.len() != 64 {
            return Ok(false);
        }
        Ok(ed25519_verify(self.secret.as_slice(), message, sig_bytes.as_slice()))
    }

    /// Answers an authentication challenge: decodes the base64 challenge,
    /// signs its bytes, and returns the base64 signature together with
    /// the base64 public key. Fails exactly when the challenge is not
    /// valid base64.
    pub fn respond_to_challenge(&self, challenge: &str) -> (r: Result<(String, String), Error>)
        ensures
            match r {
                Ok(p) => {
                    &&& base64_decoded(challenge@) is Some
                    &&& p.0@ == base64_of(
                        ed25519_signature_of(
                            self.secret_view(),
                            base64_decoded(challenge@).unwrap(),
                        ),
                    )
                    &&& p.1@ == base64_of(ed25519_public_key_of(self.secret_view()))
                    &&& p.0@.len() > 0
                    &&& p.1@.len() > 0
                },
                Err(e) => base64_decoded(challenge@) is None && e is Encryption,
            },
    {
        let challenge_bytes = match base64_decode(challenge) {
            Some(v) => v,
            None => {
                return Err(Error::Encryption("invalid base64 challenge".to_owned()));
            },
        };
        let signature = self.sign_challenge(challenge_bytes.as_slice());
        let public_key = self.public_key_base64();
        Ok((signature, public_key))
    }
}

} // verus!
