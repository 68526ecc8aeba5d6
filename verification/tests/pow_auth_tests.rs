//! Proof-of-work and identity tests.

use base64::Engine;
use ed25519_dalek::SigningKey;
use orban_agent_core::auth::Authenticator;
use orban_agent_core::pow::{GpuPowComputer, GpuSignature, PowChallenge, PowConfig, PowResponse};
use sha2::Digest;

fn test_signature() -> GpuSignature {
    GpuSignature {
        device_uuid: "test".to_string(),
        device_model: "test".to_string(),
        cuda_version: None,
        compute_capability: None,
    }
}

#[test]
fn test_difficulty_mask() {
    let mask = GpuPowComputer::difficulty_mask(4);
    assert_eq!(mask[0], 0x0F);

    let mask = GpuPowComputer::difficulty_mask(8);
    assert_eq!(mask[0], 0x00);
    assert_eq!(mask[1], 0xFF);
}

#[test]
fn mask_pattern_difficulty_twelve() {
    let mask = GpuPowComputer::difficulty_mask(12);
    assert_eq!(mask[0], 0x00);
    assert_eq!(mask[1], 0x0F);
}

#[test]
fn test_check_difficulty() {
    let hash = vec![0x00, 0xAB, 0xCD];
    let mask = vec![0x0F, 0xFF, 0xFF];
    assert!(GpuPowComputer::check_difficulty(&hash, &mask));

    let hash = vec![0x10, 0xAB, 0xCD];
    assert!(!GpuPowComputer::check_difficulty(&hash, &mask));
}

#[test]
fn test_pow_computation() {
    let config = PowConfig { difficulty: 8, max_compute_time_sec: 5 };
    let computer = GpuPowComputer::new(config, test_signature());

    let challenge = PowChallenge {
        challenge_id: "test-001".to_string(),
        nonce: b"test_challenge_nonce".to_vec(),
        difficulty: 8,
        deadline: u64::MAX,
    };

    let response = computer.compute(&challenge).unwrap();

    assert!(GpuPowComputer::verify(&challenge, &response).unwrap());
    assert_eq!(response.challenge_id, "test-001");
}

#[test]
fn test_pow_verification_fails_wrong_nonce() {
    let challenge = PowChallenge {
        challenge_id: "test-002".to_string(),
        nonce: b"original_nonce".to_vec(),
        difficulty: 8,
        deadline: u64::MAX,
    };

    let mut response = PowResponse {
        challenge_id: "test-002".to_string(),
        response: vec![0x00; 32],
        solution_nonce: 12345,
        computation_time_ms: 100,
        gpu_signature: test_signature(),
    };

    response.solution_nonce = 99999;
    assert!(!GpuPowComputer::verify(&challenge, &response).unwrap());
}

#[test]
fn pow_response_matches_real_digest() {
    let config = PowConfig { difficulty: 4, max_compute_time_sec: 5 };
    let computer = GpuPowComputer::new(config, test_signature());
    let challenge = PowChallenge {
        challenge_id: "digest-check".to_string(),
        nonce: b"abc".to_vec(),
        difficulty: 4,
        deadline: u64::MAX,
    };
    let response = computer.compute(&challenge).unwrap();
    let mut hasher = sha2::Sha256::new();
    hasher.update(b"abc");
    hasher.update(response.solution_nonce.to_le_bytes());
    let expected: Vec<u8> = hasher.finalize().to_vec();
    assert_eq!(response.response, expected);
    assert!(expected[0] <= 0x0F);
}

#[test]
fn test_authenticator_generation() {
    let auth = Authenticator::generate();
    assert!(auth.agent_id().starts_with("agent-"));
}

#[test]
fn test_sign_and_verify() {
    let auth = Authenticator::generate();
    let message = b"test message";

    let signature = auth.sign_challenge(message);
    let verified = auth.verify_signature(message, &signature).unwrap();

    assert!(verified);
}

#[test]
fn test_challenge_response() {
    let auth = Authenticator::generate();
    let challenge = base64::engine::general_purpose::STANDARD.encode(b"random_challenge_data");

    let (signature, public_key) = auth.respond_to_challenge(&challenge).unwrap();

    assert!(!signature.is_empty());
    assert!(!public_key.is_empty());
}

#[test]
fn agent_id_from_zero_secret_is_stable_and_exact() {
    let secret = vec![0u8; 32];
    let auth1 = Authenticator::from_secret_bytes(secret.clone()).unwrap();
    let auth2 = Authenticator::from_secret_bytes(secret.clone()).unwrap();
    assert_eq!(auth1.agent_id(), auth2.agent_id());

    let key_bytes: [u8; 32] = [0u8; 32];
    let signing_key = SigningKey::from_bytes(&key_bytes);
    let public = signing_key.verifying_key();
    let digest = sha2::Sha256::digest(public.as_bytes());
    let expected = format!("agent-{}", hex::encode(&digest[..16]));
    assert_eq!(auth1.agent_id(), expected);
    assert!(auth1.agent_id().starts_with("agent-"));
    assert_eq!(auth1.agent_id().len(), 38);
    assert!(auth1.agent_id()[6..].chars().all(|c| c.is_ascii_hexdigit() && !c.is_ascii_uppercase()));
}

#[test]
fn wrong_key_length_is_a_config_error() {
    assert!(Authenticator::from_secret_bytes(vec![0u8; 31]).is_err());
    assert!(Authenticator::from_secret_bytes(vec![0u8; 33]).is_err());
    assert!(Authenticator::from_secret_bytes(vec![7u8; 32]).is_ok());
}

#[test]
fn tampered_message_fails_verification() {
    let auth = Authenticator::generate();
    let signature = auth.sign_challenge(b"payload");
    assert!(!auth.verify_signature(b"other payload", &signature).unwrap());
    // malformed signature material verifies as false, never as an error
    assert_eq!(auth.verify_signature(b"payload", "not base64!!"), Ok(false));
    assert_eq!(auth.verify_signature(b"payload", "QQ=="), Ok(false));
}
