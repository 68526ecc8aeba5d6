//! Proof-of-GPU-work: a difficulty-masked SHA-256 search bound to a
//! device identity.
//!
//! Given a challenge nonce and a difficulty `d`, the agent searches for a
//! 64-bit solution nonce such that `SHA-256(nonce || solution_le_bytes)`
//! has at least `d` leading zero bits. The difficulty is encoded as a
//! 32-byte mask: `d / 8` full zero bytes, then a partial byte whose upper
//! `d % 8` bits must be zero.

use vstd::prelude::*;
use vstd::bytes::{spec_u64_to_le_bytes, u64_to_le_bytes};
use vstd::arithmetic::mul::{lemma_mul_inequality, lemma_mul_is_distributive_add_other_way};
use crate::error::Error;
use crate::outside::{sha256_digest, sha256_of, now_unix_seconds_raw};

verus! {

/// Search configuration: difficulty in leading zero bits, and the wall
/// clock budget for one search.
#[derive(Debug, Clone)]
pub struct PowConfig {
    pub difficulty: u32,
    pub max_compute_time_sec: u64,
}

impl Default for PowConfig {
    fn default() -> (r: Self)
        ensures
            r.difficulty == 4,
            r.max_compute_time_sec == 10,
    {
        PowConfig { difficulty: 4, max_compute_time_sec: 10 }
    }
}

/// A challenge issued by the platform. The deadline is a UTC unix
/// timestamp in seconds.
#[derive(Debug, Clone)]
pub struct PowChallenge {
    pub challenge_id: String,
    pub nonce: Vec<u8>,
    pub difficulty: u32,
    pub deadline: u64,
}

/// A solved challenge: the winning hash, the solution nonce that
/// produced it, and the identity of the device that worked.
#[derive(Debug, Clone)]
pub struct PowResponse {
    pub challenge_id: String,
    pub response: Vec<u8>,
    pub solution_nonce: u64,
    pub computation_time_ms: u64,
    pub gpu_signature: GpuSignature,
}

/// The identity of the device a response is bound to.
#[derive(Debug, Clone, PartialEq, Eq)]
pub struct GpuSignature {
    pub device_uuid: String,
    pub device_model: String,
    pub cuda_version: Option<String>,
    pub compute_capability: Option<String>,
}

/// An owned copy of an optional string, equal to the original.
pub fn dup_opt_string(o: &Option<String>) -> (r: Option<String>)
    ensures
        r == *o,
{
    match o {
        Option::None => Option::None,
        Option::Some(s) => Option::Some(s.clone()),
    }
}

impl GpuSignature {
    /// An owned copy, equal to the original.
    pub fn duplicate(&self) -> (r: Self)
        ensures
            r == *self,
    {
        GpuSignature {
            device_uuid: self.device_uuid.clone(),
            device_model: self.device_model.clone(),
            cuda_version: dup_opt_string(&self.cuda_version),
            compute_capability: dup_opt_string(&self.compute_capability),
        }
    }
}

/// The bytes that are hashed for a given solution nonce: the challenge
/// nonce followed by the solution in little-endian order.
pub open spec fn pow_message(nonce: Seq<u8>, solution_nonce: u64) -> Seq<u8> {
    nonce + spec_u64_to_le_bytes(solution_nonce)
}

/// Byte `i` of the difficulty mask.
pub open spec fn mask_byte(difficulty: u32, i: int) -> u8 {
    if i < difficulty as int / 8 {
        0x00u8
    } else if i == difficulty as int / 8 && difficulty as int % 8 != 0 {
        0xFFu8 >> ((difficulty % 8) as u8)
    } else {
        0xFFu8
    }
}

/// The full 32-byte difficulty mask.
pub open spec fn spec_difficulty_mask(difficulty: u32) -> Seq<u8> {
    Seq::new(32, |i: int| mask_byte(difficulty, i))
}

/// A hash satisfies a mask when every bit outside the mask is zero,
/// over the common prefix of the two byte strings.
pub open spec fn satisfies_mask(hash: Seq<u8>, mask: Seq<u8>) -> bool {
    forall|i: int|
        #![trigger hash[i]]
        0 <= i < vstd::math::min(hash.len() as int, mask.len() as int) ==> hash[i] & !mask[i] == 0
}

/// A solution nonce together with the hash it produced is good for a
/// challenge nonce and difficulty.
pub open spec fn pow_solution_ok(
    nonce: Seq<u8>,
    difficulty: u32,
    solution_nonce: u64,
    hash: Seq<u8>,
) -> bool {
    &&& hash == sha256_of(pow_message(nonce, solution_nonce))
    &&& satisfies_mask(hash, spec_difficulty_mask(difficulty))
}

/// What `verify` checks of a response: the ids match, the posted hash is
/// the true hash of the posted solution, and it meets the difficulty.
pub open spec fn spec_pow_verifies(challenge: PowChallenge, response: PowResponse) -> bool {
    &&& challenge.challenge_id@ == response.challenge_id@
    &&& response.response@ == sha256_of(pow_message(challenge.nonce@, response.solution_nonce))
    &&& satisfies_mask(response.response@, spec_difficulty_mask(challenge.difficulty))
}

/// How many leading zero bits a byte has.
pub open spec fn byte_leading_zeros(b: u8) -> nat {
    if b >= 128 { 0nat }
    else if b >= 64 { 1nat }
    else if b >= 32 { 2nat }
    else if b >= 16 { 3nat }
    else if b >= 8 { 4nat }
    else if b >= 4 { 5nat }
    else if b >= 2 { 6nat }
    else if b >= 1 { 7nat }
    else { 8nat }
}

/// How many leading zero bits a byte string has.
pub open spec fn leading_zero_bits(h: Seq<u8>) -> nat
    decreases h.len(),
{
    if h.len() == 0 {
        0nat
    } else if h.first() == 0 {
        8 + leading_zero_bits(h.drop_first())
    } else {
        byte_leading_zeros(h.first())
    }
}

/// A byte whose bits outside `0xFF >> r` are all zero has at least `r`
/// leading zero bits.
proof fn lemma_byte_lz(b: u8, r: u32)
    requires
        1 <= r < 8,
        b & !(0xFFu8 >> (r as u8)) == 0,
    ensures
        byte_leading_zeros(b) >= r,
{
    let r8 = r as u8;
    if r == 1 {
        assert(b & !(0xFFu8 >> 1u8) == 0 ==> b < 128) by (bit_vector);
    } else if r == 2 {
        assert(b & !(0xFFu8 >> 2u8) == 0 ==> b < 64) by (bit_vector);
    } else if r == 3 {
        assert(b & !(0xFFu8 >> 3u8) == 0 ==> b < 32) by (bit_vector);
    } else if r == 4 {
        assert(b & !(0xFFu8 >> 4u8) == 0 ==> b < 16) by (bit_vector);
    } else if r == 5 {
        assert(b & !(0xFFu8 >> 5u8) == 0 ==> b < 8) by (bit_vector);
    } else if r == 6 {
        assert(b & !(0xFFu8 >> 6u8) == 0 ==> b < 4) by (bit_vector);
    } else {
        assert(b & !(0xFFu8 >> 7u8) == 0 ==> b < 2) by (bit_vector);
    }
}

/// A byte string whose first `k` bytes are zero has at least `8 * k`
/// leading zero bits, plus whatever byte `k` itself contributes.
proof fn lemma_lz_prefix(h: Seq<u8>, k: int)
    requires
        0 <= k <= h.len(),
        forall|i: int| 0 <= i < k ==> #[trigger] h[i] == 0,
    ensures
        leading_zero_bits(h) >= 8 * k,
        k < h.len() ==> leading_zero_bits(h) >= 8 * k + byte_leading_zeros(h[k]),
    decreases k,
{
    if k == 0 {
        if h.len() > 0 {
            if h.first() == 0 {
                assert(byte_leading_zeros(h[0]) == 8);
            }
        }
    } else {
        let t = h.drop_first();
        assert(forall|i: int| 0 <= i < k - 1 ==> #[trigger] t[i] == 0);
        lemma_lz_prefix(t, k - 1);
        assert(h.first() == 0);
        if k < h.len() {
            assert(t[k - 1] == h[k]);
        }
    }
}

/// The law the mask encodes: any 32-byte hash that satisfies the mask
/// for difficulty `d <= 256` has at least `d` leading zero bits.
pub proof fn lemma_mask_implies_leading_zeros(hash: Seq<u8>, difficulty: u32)
    requires
        hash.len() == 32,
        difficulty <= 256,
        satisfies_mask(hash, spec_difficulty_mask(difficulty)),
    ensures
        leading_zero_bits(hash) >= difficulty,
{
    let d = difficulty as int;
    let q = d / 8;
    let r = d % 8;
    assert forall|i: int| 0 <= i < q implies #[trigger] hash[i] == 0 by {
        assert(hash[i] & !mask_byte(difficulty, i) == 0);
        assert(mask_byte(difficulty, i) == 0x00u8);
        let b = hash[i];
        assert(b & !0x00u8 == 0 ==> b == 0) by (bit_vector);
    }
    lemma_lz_prefix(hash, q);
    if r != 0 {
        assert(q < 32);
        assert(hash[q] & !mask_byte(difficulty, q) == 0);
        assert(mask_byte(difficulty, q) == 0xFFu8 >> ((difficulty % 8) as u8));
        lemma_byte_lz(hash[q], (difficulty % 8));
        assert(leading_zero_bits(hash) >= 8 * q + byte_leading_zeros(hash[q]));
    }
}

/// Appends a byte slice to a vector.
pub fn append_bytes(dst: &mut Vec<u8>, src: &[u8])
    ensures
        final(dst)@ == old(dst)@ + src@,
{
    let ghost orig = dst@;
    let n = src.len();
    for i in 0..n
        invariant
            n == src@.len(),
            dst@ == orig + src@.subrange(0, i as int),
    {
        dst.push(src[i]);
        proof {
            assert(src@.subrange(0, i + 1) =~= src@.subrange(0, i as int).push(src@[i as int]));
        }
    }
    proof {
        assert(src@.subrange(0, n as int) =~= src@);
    }
}

/// Builds the bytes that are hashed for one candidate solution.
fn pow_message_bytes(nonce: &[u8], solution_nonce: u64) -> (r: Vec<u8>)
    ensures
        r@ == pow_message(nonce@, solution_nonce),
{
    let mut v: Vec<u8> = Vec::new();
    append_bytes(&mut v, nonce);
    let tail = u64_to_le_bytes(solution_nonce);
    append_bytes(&mut v, tail.as_slice());
    proof {
        assert(v@ =~= pow_message(nonce@, solution_nonce));
    }
    v
}

/// Searches the arithmetic progression `start, start + stride, ...` for
/// a solution, testing at most `max_iters` candidates. Returns the
/// first solution found in that order, or `None` when every candidate
/// tested fails the mask.
pub fn compute_search(
    nonce: &[u8],
    difficulty: u32,
    start: u64,
    stride: u64,
    max_iters: u64,
) -> (r: Option<(u64, Vec<u8>)>)
    requires
        stride >= 1,
    ensures
        match r {
            Some(p) => {
                &&& pow_solution_ok(nonce@, difficulty, p.0, p.1@)
                &&& exists|k: int| 0 <= k < max_iters && p.0 == start + #[trigger] (k * stride)
            },
            None => forall|k: int|
                0 <= k < max_iters && start + #[trigger] (k * stride) <= u64::MAX
                    ==> !satisfies_mask(
                    sha256_of(pow_message(nonce@, (start + k * stride) as u64)),
                    spec_difficulty_mask(difficulty),
                ),
        },
{
    let mask = difficulty_mask(difficulty);
    let mut sol: u64 = start;
    let mut k: u64 = 0;
    while k < max_iters
        invariant
            stride >= 1,
            k <= max_iters,
            k < max_iters ==> sol == start + k * stride,
            mask@ == spec_difficulty_mask(difficulty),
            forall|j: int|
                0 <= j < k ==> !satisfies_mask(
                    sha256_of(pow_message(nonce@, (start + #[trigger] (j * stride)) as u64)),
                    spec_difficulty_mask(difficulty),
                ),
        decreases max_iters - k,
    {
        let msg = pow_message_bytes(nonce, sol);
        let h = sha256_digest(msg.as_slice());
        if check_difficulty(h.as_slice(), mask.as_slice()) {
            proof {
                assert(sol == start + (k as int) * stride);
            }
            return Some((sol, h));
        }
        k = k + 1;
        if k >= max_iters {
            return None;
        }
        match sol.checked_add(stride) {
            Some(next) => {
                proof {
                    lemma_mul_is_distributive_add_other_way(stride as int, k as int - 1, 1);
                }
                sol = next;
            },
            None => {
                proof {
                    lemma_mul_is_distributive_add_other_way(stride as int, k as int - 1, 1);
                    assert(start + (k as int) * stride > u64::MAX);
                    assert forall|j: int| k <= j < max_iters implies start + #[trigger] (j * stride)
                        > u64::MAX by {
                        lemma_mul_inequality(k as int, j, stride as int);
                    }
                }
                return None;
            },
        }
    }
    None
}

/// The search engine for one agent: its configuration and the identity
/// of the device it answers for.
pub struct GpuPowComputer {
    pub config: PowConfig,
    pub gpu_info: GpuSignature,
}

impl GpuPowComputer {
    /// A computer for the given device identity.
    pub fn new(config: PowConfig, gpu_info: GpuSignature) -> (r: Self)
        ensures
            r.config == config,
            r.gpu_info == gpu_info,
    {
        GpuPowComputer { config, gpu_info }
    }

    /// The device identity responses will carry.
    pub fn gpu_signature(&self) -> (r: &GpuSignature)
        ensures
            r == self.gpu_info,
    {
        &self.gpu_info
    }

    /// Solves a challenge, or reports why it could not. On success the
    /// response is exactly a verifying answer to the challenge, carrying
    /// this computer's device identity. Failure is either a deadline
    /// already passed or the wall-clock budget running out.
    pub fn compute(&self, challenge: &PowChallenge) -> (r: Result<PowResponse, Error>)
        ensures
            match r {
                Ok(resp) => {
                    &&& spec_pow_verifies(*challenge, resp)
                    &&& resp.gpu_signature == self.gpu_info
                },
                Err(e) => e is Unknown || e is TaskTimeout,
            },
    {
        let start_time = now_unix_seconds_raw();
        let now_u: u64 = if start_time < 0 { 0 } else { start_time as u64 };
        if now_u > challenge.deadline {
            return Err(Error::Unknown("Challenge deadline exceeded".to_owned()));
        }
        let mask = difficulty_mask(challenge.difficulty);
        let mut sol: u64 = 0;
        loop
            invariant
                mask@ == spec_difficulty_mask(challenge.difficulty),
            decreases u64::MAX - sol,
        {
            let elapsed: u64 = match now_unix_seconds_raw().checked_sub(start_time) {
                Some(e) => if e < 0 { 0 } else { e as u64 },
                None => u64::MAX,
            };
            if elapsed > self.config.max_compute_time_sec {
                return Err(Error::TaskTimeout);
            }
            let msg = pow_message_bytes(challenge.nonce.as_slice(), sol);
            let h = sha256_digest(msg.as_slice());
            if check_difficulty(h.as_slice(), mask.as_slice()) {
                let elapsed_ms = match elapsed.checked_mul(1000) {
                    Some(ms) => ms,
                    None => u64::MAX,
                };
                return Ok(
                    PowResponse {
                        challenge_id: challenge.challenge_id.clone(),
                        response: h,
                        solution_nonce: sol,
                        computation_time_ms: elapsed_ms,
                        gpu_signature: self.gpu_info.duplicate(),
                    },
                );
            }
            match sol.checked_add(1) {
                Some(next) => {
                    sol = next;
                },
                None => {
                    return Err(Error::TaskTimeout);
                },
            }
        }
    }

    /// The byte mask for a difficulty: `difficulty / 8` zero bytes, a
    /// partial byte with the top `difficulty % 8` bits cleared, then
    /// unrestricted bytes.
    pub fn difficulty_mask(difficulty: u32) -> (r: Vec<u8>)
        ensures
            r@ == spec_difficulty_mask(difficulty),
            r@.len() == 32,
    {
        difficulty_mask(difficulty)
    }

    /// Whether a hash satisfies a mask.
    pub fn check_difficulty(hash: &[u8], mask: &[u8]) -> (r: bool)
        ensures
            r == satisfies_mask(hash@, mask@),
    {
        check_difficulty(hash, mask)
    }

    /// Checks a response against a challenge: id match, recomputed hash
    /// match, and difficulty. Deterministic and never errs.
    pub fn verify(challenge: &PowChallenge, response: &PowResponse) -> (r: Result<bool, Error>)
        ensures
            r == Ok::<bool, Error>(spec_pow_verifies(*challenge, *response)),
    {
        if !strings_equal(&challenge.challenge_id, &response.challenge_id) {
            return Ok(false);
        }
        let msg = pow_message_bytes(challenge.nonce.as_slice(), response.solution_nonce);
        let computed = sha256_digest(msg.as_slice());
        if !bytes_equal(computed.as_slice(), response.response.as_slice()) {
            return Ok(false);
        }
        let mask = difficulty_mask(challenge.difficulty);
        if !check_difficulty(computed.as_slice(), mask.as_slice()) {
            return Ok(false);
        }
        Ok(true)
    }
}

/// The byte mask for a difficulty.
fn difficulty_mask(difficulty: u32) -> (r: Vec<u8>)
    ensures
        r@ == spec_difficulty_mask(difficulty),
        r@.len() == 32,
{
    let bytes_to_zero = difficulty / 8;
    let bits_to_zero = difficulty % 8;
    let mut mask: Vec<u8> = Vec::new();
    for i in 0..32usize
        invariant
            bytes_to_zero == difficulty / 8,
            bits_to_zero == difficulty % 8,
            mask@.len() == i,
            forall|j: int| 0 <= j < i ==> #[trigger] mask@[j] == mask_byte(difficulty, j),
    {
        let b: u8 = if (i as u32) < bytes_to_zero {
            0x00
        } else if (i as u32) == bytes_to_zero && bits_to_zero != 0 {
            0xFFu8 >> (bits_to_zero as u8)
        } else {
            0xFF
        };
        mask.push(b);
    }
    proof {
        assert(mask@ =~= spec_difficulty_mask(difficulty));
    }
    mask
}

/// Whether a hash satisfies a mask, over their common prefix.
fn check_difficulty(hash: &[u8], mask: &[u8]) -> (r: bool)
    ensures
        r == satisfies_mask(hash@, mask@),
{
    let n = if hash.len() <= mask.len() {
        hash.len()
    } else {
        mask.len()
    };
    for i in 0..n
        invariant
            n == vstd::math::min(hash@.len() as int, mask@.len() as int),
            forall|j: int| #![trigger hash@[j]] 0 <= j < i ==> hash@[j] & !mask@[j] == 0,
    {
        if hash[i] & !mask[i] != 0 {
            assert(!satisfies_mask(hash@, mask@));
            return false;
        }
    }
    true
}

/// Byte-string equality.
pub fn bytes_equal(a: &[u8], b: &[u8]) -> (r: bool)
    ensures
        r == (a@ == b@),
{
    if a.len() != b.len() {
        return false;
    }
    let n = a.len();
    for i in 0..n
        invariant
            n == a@.len(),
            a@.len() == b@.len(),
            forall|j: int| 0 <= j < i ==> a@[j] == #[trigger] b@[j],
    {
        if a[i] != b[i] {
            return false;
        }
    }
    proof {
        assert(a@ =~= b@);
    }
    true
}

/// String equality over views.
pub fn strings_equal(a: &String, b: &String) -> (r: bool)
    ensures
        r == (a@ == b@),
{
    a.eq(b)
}

} // verus!
