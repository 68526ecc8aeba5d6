//! Task execution support: device selection and validation, the
//! checksum rule of the content-addressed cache, the cache eviction
//! rule, and proof-of-work generation for finished tasks.
//!
//! Downloading, uploading and running the sandboxed process are host
//! concerns outside the library; every decision they act on is here.

use vstd::prelude::*;
use vstd::string::StringSliceAdditionalSpecFns;
use crate::error::Error;
use crate::hal::{select_best, spec_meets_requirements, GpuDevice};
use crate::json::dec_digits;
use crate::outside::{hex_encode, hex_of, sha256_digest, sha256_of};
use crate::pow::append_bytes;
use crate::protocol::TaskRequirements;

verus! {

broadcast use vstd::seq::group_seq_axioms;

/// How a task's process is isolated.
#[derive(Debug, Clone, Copy, PartialEq, Eq, Structural)]
pub enum SandboxType {
    Docker,
    Native,
}

/// Where a task stands in its run.
#[derive(Debug, Clone, PartialEq)]
pub enum ExecutionStatus {
    Preparing,
    Running,
    Completed,
    Failed(String),
}

/// The sandbox hand-off: container isolation when a runtime is
/// reachable, a bare subprocess otherwise.
#[derive(Debug, Clone)]
pub struct Sandbox {
    pub sandbox_type: SandboxType,
}

impl Sandbox {
    /// Picks the isolation kind from whether a container runtime was
    /// reachable at startup.
    pub fn new(container_runtime_available: bool) -> (r: Self)
        ensures
            r.sandbox_type == (if container_runtime_available {
                SandboxType::Docker
            } else {
                SandboxType::Native
            }),
    {
        if container_runtime_available {
            Sandbox { sandbox_type: SandboxType::Docker }
        } else {
            Sandbox { sandbox_type: SandboxType::Native }
        }
    }
}

/// Whether a cached file's bytes carry the expected hex digest.
pub fn checksum_matches(contents: &[u8], expected_hex: &str) -> (r: bool)
    ensures
        r == (hex_of(sha256_of(contents@)) == expected_hex@),
{
    let digest = sha256_digest(contents);
    let actual = hex_encode(digest.as_slice());
    crate::json::str_eq(actual.as_str(), expected_hex)
}

/// Whether a cached file is old enough to evict: modified strictly
/// before `days` whole days ago.
pub fn should_evict(modified_unix: u64, now: u64, days: u64) -> (r: bool)
    ensures
        r == ((modified_unix as int) < now - days * 86400),
{
    match days.checked_mul(86400) {
        Some(window) => match now.checked_sub(window) {
            Some(cutoff) => modified_unix < cutoff,
            None => false,
        },
        None => false,
    }
}

/// The proof attached to a finished task: a challenge derived from the
/// task, a response binding the result to the device, and the device's
/// own signature, all as hex digests.
#[derive(Debug, Clone, PartialEq)]
pub struct GeneratedProof {
    pub challenge: String,
    pub response: String,
    pub gpu_signature: String,
    pub timestamp: u64,
}

/// The proof generator.
#[derive(Debug, Clone)]
pub struct ProofGenerator {
}

impl ProofGenerator {
    /// A generator; it needs no state.
    pub fn new() -> (r: Self) {
        ProofGenerator {  }
    }

    /// The local stand-in challenge for a task: the digest of its id and
    /// creation time, until the platform issues real challenges.
    pub fn get_challenge(&self, task_id: &str, created_at_rfc3339: &str) -> (r: String)
        ensures
            r@ == hex_of(sha256_of(task_id.spec_bytes() + created_at_rfc3339.spec_bytes())),
    {
        let mut bytes: Vec<u8> = Vec::new();
        append_bytes(&mut bytes, task_id.as_bytes());
        append_bytes(&mut bytes, created_at_rfc3339.as_bytes());
        proof {
            assert(bytes@ =~= task_id.spec_bytes() + created_at_rfc3339.spec_bytes());
        }
        hex_encode(sha256_digest(bytes.as_slice()).as_slice())
    }

    /// The response: the digest of the challenge, the result and the
    /// device's hardware id, binding all three together.
    pub fn compute_response(&self, challenge: &str, result_text: &str, hardware_id: &str) -> (r:
        String)
        ensures
            r@ == hex_of(
                sha256_of(
                    challenge.spec_bytes() + result_text.spec_bytes() + hardware_id.spec_bytes(),
                ),
            ),
    {
        let mut bytes: Vec<u8> = Vec::new();
        append_bytes(&mut bytes, challenge.as_bytes());
        append_bytes(&mut bytes, result_text.as_bytes());
        append_bytes(&mut bytes, hardware_id.as_bytes());
        proof {
            assert(bytes@ =~= challenge.spec_bytes() + result_text.spec_bytes()
                + hardware_id.spec_bytes());
        }
        hex_encode(sha256_digest(bytes.as_slice()).as_slice())
    }

    /// The device signature: the digest of the hardware id, the model
    /// name and the seconds of device time spent.
    pub fn generate_gpu_signature(&self, hardware_id: &str, gpu_model: &str, gpu_time_seconds: u64)
        -> (r: String)
        ensures
            r@ == hex_of(
                sha256_of(
                    hardware_id.spec_bytes() + gpu_model.spec_bytes() + vstd::utf8::encode_utf8(
                        dec_digits(gpu_time_seconds as nat),
                    ),
                ),
            ),
    {
        let mut time_text = String::new();
        crate::json::write_uint(gpu_time_seconds, &mut time_text);
        proof {
            assert(time_text@ =~= dec_digits(gpu_time_seconds as nat));
        }
        let mut bytes: Vec<u8> = Vec::new();
        append_bytes(&mut bytes, hardware_id.as_bytes());
        append_bytes(&mut bytes, gpu_model.as_bytes());
        append_bytes(&mut bytes, time_text.as_str().as_bytes());
        proof {
            assert(bytes@ =~= hardware_id.spec_bytes() + gpu_model.spec_bytes()
                + vstd::utf8::encode_utf8(dec_digits(gpu_time_seconds as nat)));
        }
        hex_encode(sha256_digest(bytes.as_slice()).as_slice())
    }

    /// The whole proof for a finished task.
    pub fn generate(
        &self,
        task_id: &str,
        created_at_rfc3339: &str,
        result_text: &str,
        hardware_id: &str,
        gpu_model: &str,
        gpu_time_seconds: u64,
        now: u64,
    ) -> (r: GeneratedProof)
        ensures
            r.challenge@ == hex_of(
                sha256_of(task_id.spec_bytes() + created_at_rfc3339.spec_bytes()),
            ),
            r.response@ == hex_of(
                sha256_of(
                    vstd::utf8::encode_utf8(
                        hex_of(
                            sha256_of(task_id.spec_bytes() + created_at_rfc3339.spec_bytes()),
                        ),
                    ) + result_text.spec_bytes() + hardware_id.spec_bytes(),
                ),
            ),
            r.gpu_signature@ == hex_of(
                sha256_of(
                    hardware_id.spec_bytes() + gpu_model.spec_bytes() + vstd::utf8::encode_utf8(
                        dec_digits(gpu_time_seconds as nat),
                    ),
                ),
            ),
            r.timestamp == now,
    {
        let challenge = self.get_challenge(task_id, created_at_rfc3339);
        let response = self.compute_response(challenge.as_str(), result_text, hardware_id);
        let gpu_signature = self.generate_gpu_signature(hardware_id, gpu_model, gpu_time_seconds);
        GeneratedProof { challenge, response, gpu_signature, timestamp: now }
    }
}

impl Default for ProofGenerator {
    fn default() -> (r: Self) {
        ProofGenerator {  }
    }
}

/// Coordinates one task at a time over the discovered devices.
#[derive(Debug)]
pub struct TaskExecutor {
    pub gpus: Vec<GpuDevice>,
    pub sandbox: Sandbox,
    pub proof_generator: ProofGenerator,
}

impl TaskExecutor {
    /// An executor over the given devices, isolated by container when a
    /// runtime is reachable.
    pub fn new(gpus: Vec<GpuDevice>, container_runtime_available: bool) -> (r: Result<
        TaskExecutor,
        Error,
    >)
        ensures
            r matches Ok(e) && e.gpus == gpus && e.sandbox.sandbox_type == (
            if container_runtime_available {
                SandboxType::Docker
            } else {
                SandboxType::Native
            }),
    {
        Ok(
            TaskExecutor {
                gpus,
                sandbox: Sandbox::new(container_runtime_available),
                proof_generator: ProofGenerator::new(),
            },
        )
    }

    /// The device a task should run on: the best passing device, by
    /// index. No device at all is a hard fault; no passing device
    /// rejects this one task for want of memory.
    pub fn select_gpu(&self, req: &TaskRequirements) -> (r: Result<usize, Error>)
        ensures
            match r {
                Ok(i) => {
                    &&& i < self.gpus@.len()
                    &&& spec_meets_requirements(self.gpus@[i as int], *req)
                    &&& forall|j: int|
                        0 <= j < self.gpus@.len() && spec_meets_requirements(
                            #[trigger] self.gpus@[j],
                            *req,
                        ) ==> self.gpus@[j].memory.free <= self.gpus@[i as int].memory.free
                },
                Err(e) => {
                    &&& (e is GpuNotFound || e is InsufficientVram)
                    &&& (e is GpuNotFound <==> self.gpus@.len() == 0)
                    &&& forall|j: int|
                        0 <= j < self.gpus@.len() ==> !spec_meets_requirements(
                            #[trigger] self.gpus@[j],
                            *req,
                        )
                },
            },
    {
        if self.gpus.len() == 0 {
            return Err(Error::GpuNotFound);
        }
        match select_best(&self.gpus, req) {
            Some(i) => Ok(i),
            None => Err(
                Error::InsufficientVram { required: req.min_vram_gb, available: 0 },
            ),
        }
    }

    /// Checks one device against a task's requirements; failure names
    /// the memory shortfall.
    pub fn validate_task(&self, device: &GpuDevice, req: &TaskRequirements) -> (r: Result<
        (),
        Error,
    >)
        ensures
            match r {
                Ok(_) => spec_meets_requirements(*device, *req),
                Err(e) => !spec_meets_requirements(*device, *req) && e is InsufficientVram,
            },
    {
        if device.meets_requirements(req) {
            Ok(())
        } else {
            Err(Error::InsufficientVram { required: req.min_vram_gb, available: 0 })
        }
    }
}

} // verus!

verus! {

/// The kinds of work a task can ask for.
#[derive(Debug, Clone, Copy, PartialEq, Eq, Structural)]
pub enum TaskType {
    Inference,
    Training,
    FineTuning,
}

/// Where a task stands in its lifecycle on this agent.
#[derive(Debug, Clone, Copy, PartialEq, Eq, Structural)]
pub enum TaskStatus {
    Pending,
    Assigned,
    Downloading,
    Running,
    Completed,
    Failed,
}

/// A device kind as tasks prefer them.
#[derive(Debug, Clone, Copy, PartialEq, Eq, Structural)]
pub enum GpuType {
    Nvidia,
    Amd,
    Intel,
    Apple,
}

/// A model resource a task needs.
#[derive(Debug, Clone, PartialEq)]
pub struct ModelInfo {
    pub name: String,
    pub version: String,
    pub source: String,
    pub size_bytes: u64,
    pub checksum: String,
}

/// A dataset resource a task needs.
#[derive(Debug, Clone, PartialEq)]
pub struct DatasetInfo {
    pub name: String,
    pub source: String,
    pub size_bytes: u64,
    pub checksum: String,
}

/// What a finished task hands back: a stored artifact or inline data.
#[derive(Debug, Clone, PartialEq)]
pub enum ResultData {
    Url { url: String, size_bytes: u64, checksum: String },
    Inline { data: String },
}

} // verus!
