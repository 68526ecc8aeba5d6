//! The agent's error taxonomy, with its stable wire codes and the
//! recoverable / non-recoverable split that drives retry behaviour.

use vstd::prelude::*;

verus! {

/// Every failure the agent can surface, by kind.
#[derive(Debug, Clone, PartialEq, Eq)]
pub enum Error {
    /// No usable GPU was discovered on this host.
    GpuNotFound,
    /// A device query failed.
    Gpu(String),
    /// A task asked for more VRAM than any device offers.
    InsufficientVram { required: u32, available: u32 },
    /// The transport could not connect or lost its connection.
    ConnectionFailed(String),
    /// The platform rejected the authentication handshake.
    AuthenticationFailed(String),
    /// The sandboxed task itself failed.
    TaskExecutionFailed(String),
    /// A resource download failed.
    DownloadFailed(String),
    /// A result upload failed.
    UploadFailed(String),
    /// The task ran past its deadline.
    TaskTimeout,
    /// The task exhausted device memory.
    OutOfMemory,
    /// A signature did not verify.
    SignatureVerificationFailed,
    /// Key or signature material could not be decoded.
    Encryption(String),
    /// The configuration is unusable.
    InvalidConfig(String),
    /// A downloaded artifact failed its checksum.
    Verification(String),
    /// The agent has not registered with the platform yet.
    NotRegistered,
    /// A wire frame could not be decoded.
    Serialization(String),
    /// Anything else.
    Unknown(String),
}

/// Which error kinds feed the retry machinery rather than ending the
/// task or the process.
pub open spec fn spec_is_recoverable(e: Error) -> bool {
    match e {
        Error::ConnectionFailed(_) => true,
        Error::DownloadFailed(_) => true,
        Error::TaskTimeout => true,
        _ => false,
    }
}

/// The stable short code each kind carries on the wire.
pub open spec fn spec_error_code(e: Error) -> Seq<char> {
    match e {
        Error::GpuNotFound => "GPU_NOT_AVAILABLE"@,
        Error::InsufficientVram { .. } => "INSUFFICIENT_VRAM"@,
        Error::Gpu(_) => "GPU_ERROR"@,
        Error::ConnectionFailed(_) => "CONNECTION_FAILED"@,
        Error::AuthenticationFailed(_) => "AUTH_FAILED"@,
        Error::TaskExecutionFailed(_) => "TASK_EXECUTION_FAILED"@,
        Error::DownloadFailed(_) => "DOWNLOAD_FAILED"@,
        Error::UploadFailed(_) => "UPLOAD_FAILED"@,
        Error::TaskTimeout => "TIMEOUT"@,
        Error::OutOfMemory => "OOM_ERROR"@,
        Error::SignatureVerificationFailed => "VALIDATION_FAILED"@,
        _ => "UNKNOWN_ERROR"@,
    }
}

impl Error {
    /// Whether the error is transient: only connection failures,
    /// download failures and task timeouts are retried.
    pub fn is_recoverable(&self) -> (r: bool)
        ensures
            r == spec_is_recoverable(*self),
    {
        match self {
            Error::ConnectionFailed(_) => true,
            Error::DownloadFailed(_) => true,
            Error::TaskTimeout => true,
            _ => false,
        }
    }

    /// The stable code string used on the wire for this kind.
    pub fn error_code(&self) -> (r: &'static str)
        ensures
            r@ == spec_error_code(*self),
    {
        match self {
            Error::GpuNotFound => "GPU_NOT_AVAILABLE",
            Error::InsufficientVram { .. } => "INSUFFICIENT_VRAM",
            Error::Gpu(_) => "GPU_ERROR",
            Error::ConnectionFailed(_) => "CONNECTION_FAILED",
            Error::AuthenticationFailed(_) => "AUTH_FAILED",
            Error::TaskExecutionFailed(_) => "TASK_EXECUTION_FAILED",
            Error::DownloadFailed(_) => "DOWNLOAD_FAILED",
            Error::UploadFailed(_) => "UPLOAD_FAILED",
            Error::TaskTimeout => "TIMEOUT",
            Error::OutOfMemory => "OOM_ERROR",
            Error::SignatureVerificationFailed => "VALIDATION_FAILED",
            _ => "UNKNOWN_ERROR",
        }
    }
}

} // verus!
