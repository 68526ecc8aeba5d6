//! Earnings, hardware selection, monitor, reconnect and helper tests.

use orban_agent_core::agent::{
    decide_task_assign, next_lifecycle, AgentLifecycle, AgentState, LifecycleEvent, TaskDecision,
    apply_task_accept, apply_task_finished,
};
use orban_agent_core::config::Config;
use orban_agent_core::daemon::{parse_pid_text, pid_file_text, DaemonManager};
use orban_agent_core::earnings::{EarningRecord, EarningsTracker};
use orban_agent_core::error::Error;
use orban_agent_core::executor::{
    checksum_matches, should_evict, ProofGenerator, Sandbox, SandboxType, TaskExecutor,
};
use orban_agent_core::hal::{
    estimate_cuda_cores, parse_compute_capability, GPUDetector, GpuDevice, MemoryInfo,
};
use orban_agent_core::money::Money;
use orban_agent_core::monitor::{are_all_idle, is_any_overheating, GPUMonitor, GPUSnapshot};
use orban_agent_core::protocol::{CPUInfo, EarningStatus, GPUStatus, GPUVendor, TaskRequirements};
use orban_agent_core::reconnect::ReconnectStrategy;
use orban_agent_core::textutil::{format_duration, str_contains, truncate};
use sha2::Digest;

const GIB: u64 = 1 << 30;

fn device(index: u32, total_gib: u64, free_gib: u64) -> GpuDevice {
    GpuDevice {
        index,
        vendor: GPUVendor::NVIDIA,
        model: format!("RTX {}", 4090),
        memory: MemoryInfo {
            total: total_gib * GIB,
            free: free_gib * GIB,
            used: (total_gib - free_gib) * GIB,
        },
        utilization_permille: 50,
        temperature_deci_c: 650,
        power_mw: 150_000,
        fan_speed_permille: 250,
        compute_capability: "8.9".to_string(),
        cuda_cores: Some(16384),
        pcie_bandwidth_gbps: 32,
        uuid: format!("gpu-{}", index),
    }
}

fn requirements(min_vram_gb: u32) -> TaskRequirements {
    TaskRequirements {
        min_vram_gb,
        min_compute_capability: "7.0".to_string(),
        framework: "pytorch".to_string(),
        fp16: true,
    }
}

#[test]
fn test_truncate() {
    assert_eq!(truncate("hello", 10), "hello");
    assert_eq!(truncate("hello world", 5), "hello...");
}

#[test]
fn test_daemon_manager_creation() {
    let manager = DaemonManager::new("/tmp/orban-data");
    assert!(manager.pid_file().ends_with("orban-agent.pid"));
    assert!(manager.state_file().ends_with("state.json"));
}

#[test]
fn test_proof_generator_creation() {
    let generator = ProofGenerator::new();
    let challenge = generator.get_challenge("task-1", "2024-01-01T00:00:00Z");
    assert_eq!(challenge.len(), 64);
}

#[test]
fn proof_challenge_matches_real_digest() {
    let generator = ProofGenerator::new();
    let challenge = generator.get_challenge("task-1", "2024-01-01T00:00:00Z");
    let mut hasher = sha2::Sha256::new();
    hasher.update(b"task-1");
    hasher.update(b"2024-01-01T00:00:00Z");
    assert_eq!(challenge, hex::encode(hasher.finalize()));
}

#[test]
fn test_default_config() {
    let config = Config::default_in("/tmp/orban", "host");
    assert_eq!(config.platform_url, "https://platform.orban.ai");
    assert_eq!(config.gpu.max_concurrent_tasks, 1);
    assert_eq!(config.network.heartbeat_interval_secs, 30);
    assert_eq!(config.earnings_file(), "/tmp/orban/earnings.json");
}

#[test]
fn test_reconnect_strategy() {
    let mut strategy = ReconnectStrategy::new();

    assert_eq!(strategy.next_delay(), Some(1));
    assert_eq!(strategy.next_delay(), Some(2));
    assert_eq!(strategy.next_delay(), Some(4));
    assert_eq!(strategy.next_delay(), Some(8));

    strategy.reset();
    assert_eq!(strategy.next_delay(), Some(1));
}

#[test]
fn reconnect_gives_up_after_ten_attempts() {
    let mut strategy = ReconnectStrategy::new();
    let mut delays = Vec::new();
    for _ in 0..10 {
        delays.push(strategy.next_delay().unwrap());
    }
    assert_eq!(delays, vec![1, 2, 4, 8, 16, 32, 64, 128, 256, 300]);
    assert_eq!(strategy.next_delay(), None);
}

#[test]
fn test_earning_record_creation() {
    let record = EarningRecord::from_task_result("task-1", "RTX 4090", 5400, 1_700_000_000);
    assert_eq!(record.rate_per_hour, Money::from_micro_usd(25_000));
    assert_eq!(record.amount, Money::from_micro_usd(37_500));
    assert!(record.amount.micro_usd > 0);
}

#[test]
fn test_earnings_tracker() {
    let mut tracker = EarningsTracker::new();
    assert_eq!(tracker.records.len(), 0);

    let record = EarningRecord {
        timestamp: 1_700_000_000,
        task_id: "task-1".to_string(),
        gpu_model: "RTX 4090".to_string(),
        gpu_seconds: 3600,
        rate_per_hour: Money::parse_text("0.025000").unwrap(),
        amount: Money::parse_text("0.025000").unwrap(),
        status: EarningStatus::Confirmed,
    };

    tracker.add_earnings(record);
    assert_eq!(tracker.records.len(), 1);

    let data = tracker.get_data(1_700_000_000);
    assert!(data.total_earnings.micro_usd > 0);
}

#[test]
fn earnings_aggregation_by_status_and_day() {
    let day: u64 = 19_000;
    let base = day * 86_400;
    let mut tracker = EarningsTracker::new();
    let mk = |ts: u64, status: EarningStatus, micro: u64| EarningRecord {
        timestamp: ts,
        task_id: format!("t-{}", micro),
        gpu_model: "RTX 4090".to_string(),
        gpu_seconds: 60,
        rate_per_hour: Money::from_micro_usd(25_000),
        amount: Money::from_micro_usd(micro),
        status,
    };
    tracker.add_earnings(mk(base + 10 * 3600, EarningStatus::Pending, 500_000));
    tracker.add_earnings(mk(base + 11 * 3600, EarningStatus::Confirmed, 1_000_000));
    tracker.add_earnings(mk(base - 60, EarningStatus::Paid, 2_000_000));

    let data = tracker.get_data(base + 12 * 3600);
    assert_eq!(data.total_earnings, Money::from_micro_usd(3_000_000));
    assert_eq!(data.pending_earnings, Money::from_micro_usd(500_000));
    assert_eq!(data.today_earnings, Money::from_micro_usd(1_500_000));
    assert_eq!(data.history.len(), 3);
}

#[test]
fn confirming_moves_pending_to_total() {
    let mut tracker = EarningsTracker::new();
    let record = EarningRecord {
        timestamp: 100,
        task_id: "task-1".to_string(),
        gpu_model: "RTX 4090".to_string(),
        gpu_seconds: 60,
        rate_per_hour: Money::from_micro_usd(25_000),
        amount: Money::from_micro_usd(400),
        status: EarningStatus::Pending,
    };
    tracker.add_earnings(record);
    assert_eq!(tracker.get_data(100).pending_earnings.micro_usd, 400);
    tracker.confirm_earnings("task-1");
    let data = tracker.get_data(100);
    assert_eq!(data.pending_earnings.micro_usd, 0);
    assert_eq!(data.total_earnings.micro_usd, 400);
}

#[test]
fn select_best_prefers_most_free_vram() {
    let small = device(0, 8, 6);
    let large = device(1, 24, 20);
    let detector = GPUDetector::from_backends(
        vec![small, large],
        vec![],
        vec![],
        vec![],
        CPUInfo { model: "test-cpu".to_string(), cores: 8, threads: 16 },
        64,
    )
    .unwrap();
    let req = requirements(4);
    assert!(detector.meets_requirements(&req));
    assert_eq!(detector.select_best_gpu(&req), Some(1));
    assert_eq!(detector.get_device(1).unwrap().memory.total, 24 * GIB);
}

#[test]
fn task_rejected_on_insufficient_vram() {
    let mut dev = device(0, 8, 4);
    dev.memory.free = 4 * GIB;
    let devices = vec![dev];
    let req = requirements(12);
    let decision = decide_task_assign(&None, &devices, &req);
    assert_eq!(decision, TaskDecision::RejectInsufficient);

    let mut state = AgentState::new();
    assert!(state.current_task.is_none());
    apply_task_accept(&mut state, "t1".to_string());
    let busy = decide_task_assign(&state.current_task, &devices, &requirements(1));
    assert_eq!(busy, TaskDecision::RejectBusy);
    apply_task_finished(&mut state, true);
    assert!(state.current_task.is_none());
    assert_eq!(state.tasks_completed, 1);
}

#[test]
fn executor_selects_and_validates() {
    let devices = vec![device(0, 8, 6), device(1, 24, 20)];
    let executor = TaskExecutor::new(devices, false).unwrap();
    assert_eq!(executor.sandbox.sandbox_type, SandboxType::Native);
    assert_eq!(executor.select_gpu(&requirements(4)), Ok(1));
    assert!(executor.select_gpu(&requirements(48)).is_err());
    assert!(executor.validate_task(&device(0, 8, 6), &requirements(4)).is_ok());
    assert!(executor.validate_task(&device(0, 8, 6), &requirements(12)).is_err());

    let empty = TaskExecutor::new(vec![], true).unwrap();
    assert!(matches!(empty.select_gpu(&requirements(1)), Err(Error::GpuNotFound)));
}

#[test]
fn test_executor_creation() {
    let result = TaskExecutor::new(Vec::new(), false);
    assert!(result.is_ok());
}

#[test]
fn test_sandbox_creation() {
    let sandbox = Sandbox::new(true);
    assert_eq!(sandbox.sandbox_type, SandboxType::Docker);
}

#[test]
fn test_monitor_creation() {
    let monitor = GPUMonitor::new();
    assert_eq!(monitor.max_history_size, 1000);
}

#[test]
fn monitor_ring_and_predicates() {
    let mut monitor = GPUMonitor::new();
    let status = |util: u32, temp: u32| GPUStatus {
        index: 0,
        utilization_permille: util,
        memory_used_bytes: 2 * GIB,
        memory_total_bytes: 8 * GIB,
        temperature_deci_c: temp,
        power_mw: 150_000,
        fan_speed_permille: 300,
    };
    for ts in 0..1005u64 {
        monitor.push_snapshot(GPUSnapshot { timestamp: ts, statuses: vec![status(400, 650)] });
    }
    assert_eq!(monitor.history.len(), 1000);
    assert_eq!(monitor.history[0].timestamp, 5);
    assert_eq!(monitor.average_utilization(10), 400);

    assert!(!is_any_overheating(&vec![status(400, 650)]));
    assert!(is_any_overheating(&vec![status(400, 900)]));
    assert!(are_all_idle(&vec![status(50, 650)]));
    assert!(!are_all_idle(&vec![status(50, 650), status(400, 650)]));
    assert!(!are_all_idle(&vec![]));
}

#[test]
fn test_gpu_status_calculations() {
    let memory = MemoryInfo { total: 8 * GIB, free: 6 * GIB, used: 2 * GIB };
    assert_eq!(memory.utilization_permille(), 250);
    let empty = MemoryInfo { total: 0, free: 0, used: 0 };
    assert_eq!(empty.utilization_permille(), 0);
}

#[test]
fn capability_parsing() {
    assert_eq!(parse_compute_capability("8.9"), (8, 9));
    assert_eq!(parse_compute_capability("7.0"), (7, 0));
    assert_eq!(parse_compute_capability("8.07"), (8, 7));
    assert_eq!(parse_compute_capability("+8.9"), (8, 9));
    assert_eq!(parse_compute_capability("8.99999999999"), (8, 0));
    assert_eq!(parse_compute_capability("x.9"), (0, 9));
    assert_eq!(parse_compute_capability("bogus"), (0, 0));
    assert_eq!(parse_compute_capability("1.2.3"), (0, 0));
    assert_eq!(parse_compute_capability("12"), (0, 0));
}

#[test]
fn cuda_core_estimates() {
    assert_eq!(estimate_cuda_cores("NVIDIA GeForce RTX 4090"), Some(16384));
    assert_eq!(estimate_cuda_cores("NVIDIA A100-SXM4"), Some(6912));
    assert_eq!(estimate_cuda_cores("Mystery GPU"), None);
}

#[test]
fn duration_formatting() {
    assert_eq!(format_duration(90061), "1d 1h 1m");
    assert_eq!(format_duration(3661), "1h 1m");
    assert_eq!(format_duration(61), "1m 1s");
    assert_eq!(format_duration(5), "5s");
}

#[test]
fn substring_search() {
    assert!(str_contains("NVIDIA RTX 4090", "4090"));
    assert!(!str_contains("NVIDIA RTX 4090", "3090"));
    assert!(str_contains("anything", ""));
}

#[test]
fn pid_text_round_trip() {
    assert_eq!(pid_file_text(4242), "4242");
    assert_eq!(parse_pid_text("4242"), Ok(4242));
    assert!(parse_pid_text("").is_err());
    assert!(parse_pid_text("12x").is_err());
}

#[test]
fn error_codes_and_recovery() {
    assert_eq!(Error::GpuNotFound.error_code(), "GPU_NOT_AVAILABLE");
    assert_eq!(Error::TaskTimeout.error_code(), "TIMEOUT");
    assert_eq!(Error::OutOfMemory.error_code(), "OOM_ERROR");
    assert_eq!(Error::SignatureVerificationFailed.error_code(), "VALIDATION_FAILED");
    assert!(Error::ConnectionFailed("x".to_string()).is_recoverable());
    assert!(Error::TaskTimeout.is_recoverable());
    assert!(!Error::GpuNotFound.is_recoverable());
}

#[test]
fn checksum_and_eviction_rules() {
    let contents = b"model weights";
    let expected = hex::encode(sha2::Sha256::digest(contents));
    assert!(checksum_matches(contents, &expected));
    assert!(!checksum_matches(contents, "00ff"));

    assert!(should_evict(100, 86_400 * 8, 7));
    assert!(!should_evict(86_400 * 2, 86_400 * 8, 7));
    assert!(!should_evict(0, 100, 7));
}

#[test]
fn lifecycle_transitions() {
    assert_eq!(
        next_lifecycle(AgentLifecycle::Starting, LifecycleEvent::SocketOpened),
        AgentLifecycle::Registering
    );
    assert_eq!(
        next_lifecycle(AgentLifecycle::Registering, LifecycleEvent::RegisterAcked),
        AgentLifecycle::Idle
    );
    assert_eq!(
        next_lifecycle(AgentLifecycle::Idle, LifecycleEvent::TaskAccepted("t".to_string())),
        AgentLifecycle::Working("t".to_string())
    );
    assert_eq!(
        next_lifecycle(AgentLifecycle::Working("t".to_string()), LifecycleEvent::TaskFinished),
        AgentLifecycle::Idle
    );
    assert_eq!(
        next_lifecycle(AgentLifecycle::Idle, LifecycleEvent::ShutdownRequested),
        AgentLifecycle::Stopping
    );
    assert_eq!(
        next_lifecycle(AgentLifecycle::Idle, LifecycleEvent::FatalFault),
        AgentLifecycle::Error
    );
    assert_eq!(
        next_lifecycle(AgentLifecycle::Idle, LifecycleEvent::SocketOpened),
        AgentLifecycle::Idle
    );
}
