//! Wire protocol and codec tests.

use orban_agent_core::money::Money;
use orban_agent_core::protocol::{
    create_heartbeat, create_task_reject, AgentStatus, ErrorPayload, Message, MessagePayload,
    MessageType, Pricing, TaskAssignPayload, TaskPayload, TaskRequirements,
};

fn sample_pricing() -> Pricing {
    Pricing {
        base_rate_usd_per_hour: Money::from_micro_usd(10_000),
        gpu_multiplier: Money::from_micro_usd(2_500_000),
        effective_rate: Money::from_micro_usd(25_000),
    }
}

fn sample_task_assign() -> TaskAssignPayload {
    TaskAssignPayload {
        task_id: "task-123".to_string(),
        job_id: "job-9".to_string(),
        priority: 3,
        estimated_duration_sec: 3600,
        requirements: TaskRequirements {
            min_vram_gb: 8,
            min_compute_capability: "7.5".to_string(),
            framework: "pytorch".to_string(),
            fp16: true,
        },
        payload: TaskPayload {
            model_url: "https://models.example/llama-2-7b".to_string(),
            model_hash: "abc123".to_string(),
            input_data_url: "https://in.example/x".to_string(),
            output_url: "https://out.example/y".to_string(),
            config: "{}".to_string(),
        },
        pricing: sample_pricing(),
    }
}

#[test]
fn test_message_serialization() {
    let msg = create_heartbeat(
        "agent-test-001".to_string(),
        AgentStatus::Idle,
        None,
        vec![],
        3600,
    );

    let json = msg.to_json().unwrap();

    let deserialized = Message::from_json(&json).unwrap();
    assert_eq!(deserialized.message_type(), MessageType::Heartbeat);
}

#[test]
fn test_task_serialization() {
    let msg = Message::new(MessagePayload::TaskAssign(sample_task_assign()));
    let json = msg.to_json().unwrap();
    let back = Message::from_json(&json).unwrap();
    assert_eq!(back.message_type(), MessageType::TaskAssign);
    match back.payload {
        MessagePayload::TaskAssign(p) => {
            assert_eq!(p.task_id, "task-123");
            assert_eq!(p.requirements.min_vram_gb, 8);
            assert_eq!(p.pricing.effective_rate, Money::from_micro_usd(25_000));
        }
        _ => panic!("wrong payload kind"),
    }
}

#[test]
fn round_trip_preserves_whole_message() {
    let msg = Message {
        message_id: "id with \"quotes\" and \\slashes\\".to_string(),
        timestamp: 1_700_000_000,
        payload: MessagePayload::Error(ErrorPayload {
            code: "TIMEOUT".to_string(),
            message: "deadline passed".to_string(),
            context: Some("task task-9".to_string()),
            recoverable: true,
        }),
    };
    let json = msg.to_json().unwrap();
    let back = Message::from_json(&json).unwrap();
    assert_eq!(back, msg);
}

#[test]
fn reject_builder_carries_reason() {
    let msg = create_task_reject(
        "task-1".to_string(),
        "insufficient_resources".to_string(),
        String::new(),
    );
    assert_eq!(msg.message_type(), MessageType::TaskReject);
    let json = msg.to_json().unwrap();
    let back = Message::from_json(&json).unwrap();
    match back.payload {
        MessagePayload::TaskReject(p) => assert_eq!(p.reason, "insufficient_resources"),
        _ => panic!("wrong payload kind"),
    }
}

#[test]
fn decode_rejects_malformed_text() {
    assert!(Message::from_json("").is_err());
    assert!(Message::from_json("{\"message_id\":\"x\"}").is_err());
    assert!(Message::from_json("not json at all").is_err());
    assert!(Message::from_json("{\"message_id\":\"a\",\"timestamp\":1,\"type\":\"NO_SUCH\"}").is_err());
}

#[test]
fn money_text_round_trip() {
    let half = Money::from_micro_usd(500_000);
    assert_eq!(half.to_text(), "0.500000");
    assert_eq!(Money::parse_text("0.500000"), Some(half));
    assert_eq!(Money::parse_text("0.025000"), Some(Money::from_micro_usd(25_000)));
    assert_eq!(Money::parse_text("12.345678"), Some(Money::from_micro_usd(12_345_678)));
    assert_eq!(Money::parse_text("0.5"), None);
    assert_eq!(Money::parse_text("00.500000"), None);
    assert_eq!(Money::parse_text("junk"), None);
}

#[test]
fn heartbeat_json_is_canonical_text() {
    let msg = Message {
        message_id: "m1".to_string(),
        timestamp: 42,
        payload: MessagePayload::Heartbeat(orban_agent_core::protocol::HeartbeatPayload {
            agent_id: "agent-x".to_string(),
            status: AgentStatus::Working,
            current_task_id: Some("t1".to_string()),
            gpu_status: vec![],
            uptime_sec: 7,
            timestamp: 42,
        }),
    };
    let json = msg.to_json().unwrap();
    assert_eq!(
        json,
        "{\"message_id\":\"m1\",\"timestamp\":42,\"type\":\"HEARTBEAT\",\"agent_id\":\"agent-x\",\"status\":\"working\",\"current_task_id\":\"t1\",\"gpu_status\":[],\"uptime_sec\":7,\"timestamp\":42}"
    );
}

#[test]
fn new_messages_carry_fresh_ids() {
    let a = Message::new(MessagePayload::Error(ErrorPayload {
        code: "UNKNOWN_ERROR".to_string(),
        message: String::new(),
        context: None,
        recoverable: false,
    }));
    assert_eq!(a.message_id.len(), 36);
    let b = Message::new(a.payload.clone());
    assert_ne!(a.message_id, b.message_id);
}
