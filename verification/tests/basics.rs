use lau_async_tick::action::{TickAction, TickError, TickResult};
use lau_async_tick::clock::{millis_to_timestamp, now_ms};
use lau_async_tick::priority::TickPriority;
use lau_async_tick::task::{TaskData, TickTask, TickTaskType};
use lau_async_tick::text::decimal;

// -- TickPriority --

#[test]
fn priority_ordering() {
    assert!(TickPriority::Critical(1) > TickPriority::High);
    assert!(TickPriority::High > TickPriority::Normal);
    assert!(TickPriority::Normal > TickPriority::Low);
    assert!(TickPriority::Low > TickPriority::Background);
    assert!(TickPriority::Critical(10) > TickPriority::Critical(1));
}

#[test]
fn priority_order_value() {
    assert_eq!(TickPriority::Critical(5).order_value(), 2005);
    assert_eq!(TickPriority::High.order_value(), 1000);
    assert_eq!(TickPriority::Normal.order_value(), 500);
    assert_eq!(TickPriority::Low.order_value(), 100);
    assert_eq!(TickPriority::Background.order_value(), 0);
}

#[test]
fn priority_default() {
    assert_eq!(TickPriority::default(), TickPriority::Normal);
}

#[test]
fn priority_rank_beyond_u32() {
    // The rank of the highest critical priority does not fit a u32, and it
    // still orders above every other priority.
    assert_eq!(TickPriority::Critical(u32::MAX).rank(), 2000 + u32::MAX as u64);
    assert!(TickPriority::Critical(u32::MAX) > TickPriority::Critical(u32::MAX - 1));
    assert!(TickPriority::Background < TickPriority::Low);
    assert!(TickPriority::High >= TickPriority::High);
    assert!(!(TickPriority::Low > TickPriority::Low));
}

// -- TickTaskType --

#[test]
fn urgent_types() {
    assert!(TickTaskType::Escalation.is_urgent());
    assert!(TickTaskType::MessageReceived.is_urgent());
    assert!(!TickTaskType::DeadbandCheck.is_urgent());
    assert!(!TickTaskType::BootstrapRoom.is_urgent());
    assert!(!TickTaskType::CorrelationScan.is_urgent());
}

#[test]
fn task_type_positions_round_trip() {
    for i in 0..12 {
        assert_eq!(TickTaskType::at(i).index(), i);
    }
    assert_eq!(TickTaskType::MessageReceived.index(), 0);
    assert_eq!(TickTaskType::BootstrapRoom.index(), 11);
}

// -- TickTask --

#[test]
fn task_new() {
    let task = TickTask::new(TickTaskType::EnsignTick, 1);
    assert!(task.id.starts_with("task-"));
    assert_eq!(task.task_type, TickTaskType::EnsignTick);
    assert_eq!(task.priority, TickPriority::Normal);
    assert!(task.data.is_empty());
}

#[test]
fn task_id_is_numbered() {
    assert_eq!(TickTask::new(TickTaskType::EnsignTick, 0).id, "task-0");
    assert_eq!(TickTask::new(TickTaskType::EnsignTick, 42).id, "task-42");
    assert_eq!(
        TickTask::new(TickTaskType::EnsignTick, u64::MAX).id,
        "task-18446744073709551615"
    );
}

#[test]
fn task_builder_pattern() {
    let task = TickTask::new(TickTaskType::MessageReceived, 2)
        .with_priority(TickPriority::Critical(1))
        .with_data("room_id", "room-42")
        .with_data("msg", "hello");
    assert_eq!(task.priority, TickPriority::Critical(1));
    assert_eq!(task.data.get("room_id").unwrap(), "room-42");
    assert_eq!(task.data.get("msg").unwrap(), "hello");
}

#[test]
fn task_data_overwrite_and_missing() {
    let task = TickTask::new(TickTaskType::MessageReceived, 3)
        .with_data("k", "first")
        .with_data("other", "x")
        .with_data("k", "second");
    assert_eq!(task.data.get("k").unwrap(), "second");
    assert_eq!(task.data.get("other").unwrap(), "x");
    assert!(task.data.get("missing").is_none());
    assert_eq!(task.data.pairs().len(), 2);
}

#[test]
fn task_data_insert_and_copy() {
    let mut d = TaskData::new();
    assert!(d.is_empty());
    d.insert("a", "1");
    d.insert("b", "2");
    d.insert("a", "3");
    let c = d.copy();
    assert!(!c.is_empty());
    assert_eq!(c.get("a").unwrap(), "3");
    assert_eq!(c.get("b").unwrap(), "2");
    let pairs = c.pairs();
    assert_eq!(pairs.len(), 2);
}

#[test]
fn task_equality_by_id() {
    let t1 = TickTask::new(TickTaskType::MessageReceived, 4);
    let t2 = t1.clone();
    assert_eq!(t1, t2);
}

#[test]
fn tasks_with_different_numbers_differ() {
    let t1 = TickTask::new(TickTaskType::MessageReceived, 5);
    let t2 = TickTask::new(TickTaskType::MessageReceived, 6);
    assert_ne!(t1, t2);
    // Equality goes by id alone.
    let t3 = TickTask::new(TickTaskType::StandDown, 5).with_priority(TickPriority::Low);
    assert_eq!(t1, t3);
}

#[test]
fn task_clone_keeps_everything() {
    let t = TickTask::new(TickTaskType::BootstrapRoom, 7)
        .with_data("key", "value")
        .with_priority(TickPriority::High);
    let c = t.clone();
    assert_eq!(c.id, t.id);
    assert_eq!(c.task_type, t.task_type);
    assert_eq!(c.priority, t.priority);
    assert_eq!(c.created_at, t.created_at);
    assert_eq!(c.data.get("key").unwrap(), "value");
}

#[test]
fn task_created_at_populated() {
    let task = TickTask::new(TickTaskType::BootstrapRoom, 8);
    assert!(task.created_at > 0);
}

// -- TickAction --

#[test]
fn action_describe_processed() {
    let a = TickAction::Processed("done".to_string());
    assert_eq!(a.describe(), "Processed: done");
}

#[test]
fn action_describe_delegated() {
    let a = TickAction::Delegated {
        to: "handler-x".to_string(),
        task: Box::new(TickTask::new(TickTaskType::StandDown, 9)),
    };
    assert_eq!(a.describe(), "Delegated to handler-x");
}

#[test]
fn action_describe_escalated() {
    let a = TickAction::Escalated {
        reason: "breach".to_string(),
        room: Some("room-1".to_string()),
    };
    assert_eq!(a.describe(), "Escalated: breach (room: room-1)");
}

#[test]
fn action_describe_escalated_no_room() {
    let a = TickAction::Escalated {
        reason: "budget".to_string(),
        room: None,
    };
    assert_eq!(a.describe(), "Escalated: budget");
}

#[test]
fn action_describe_deferred() {
    let a = TickAction::Deferred(5);
    assert_eq!(a.describe(), "Deferred for 5 ticks");
}

#[test]
fn action_describe_deferred_large() {
    assert_eq!(TickAction::Deferred(0).describe(), "Deferred for 0 ticks");
    assert_eq!(TickAction::Deferred(1203).describe(), "Deferred for 1203 ticks");
}

#[test]
fn action_describe_noop() {
    assert_eq!(TickAction::Noop.describe(), "Noop");
}

// -- TickError --

#[test]
fn error_display() {
    assert_eq!(
        TickError::HandlerFailed("oops".to_string()).to_string(),
        "handler failed: oops"
    );
    assert_eq!(
        TickError::ContextMissing("room".to_string()).to_string(),
        "context missing: room"
    );
    assert_eq!(
        TickError::BudgetExceeded("100".to_string()).to_string(),
        "budget exceeded: 100"
    );
    assert_eq!(
        TickError::UnknownTaskType("Foo".to_string()).to_string(),
        "unknown task type: Foo"
    );
}

#[test]
fn error_equality() {
    assert_eq!(
        TickError::HandlerFailed("a".to_string()),
        TickError::HandlerFailed("a".to_string())
    );
    assert_ne!(
        TickError::HandlerFailed("a".to_string()),
        TickError::HandlerFailed("b".to_string())
    );
}

// -- TickResult --

#[test]
fn result_summary() {
    let r = TickResult {
        tick: 3,
        tasks_processed: 5,
        tasks_deferred: 1,
        tasks_escalated: 0,
        actions: vec![(TickTaskType::EnsignTick, TickAction::Noop)],
        duration_us: 42,
    };
    let s = r.summary();
    assert!(s.contains("tick 3"));
    assert!(s.contains("processed: 5"));
    assert!(s.contains("deferred: 1"));
    assert!(s.contains("42µs"));
}

#[test]
fn result_summary_exact() {
    let r = TickResult {
        tick: 12,
        tasks_processed: 0,
        tasks_deferred: 7,
        tasks_escalated: 2,
        actions: vec![],
        duration_us: 1000,
    };
    assert_eq!(
        r.summary(),
        "tick 12 | processed: 0 | deferred: 7 | escalated: 2 | actions: 0 | 1000µs"
    );
}

// -- text and clock --

#[test]
fn decimal_text() {
    assert_eq!(decimal(0), "0");
    assert_eq!(decimal(9), "9");
    assert_eq!(decimal(10), "10");
    assert_eq!(decimal(907), "907");
    assert_eq!(decimal(u64::MAX), "18446744073709551615");
}

#[test]
fn clock_readings() {
    assert_eq!(millis_to_timestamp(None), 0);
    assert_eq!(millis_to_timestamp(Some(1234)), 1234);
    assert_eq!(millis_to_timestamp(Some((1u128 << 64) + 5)), 5);
    assert!(now_ms() > 0);
}

#[test]
fn task_stamped_keeps_creation_time() {
    let t = TickTask::stamped(TickTaskType::ProvenanceRecord, 77, 123456);
    assert_eq!(t.id, "task-77");
    assert_eq!(t.created_at, 123456);
    assert_eq!(t.priority, TickPriority::Normal);
    assert!(t.data.is_empty());
}

#[test]
fn tasks_order_by_priority() {
    let low = TickTask::new(TickTaskType::EnsignTick, 1).with_priority(TickPriority::Low);
    let crit = TickTask::new(TickTaskType::EnsignTick, 2).with_priority(TickPriority::Critical(3));
    let low2 = TickTask::new(TickTaskType::StandDown, 3).with_priority(TickPriority::Low);
    assert!(crit > low);
    assert!(low < crit);
    assert_eq!(low.partial_cmp(&low2), Some(std::cmp::Ordering::Equal));
}
