use lau_async_tick::action::{TickAction, TickError, TickResult};
use lau_async_tick::engine::{TickContext, TickEngine};
use lau_async_tick::priority::TickPriority;
use lau_async_tick::task::{TickTask, TickTaskType};

/// The handlers these tests register.
enum TestHandler {
    /// Answers every task with `Noop`.
    Noop,
    /// Hands on a new task of the given kind.
    Delegate(TickTaskType),
    /// Escalates every task.
    Escalate,
    /// Answers every task with `Processed(text)`.
    Process(&'static str),
    /// Defers every task.
    Defer(u64),
    /// Fails every task.
    Fail,
}

impl TestHandler {
    fn handle(&self, task: &TickTask) -> Result<TickAction, TickError> {
        match self {
            TestHandler::Noop => Ok(TickAction::Noop),
            TestHandler::Delegate(target) => Ok(TickAction::Delegated {
                to: format!("{:?}", target),
                task: Box::new(TickTask::new(*target, 1000).with_data("from", &task.id)),
            }),
            TestHandler::Escalate => Ok(TickAction::Escalated {
                reason: "test escalation".to_string(),
                room: None,
            }),
            TestHandler::Process(text) => Ok(TickAction::Processed(text.to_string())),
            TestHandler::Defer(n) => Ok(TickAction::Deferred(*n)),
            TestHandler::Fail => Err(TickError::HandlerFailed("no".to_string())),
        }
    }
}

#[derive(Default)]
struct TestState {
    conservation_remaining: f64,
}

type Engine = TickEngine<TestHandler, TestState>;

/// One tick: batches until nothing is delegated, as the engine's driver runs it.
fn tick(engine: &mut Engine) -> TickResult {
    let mut result = engine.begin_tick();
    let dispatch = |h: &TestHandler, t: &TickTask, _c: &TickContext<TestState>| h.handle(t);
    loop {
        assert!(engine.batch_fits(&result));
        if !engine.process_batch(&mut result, &dispatch) {
            break;
        }
    }
    engine.finish_tick(&mut result, 0);
    result
}

/// Ticks while tasks are queued, at most `max_ticks` times.
fn run(engine: &mut Engine, max_ticks: Option<u64>) -> Vec<TickResult> {
    let limit = max_ticks.unwrap_or(u64::MAX);
    let mut results = Vec::new();
    for _ in 0..limit {
        if engine.queue_len() == 0 {
            break;
        }
        results.push(tick(engine));
    }
    results
}

fn task(t: TickTaskType, n: u64) -> TickTask {
    TickTask::new(t, n)
}

#[test]
fn engine_new() {
    let engine = Engine::new(1000);
    assert_eq!(engine.tick_interval_ms, 1000);
    assert_eq!(engine.queue_len(), 0);
    assert!(engine.start_time > 0);
}

#[test]
fn engine_enqueue_and_queue_len() {
    let mut engine = Engine::new(500);
    engine.enqueue(task(TickTaskType::EnsignTick, 1));
    engine.enqueue(task(TickTaskType::DeadbandCheck, 2));
    assert_eq!(engine.queue_len(), 2);
}

#[test]
fn engine_tick_empty_queue() {
    let mut engine = Engine::new(100);
    let result = tick(&mut engine);
    assert_eq!(result.tick, 1);
    assert_eq!(result.tasks_processed, 0);
    assert!(result.actions.is_empty());
}

#[test]
fn engine_tick_with_unknown_handler() {
    let mut engine = Engine::new(100);
    engine.enqueue(task(TickTaskType::CorrelationScan, 1));
    let result = tick(&mut engine);
    assert_eq!(result.tasks_processed, 1);
    match &result.actions[0].1 {
        TickAction::Processed(msg) => assert_eq!(msg, "error"),
        _ => panic!("expected Processed"),
    }
}

#[test]
fn engine_tick_handler_failure_counts_as_processed() {
    let mut engine = Engine::new(100);
    engine.register_handler(TickTaskType::PhoneAFriend, TestHandler::Fail);
    engine.enqueue(task(TickTaskType::PhoneAFriend, 1));
    let result = tick(&mut engine);
    assert_eq!(result.tasks_processed, 1);
    assert_eq!(result.actions.len(), 1);
    match &result.actions[0].1 {
        TickAction::Processed(msg) => assert_eq!(msg, "error"),
        _ => panic!("expected Processed"),
    }
}

#[test]
fn engine_tick_processes_registered_handler() {
    let mut engine = Engine::new(100);
    engine.register_handler(TickTaskType::EnsignTick, TestHandler::Noop);
    engine.enqueue(task(TickTaskType::EnsignTick, 1));
    let result = tick(&mut engine);
    assert_eq!(result.tasks_processed, 1);
    assert_eq!(result.actions.len(), 1);
}

#[test]
fn engine_register_handler_replaces() {
    let mut engine = Engine::new(100);
    engine.register_handler(TickTaskType::EnsignTick, TestHandler::Escalate);
    engine.register_handler(TickTaskType::EnsignTick, TestHandler::Noop);
    engine.enqueue(task(TickTaskType::EnsignTick, 1));
    let result = tick(&mut engine);
    assert_eq!(result.tasks_processed, 1);
    assert_eq!(result.tasks_escalated, 0);
}

#[test]
fn engine_priority_ordering() {
    let mut engine = Engine::new(100);
    engine.register_handler(TickTaskType::MessageReceived, TestHandler::Noop);
    engine.register_handler(TickTaskType::CorrelationScan, TestHandler::Noop);

    // Low priority first, then critical
    let low = task(TickTaskType::CorrelationScan, 1).with_priority(TickPriority::Low);
    let crit = task(TickTaskType::MessageReceived, 2).with_priority(TickPriority::Critical(1));

    engine.enqueue(low);
    engine.enqueue(crit);

    let result = tick(&mut engine);
    // Critical should be processed first
    assert_eq!(result.actions[0].0, TickTaskType::MessageReceived);
    assert_eq!(result.actions[1].0, TickTaskType::CorrelationScan);
}

#[test]
fn engine_priority_ties_keep_queue_order() {
    let mut engine = Engine::new(100);
    engine.enqueue(task(TickTaskType::EnsignTick, 1).with_priority(TickPriority::Low));
    engine.enqueue(task(TickTaskType::StandDown, 2).with_priority(TickPriority::High));
    engine.enqueue(task(TickTaskType::BootstrapRoom, 3).with_priority(TickPriority::Low));
    engine.enqueue(task(TickTaskType::Escalation, 4).with_priority(TickPriority::High));
    engine.enqueue(task(TickTaskType::DeadbandCheck, 5).with_priority(TickPriority::Critical(0)));
    let result = tick(&mut engine);
    let kinds: Vec<TickTaskType> = result.actions.iter().map(|a| a.0).collect();
    assert_eq!(
        kinds,
        vec![
            TickTaskType::DeadbandCheck,
            TickTaskType::StandDown,
            TickTaskType::Escalation,
            TickTaskType::EnsignTick,
            TickTaskType::BootstrapRoom,
        ]
    );
}

#[test]
fn engine_run_with_max_ticks() {
    let mut engine = Engine::new(100);
    engine.register_handler(TickTaskType::EnsignTick, TestHandler::Noop);
    // Put 1 task, tick, then add 2 more — gives 2 ticks
    engine.enqueue(task(TickTaskType::EnsignTick, 1));
    tick(&mut engine);
    engine.enqueue(task(TickTaskType::EnsignTick, 2));
    engine.enqueue(task(TickTaskType::EnsignTick, 3));
    let results = run(&mut engine, Some(10));
    assert_eq!(results.len(), 1); // 2nd tick drains both
    assert_eq!(engine.tick_count(), 2);
}

#[test]
fn engine_drain() {
    let mut engine = Engine::new(100);
    engine.register_handler(TickTaskType::EnsignTick, TestHandler::Noop);
    for n in 0..3 {
        engine.enqueue(task(TickTaskType::EnsignTick, n));
    }
    let results = run(&mut engine, None);
    assert_eq!(results.len(), 1); // all 3 in one tick
    assert_eq!(results[0].tasks_processed, 3);
}

#[test]
fn engine_stats() {
    let mut engine = Engine::new(100);
    engine.register_handler(TickTaskType::EnsignTick, TestHandler::Noop);
    engine.enqueue(task(TickTaskType::EnsignTick, 1));
    engine.enqueue(task(TickTaskType::EnsignTick, 2));
    tick(&mut engine);

    let stats = engine.counters();
    assert_eq!(stats.total_ticks, 1);
    assert_eq!(stats.total_tasks_processed, 2);
    assert_eq!(stats.total_tasks_processed as f64 / stats.total_ticks as f64, 2.0);
    assert_eq!(stats.by_type, vec![(TickTaskType::EnsignTick, 2)]);
}

#[test]
fn engine_stats_empty() {
    let engine = Engine::new(100);
    let stats = engine.counters();
    assert_eq!(stats.total_ticks, 0);
    assert_eq!(stats.total_tasks_processed, 0);
    assert_eq!(stats.avg_duration_us, 0);
    assert!(stats.by_type.is_empty());
}

#[test]
fn engine_stats_mean_duration() {
    let mut engine = Engine::new(100);
    let mut r1 = engine.begin_tick();
    engine.finish_tick(&mut r1, 10);
    let mut r2 = engine.begin_tick();
    engine.finish_tick(&mut r2, 25);
    assert_eq!(r1.duration_us, 10);
    assert_eq!(r2.duration_us, 25);
    assert_eq!(engine.counters().avg_duration_us, 17);
}

#[test]
fn engine_tick_count_increments() {
    let mut engine = Engine::new(100);
    assert_eq!(engine.tick_count(), 0);
    tick(&mut engine);
    assert_eq!(engine.tick_count(), 1);
    tick(&mut engine);
    assert_eq!(engine.tick_count(), 2);
}

#[test]
fn engine_context_mut() {
    let mut engine = Engine::new(100);
    engine.context_mut().state.conservation_remaining = 50.0;
    assert_eq!(engine.context().state.conservation_remaining, 50.0);
}

#[test]
fn engine_set_context() {
    let mut engine = Engine::new(100);
    let ctx = TickContext { tick: 99, state: TestState { conservation_remaining: 1.0 } };
    engine.set_context(ctx);
    assert_eq!(engine.context().tick, 99);
    // tick() will overwrite context.tick
    tick(&mut engine);
    assert_eq!(engine.context().tick, 1);
}

#[test]
fn engine_delegated_task_reenqueued() {
    let mut engine = Engine::new(100);
    engine.register_handler(
        TickTaskType::MessageReceived,
        TestHandler::Delegate(TickTaskType::MessageRouted),
    );
    engine.register_handler(TickTaskType::MessageRouted, TestHandler::Noop);
    engine.enqueue(task(TickTaskType::MessageReceived, 1));
    let result = tick(&mut engine);
    // Delegated (MessageReceived) + Processed (MessageRouted) = 2 actions, 1 processed
    assert_eq!(result.actions.len(), 2);
    assert_eq!(result.tasks_processed, 1);
    assert_eq!(result.actions[0].0, TickTaskType::MessageReceived);
    assert_eq!(result.actions[1].0, TickTaskType::MessageRouted);
    assert_eq!(engine.queue_len(), 0);
}

#[test]
fn engine_batch_hands_on_delegated_tasks() {
    let mut engine = Engine::new(100);
    engine.register_handler(
        TickTaskType::MessageReceived,
        TestHandler::Delegate(TickTaskType::MessageRouted),
    );
    engine.enqueue(task(TickTaskType::MessageReceived, 1));
    let mut result = engine.begin_tick();
    let dispatch = |h: &TestHandler, t: &TickTask, _c: &TickContext<TestState>| h.handle(t);
    assert!(engine.process_batch(&mut result, &dispatch));
    assert_eq!(engine.queue_len(), 1);
    assert!(!engine.process_batch(&mut result, &dispatch));
    assert_eq!(engine.queue_len(), 0);
    assert_eq!(result.actions.len(), 2);
    match &result.actions[0].1 {
        TickAction::Delegated { to, task } => {
            assert_eq!(to, "MessageRouted");
            assert_eq!(task.data.get("from").unwrap(), "task-1");
        }
        _ => panic!("expected Delegated"),
    }
}

#[test]
fn engine_escalation_counted() {
    let mut engine = Engine::new(100);
    engine.register_handler(TickTaskType::Escalation, TestHandler::Escalate);
    engine.enqueue(task(TickTaskType::Escalation, 1));
    let result = tick(&mut engine);
    assert_eq!(result.tasks_escalated, 1);
    let stats = engine.counters();
    assert_eq!(stats.total_escalations, 1);
}

#[test]
fn engine_counts_partition() {
    let mut engine = Engine::new(100);
    engine.register_handler(TickTaskType::EnsignTick, TestHandler::Noop);
    engine.register_handler(TickTaskType::StandDown, TestHandler::Defer(3));
    engine.register_handler(TickTaskType::Escalation, TestHandler::Escalate);
    engine.register_handler(TickTaskType::PhoneAFriend, TestHandler::Delegate(TickTaskType::EnsignTick));
    engine.enqueue(task(TickTaskType::EnsignTick, 1));
    engine.enqueue(task(TickTaskType::StandDown, 2));
    engine.enqueue(task(TickTaskType::Escalation, 3));
    engine.enqueue(task(TickTaskType::PhoneAFriend, 4));
    let result = tick(&mut engine);
    assert_eq!(result.tasks_processed, 2);
    assert_eq!(result.tasks_deferred, 1);
    assert_eq!(result.tasks_escalated, 1);
    assert_eq!(result.actions.len(), 5);
    let stats = engine.counters();
    assert_eq!(stats.total_tasks_processed, 2);
    assert_eq!(
        stats.by_type,
        vec![
            (TickTaskType::EnsignTick, 2),
            (TickTaskType::PhoneAFriend, 1),
            (TickTaskType::StandDown, 1),
            (TickTaskType::Escalation, 1),
        ]
    );
}

#[test]
fn full_pipeline() {
    let mut engine = Engine::new(100);
    engine.register_handler(TickTaskType::DeadbandCheck, TestHandler::Process("deadband ok for room room-1"));
    engine.register_handler(TickTaskType::RoomGravityUpdate, TestHandler::Process("room room-1 gravity decayed"));
    engine.register_handler(TickTaskType::ConservationCheck, TestHandler::Process("conservation ok: 50.00"));
    engine.context_mut().state.conservation_remaining = 50.0;

    engine.enqueue(
        task(TickTaskType::DeadbandCheck, 1)
            .with_data("room_id", "room-1")
            .with_priority(TickPriority::High),
    );
    engine.enqueue(
        task(TickTaskType::RoomGravityUpdate, 2)
            .with_data("room_id", "room-1")
            .with_data("gravity", "0.3"),
    );
    engine.enqueue(task(TickTaskType::ConservationCheck, 3));

    let result = tick(&mut engine);
    assert_eq!(result.tasks_processed, 3);
    assert_eq!(result.actions.len(), 3);

    let stats = engine.counters();
    assert_eq!(stats.total_ticks, 1);
    assert_eq!(stats.total_tasks_processed, 3);
}

#[test]
fn multi_tick_pipeline() {
    let mut engine = Engine::new(100);
    engine.register_handler(TickTaskType::EnsignTick, TestHandler::Noop);

    engine.enqueue(task(TickTaskType::EnsignTick, 1));
    tick(&mut engine);

    engine.enqueue(task(TickTaskType::EnsignTick, 2));
    engine.enqueue(task(TickTaskType::EnsignTick, 3));
    tick(&mut engine);

    let stats = engine.counters();
    assert_eq!(stats.total_ticks, 2);
    assert_eq!(stats.total_tasks_processed, 3);
    let avg = stats.total_tasks_processed as f64 / stats.total_ticks as f64;
    assert!((avg - 1.5).abs() < 0.01);
}

#[test]
fn engine_run_stops_when_empty() {
    let mut engine = Engine::new(100);
    engine.register_handler(TickTaskType::EnsignTick, TestHandler::Noop);
    engine.enqueue(task(TickTaskType::EnsignTick, 1));
    // run with max 100 but only 1 task
    let results = run(&mut engine, Some(100));
    assert_eq!(results.len(), 1);
}

#[test]
fn stats_by_type_multiple() {
    let mut engine = Engine::new(100);
    engine.register_handler(TickTaskType::EnsignTick, TestHandler::Noop);
    engine.register_handler(TickTaskType::DeadbandCheck, TestHandler::Process("deadband ok for room r1"));

    engine.enqueue(task(TickTaskType::EnsignTick, 1));
    engine.enqueue(task(TickTaskType::DeadbandCheck, 2).with_data("room_id", "r1"));
    tick(&mut engine);

    let stats = engine.counters();
    assert_eq!(stats.by_type.len(), 2);
    assert!(stats.by_type.contains(&(TickTaskType::EnsignTick, 1)));
    assert!(stats.by_type.contains(&(TickTaskType::DeadbandCheck, 1)));
}

#[test]
fn batch_fits_detects_overflow() {
    let mut engine = Engine::new(100);
    engine.enqueue(task(TickTaskType::EnsignTick, 1));
    let mut result = engine.begin_tick();
    assert!(engine.batch_fits(&result));
    result.tasks_processed = u32::MAX;
    assert!(!engine.batch_fits(&result));
}

#[test]
fn engine_started_at_and_accessors() {
    let engine = Engine::started_at(250, 1234);
    assert_eq!(engine.tick_interval_ms(), 250);
    assert_eq!(engine.start_time(), 1234);
    assert_eq!(engine.tick_count(), 0);
    assert_eq!(engine.context().tick, 0);
    assert_eq!(engine.queue_len(), 0);
}

#[test]
fn engine_begin_tick_stamps_context() {
    let mut engine = Engine::new(100);
    let r1 = engine.begin_tick();
    assert_eq!(r1.tick, 1);
    assert_eq!(engine.context().tick, 1);
    let r2 = engine.begin_tick();
    assert_eq!(r2.tick, 2);
    assert_eq!(engine.context().tick, 2);
}
