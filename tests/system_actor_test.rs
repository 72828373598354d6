use astra::actor_system::{
    finish, process_envelope, send_decision, Actor, ActorSystem, Backpressure, Message,
    SendDecision, SendError,
};
use astra::mailbox::{task_step, Mailbox, TaskAction, TaskEvent, TaskPhase, DeliveryError};

struct SimpleActor {
    seen: Vec<String>,
    shutdowns: usize,
    cleanups: usize,
}

impl SimpleActor {
    fn new() -> Self {
        SimpleActor { seen: Vec::new(), shutdowns: 0, cleanups: 0 }
    }
}

impl Actor for SimpleActor {
    type Message = String;
    type Error = String;

    fn receive(&mut self, message: Message<String>) -> Result<(), String> {
        match message {
            Message::Regular(msg) => {
                println!("Received message: {}", msg);
                if msg == "fail" {
                    return Err("cannot handle".to_string());
                }
                self.seen.push(msg);
                Ok(())
            }
            Message::Shutdown => {
                println!("Shutting down SimpleActor.");
                self.shutdowns += 1;
                Ok(())
            }
        }
    }

    fn cleanup(&mut self) {
        self.cleanups += 1;
    }
}

/// Takes every queued envelope of `handle` and runs it through the task loop.
fn drain(system: &mut ActorSystem<String>, handle: usize, actor: &mut SimpleActor, mut phase: TaskPhase) -> TaskPhase {
    while let Some(envelope) = system.next_envelope(handle) {
        let (next, _) = process_envelope(actor, phase, envelope);
        phase = next;
    }
    phase
}

#[test]
fn test_actor_system() {
    let mut system = ActorSystem::new();
    let handle = system.add_actor("simple_actor".to_string());
    let mut actor = SimpleActor::new();

    assert_eq!(system.send_message("simple_actor", "Hello, actor!".to_string()), Ok(()));

    let report = system.shutdown();
    assert!(report.pending.is_empty());
    assert!(report.failed.is_empty());

    let phase = drain(&mut system, handle, &mut actor, TaskPhase::Running);
    assert_eq!(phase, TaskPhase::Terminated);
    assert_eq!(actor.seen, vec!["Hello, actor!".to_string()]);
    assert_eq!(actor.shutdowns, 1);
    assert_eq!(actor.cleanups, 1);
}

#[test]
fn registered_actor_receives_hello() {
    let mut system: ActorSystem<String> = ActorSystem::new();
    let handle = system.add_actor("a".to_string());
    assert_eq!(system.send_message("a", "hello".to_string()), Ok(()));
    match system.next_envelope(handle) {
        Some(Message::Regular(m)) => assert_eq!(m, "hello"),
        _ => panic!("expected the regular envelope"),
    }
    assert!(system.next_envelope(handle).is_none());
}

#[test]
fn unknown_name_is_not_found_and_registers_nothing() {
    let mut system: ActorSystem<String> = ActorSystem::new();
    let handle = system.add_actor("a".to_string());
    assert_eq!(system.send_message("b", "x".to_string()), Err(SendError::NotFound));
    assert_eq!(system.actor_count(), 1);
    assert!(system.next_envelope(handle).is_none());
    assert_eq!(system.lookup("b"), None);

    let mut empty: ActorSystem<u64> = ActorSystem::new();
    assert_eq!(empty.send_message("", 1), Err(SendError::NotFound));
    assert_eq!(empty.actor_count(), 0);
}

#[test]
fn shutdown_reaches_both_actors() {
    let mut system: ActorSystem<String> = ActorSystem::new();
    let first = system.add_actor("first".to_string());
    let second = system.add_actor("second".to_string());
    assert!(system.shutdown().failed.is_empty());
    assert!(matches!(system.next_envelope(first), Some(Message::Shutdown)));
    assert!(matches!(system.next_envelope(second), Some(Message::Shutdown)));
}

#[test]
fn shutdown_goes_on_past_a_full_mailbox() {
    let mut system: ActorSystem<u64> = ActorSystem::with_config(1, Backpressure::Reject);
    let busy = system.add_actor("busy".to_string());
    let idle = system.add_actor("idle".to_string());
    assert_eq!(system.send_message("busy", 7), Ok(()));
    let report = system.shutdown();
    assert_eq!(report.failed, vec![busy]);
    assert!(report.pending.is_empty());
    assert!(matches!(system.next_envelope(idle), Some(Message::Shutdown)));
    assert!(matches!(system.next_envelope(busy), Some(Message::Regular(7))));
    assert!(system.next_envelope(busy).is_none());
}

#[test]
fn messages_arrive_in_sending_order() {
    let mut system: ActorSystem<u64> = ActorSystem::new();
    let handle = system.add_actor("counter".to_string());
    for i in 0..50u64 {
        assert_eq!(system.send_message("counter", i), Ok(()));
    }
    for i in 0..50u64 {
        match system.next_envelope(handle) {
            Some(Message::Regular(m)) => assert_eq!(m, i),
            _ => panic!("expected envelope {}", i),
        }
    }
    assert!(system.next_envelope(handle).is_none());
}

#[test]
fn full_mailbox_rejects_then_accepts_after_a_take() {
    let mut system: ActorSystem<u64> = ActorSystem::with_config(2, Backpressure::Reject);
    let handle = system.add_actor("a".to_string());
    assert_eq!(system.send_message("a", 1), Ok(()));
    assert_eq!(system.send_message("a", 2), Ok(()));
    assert_eq!(system.send_message("a", 3), Err(SendError::Full));
    assert!(matches!(system.next_envelope(handle), Some(Message::Regular(1))));
    assert_eq!(system.send_message("a", 3), Ok(()));
    assert!(matches!(system.next_envelope(handle), Some(Message::Regular(2))));
    assert!(matches!(system.next_envelope(handle), Some(Message::Regular(3))));
}

#[test]
fn default_mailbox_holds_one_hundred() {
    let mut system: ActorSystem<usize> = ActorSystem::new();
    assert_eq!(system.capacity(), 100);
    assert_eq!(system.policy(), Backpressure::Block);
    system.add_actor("a".to_string());
    for i in 0..100usize {
        assert_eq!(system.send_message("a", i), Ok(()));
    }
    assert_eq!(system.send_message("a", 100), Err(SendError::Full));
}

#[test]
fn blocking_and_rejecting_policies_on_a_full_mailbox() {
    assert_eq!(send_decision(Backpressure::Block, Err(SendError::Full)), SendDecision::WaitAndRetry);
    assert_eq!(
        send_decision(Backpressure::Reject, Err(SendError::Full)),
        SendDecision::Fail(SendError::Full)
    );
    assert_eq!(send_decision(Backpressure::Block, Ok(())), SendDecision::Delivered);
    assert_eq!(
        send_decision(Backpressure::Block, Err(SendError::NotFound)),
        SendDecision::Fail(SendError::NotFound)
    );
    assert_eq!(
        send_decision(Backpressure::Reject, Err(SendError::Closed)),
        SendDecision::Fail(SendError::Closed)
    );
}

#[test]
fn closed_mailbox_refuses() {
    let mut mailbox: Mailbox<u8> = Mailbox::new(3);
    assert_eq!(mailbox.try_send(Message::Regular(1)), Ok(()));
    mailbox.close();
    assert!(mailbox.closed());
    assert_eq!(mailbox.try_send(Message::Regular(2)), Err(DeliveryError::Closed));
    assert_eq!(mailbox.len(), 1);
    assert!(matches!(mailbox.recv(), Some(Message::Regular(1))));
    assert!(mailbox.recv().is_none());
}

#[test]
fn newest_registration_wins() {
    let mut system: ActorSystem<u64> = ActorSystem::new();
    let old = system.add_actor("dup".to_string());
    let new = system.add_actor("dup".to_string());
    assert_eq!(system.lookup("dup"), Some(new));
    assert_eq!(system.send_message("dup", 5), Ok(()));
    assert!(system.next_envelope(old).is_none());
    assert!(matches!(system.next_envelope(new), Some(Message::Regular(5))));
    assert!(system.shutdown().failed.is_empty());
    assert!(system.next_envelope(old).is_none());
    assert!(matches!(system.next_envelope(new), Some(Message::Shutdown)));
    assert_eq!(system.name_of(old), "dup");
}

#[test]
fn nothing_is_processed_after_shutdown() {
    let mut system: ActorSystem<String> = ActorSystem::new();
    let handle = system.add_actor("a".to_string());
    let mut actor = SimpleActor::new();
    assert_eq!(system.send_message("a", "one".to_string()), Ok(()));
    assert!(system.shutdown().failed.is_empty());
    assert_eq!(system.send_message("a", "two".to_string()), Ok(()));
    assert!(system.shutdown().failed.is_empty());
    let phase = drain(&mut system, handle, &mut actor, TaskPhase::Running);
    assert_eq!(phase, TaskPhase::Terminated);
    assert_eq!(actor.seen, vec!["one".to_string()]);
    assert_eq!(actor.shutdowns, 1);
    assert_eq!(actor.cleanups, 1);
    assert_eq!(finish(&mut actor, phase), TaskPhase::Terminated);
    assert_eq!(actor.cleanups, 1);
}

#[test]
fn receive_error_does_not_stop_the_task() {
    let mut actor = SimpleActor::new();
    let (phase, error) = process_envelope(&mut actor, TaskPhase::Running, Message::Regular("fail".to_string()));
    assert_eq!(phase, TaskPhase::Running);
    assert_eq!(error, Some("cannot handle".to_string()));
    let (phase, error) = process_envelope(&mut actor, phase, Message::Regular("ok".to_string()));
    assert_eq!(phase, TaskPhase::Running);
    assert_eq!(error, None);
    assert_eq!(actor.seen, vec!["ok".to_string()]);
}

#[test]
fn closed_mailbox_ends_the_task_with_one_cleanup() {
    let mut actor = SimpleActor::new();
    assert_eq!(finish(&mut actor, TaskPhase::Running), TaskPhase::Terminated);
    assert_eq!(actor.cleanups, 1);
    assert_eq!(finish(&mut actor, TaskPhase::Terminated), TaskPhase::Terminated);
    assert_eq!(actor.cleanups, 1);
}

#[test]
fn task_step_decisions() {
    assert_eq!(task_step(TaskPhase::Running, TaskEvent::Regular), (TaskPhase::Running, TaskAction::Deliver));
    assert_eq!(
        task_step(TaskPhase::Running, TaskEvent::Shutdown),
        (TaskPhase::Draining, TaskAction::DeliverThenCleanup)
    );
    assert_eq!(task_step(TaskPhase::Running, TaskEvent::Closed), (TaskPhase::Draining, TaskAction::Cleanup));
    assert_eq!(task_step(TaskPhase::Draining, TaskEvent::Regular), (TaskPhase::Draining, TaskAction::Discard));
    assert_eq!(
        task_step(TaskPhase::Draining, TaskEvent::CleanupDone),
        (TaskPhase::Terminated, TaskAction::Exit)
    );
    assert_eq!(
        task_step(TaskPhase::Terminated, TaskEvent::Shutdown),
        (TaskPhase::Terminated, TaskAction::Discard)
    );
}

#[test]
fn closing_the_registry_keeps_queued_envelopes() {
    let mut system: ActorSystem<u64> = ActorSystem::new();
    let handle = system.add_actor("a".to_string());
    assert_eq!(system.send_message("a", 1), Ok(()));
    assert!(!system.mailbox_closed(handle));
    system.close_all();
    assert!(system.mailbox_closed(handle));
    assert_eq!(system.send_message("a", 2), Err(SendError::Closed));
    assert!(matches!(system.next_envelope(handle), Some(Message::Regular(1))));
    assert!(system.next_envelope(handle).is_none());
    let mut actor = SimpleActor::new();
    assert_eq!(finish(&mut actor, TaskPhase::Running), TaskPhase::Terminated);
    assert_eq!(actor.cleanups, 1);
}

#[test]
fn full_mailbox_is_pending_under_blocking_policy() {
    let mut system: ActorSystem<u64> = ActorSystem::with_config(1, Backpressure::Block);
    let busy = system.add_actor("busy".to_string());
    let idle = system.add_actor("idle".to_string());
    assert_eq!(system.send_message("busy", 7), Ok(()));
    let report = system.shutdown();
    assert_eq!(report.pending, vec![busy]);
    assert!(report.failed.is_empty());
    assert!(matches!(system.next_envelope(idle), Some(Message::Shutdown)));
    assert_eq!(system.deliver_shutdown(busy), Err(DeliveryError::Full));
    assert!(matches!(system.next_envelope(busy), Some(Message::Regular(7))));
    assert_eq!(system.deliver_shutdown(busy), Ok(()));
    assert!(matches!(system.next_envelope(busy), Some(Message::Shutdown)));
}

#[test]
fn closed_mailbox_fails_shutdown() {
    let mut system: ActorSystem<u64> = ActorSystem::new();
    let done = system.add_actor("done".to_string());
    let live = system.add_actor("live".to_string());
    system.close_mailbox(done);
    assert!(system.mailbox_closed(done));
    assert!(!system.mailbox_closed(live));
    assert_eq!(system.send_message("done", 1), Err(SendError::Closed));
    let report = system.shutdown();
    assert_eq!(report.failed, vec![done]);
    assert!(report.pending.is_empty());
    assert!(matches!(system.next_envelope(live), Some(Message::Shutdown)));
}
