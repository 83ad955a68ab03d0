use messenger_bridge::queue::{DeliveryQueue, WorkerStep};
use messenger_bridge::worker::{key_command, parse_window_id, type_command};

#[test]
fn fifo_order() {
    let mut q = DeliveryQueue::new();
    let msgs = ["one", "two", "three", "two"];
    for m in msgs {
        q.enqueue(m.to_string());
    }
    assert_eq!(q.len(), 4);
    for m in msgs {
        assert_eq!(q.dequeue(), Some(m.to_string()));
    }
    assert_eq!(q.dequeue(), None);
}

#[test]
fn worker_waits_then_drains_then_finishes() {
    let mut q = DeliveryQueue::new();
    assert!(matches!(q.next_step(), WorkerStep::Wait));
    q.enqueue("a".to_string());
    q.enqueue("b".to_string());
    q.close();
    assert!(q.is_closed());
    match q.next_step() {
        WorkerStep::Deliver(m) => assert_eq!(m, "a"),
        _ => panic!("expected a delivery"),
    }
    match q.next_step() {
        WorkerStep::Deliver(m) => assert_eq!(m, "b"),
        _ => panic!("expected a delivery"),
    }
    assert!(matches!(q.next_step(), WorkerStep::Finish));
}

#[test]
fn window_id_is_first_line() {
    assert_eq!(parse_window_id("1234\n5678\n"), Some("1234".to_string()));
    assert_eq!(parse_window_id("99"), Some("99".to_string()));
    assert_eq!(parse_window_id(""), None);
    assert_eq!(parse_window_id("\n42\n"), None);
}

#[test]
fn injection_commands() {
    assert_eq!(
        type_command("1234", "*Alice*: hello "),
        vec!["type", "--window", "1234", "--delay", "100", "*Alice*: hello "]
    );
    assert_eq!(key_command("1234"), vec!["key", "--window", "1234", "Return"]);
}
