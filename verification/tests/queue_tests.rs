use shard_registry::protocol::{Command, ServiceError};
use shard_registry::queue::CommandQueue;

fn add(id: &str) -> Command {
    Command::AddClient { client_id: String::from(id) }
}

fn id_of(command: &Command) -> &str {
    command.client_id()
}

#[test]
fn backpressure_rejects_the_overflowing_command() {
    // capacity 2: the third undrained enqueue must be rejected, not absorbed
    let mut queue = CommandQueue::new(2);
    assert_eq!(queue.enqueue(add("one")), Ok(()));
    assert_eq!(queue.enqueue(add("two")), Ok(()));
    assert_eq!(queue.enqueue(add("three")), Err(ServiceError::QueueFull));
    assert_eq!(queue.len(), 2);
}

#[test]
fn draining_makes_room_again() {
    let mut queue = CommandQueue::new(2);
    assert_eq!(queue.enqueue(add("one")), Ok(()));
    assert_eq!(queue.enqueue(add("two")), Ok(()));
    assert_eq!(queue.enqueue(add("three")), Err(ServiceError::QueueFull));
    assert!(queue.dequeue().is_some());
    assert_eq!(queue.enqueue(add("three")), Ok(()));
}

#[test]
fn commands_come_out_in_arrival_order() {
    let mut queue = CommandQueue::new(8);
    queue.enqueue(add("first")).unwrap();
    queue.enqueue(add("second")).unwrap();
    queue.enqueue(add("third")).unwrap();
    let a = queue.dequeue().unwrap();
    let b = queue.dequeue().unwrap();
    let c = queue.dequeue().unwrap();
    assert_eq!(id_of(&a), "first");
    assert_eq!(id_of(&b), "second");
    assert_eq!(id_of(&c), "third");
    assert!(queue.dequeue().is_none());
}

#[test]
fn closed_queue_refuses_new_commands() {
    let mut queue = CommandQueue::new(4);
    queue.enqueue(add("one")).unwrap();
    queue.close();
    assert_eq!(queue.enqueue(add("two")), Err(ServiceError::QueueClosed));
    // closing is idempotent
    queue.close();
    assert!(queue.closed());
    // what was queued before the close still drains, then end-of-stream
    let last = queue.dequeue().unwrap();
    assert_eq!(id_of(&last), "one");
    assert!(queue.dequeue().is_none());
}

#[test]
fn dequeue_on_empty_is_none() {
    let mut queue = CommandQueue::new(1);
    assert!(queue.dequeue().is_none());
}
