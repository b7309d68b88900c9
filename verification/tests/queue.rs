use vbus_core::{Message, Queue, TestPayload};

fn push_many(queue: &mut Queue<TestPayload>, n: usize) {
    for i in 0..n {
        queue.push(Message::new(i as u64, TestPayload::new(i)));
    }
}

fn check_many(messages: &[Message<TestPayload>], n: usize) {
    assert_eq!(messages.len(), n);
    for i in 0..n {
        assert!(messages[i].get_payload().check(i));
    }
}

#[test]
fn test_pull_and_wait_pull() {
    let mut queue = Queue::new(0);

    for n in 1..10 {
        assert_eq!(queue.pull().len(), 0);

        push_many(&mut queue, n);
        check_many(&queue.pull(), n);

        assert_eq!(queue.pull().len(), 0);

        push_many(&mut queue, n);
        check_many(&queue.wait_pull().unwrap(), n);
    }

    assert_eq!(queue.pull().len(), 0);
}

#[test]
fn test_eq() {
    let a = Queue::<TestPayload>::new(1);
    let a_clone = a.clone();
    assert!(a == a);
    assert!(a_clone == a_clone);
    assert!(a == a_clone);
    assert!(a_clone == a);

    let b = Queue::<TestPayload>::new(2);
    assert!(b == b);
    assert!(a != b);
    assert!(b != a);
    assert!(a_clone != b);
    assert!(b != a_clone);
}

#[test]
fn equality_is_by_identity_not_by_content() {
    let mut a = Queue::<TestPayload>::new(1);
    let same_id = Queue::<TestPayload>::new(1);
    a.push(Message::new(0, TestPayload::new(5)));
    assert!(a == same_id);
    let copy = a.clone();
    assert_eq!(copy.len(), 1);
    assert_eq!(copy.id(), 1);
}

#[test]
fn wait_pull_parks_on_an_empty_mailbox_until_a_push() {
    let mut queue = Queue::<TestPayload>::new(0);
    assert!(!queue.is_parked());
    assert!(queue.wait_pull().is_none());
    assert!(queue.is_parked());
    assert_eq!(queue.pull().len(), 0);
    assert!(queue.is_parked());
    queue.push(Message::new(9, TestPayload::default()));
    assert!(!queue.is_parked());
    let v = queue.pull();
    assert_eq!(v.len(), 1);
    assert_eq!(v.first().unwrap().get_type_stamp(), 9);
}

#[test]
fn waker_releases_only_its_own_mailbox() {
    let mut queue = Queue::<TestPayload>::new(4);
    let mut other = Queue::<TestPayload>::new(5);
    let waker = queue.waker();
    assert_eq!(waker.target(), 4);
    assert!(queue.wait_pull().is_none());
    assert!(other.wait_pull().is_none());

    waker.clone().wake_up(&mut other);
    assert!(other.is_parked());

    waker.wake_up(&mut queue);
    assert!(!queue.is_parked());
    let v = queue.pull();
    assert!(v.is_empty());
    assert_eq!(queue.len(), 0);
}
