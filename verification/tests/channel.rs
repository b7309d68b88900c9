use vbus_core::{Channel, Consumer, Message, Payload, Producer, TestPayload};

#[test]
fn test_instantiate_producers() {
    let channel = Channel::<TestPayload>::new();

    let n: usize = 10;
    let mut v = Vec::<Producer<TestPayload>>::new();
    for _ in 0..n {
        v.push(channel.new_producer());
    }
}

#[test]
fn channel_test_instantiate_consumers() {
    let mut channel = Channel::<TestPayload>::new();

    let n: usize = 10;
    let mut v = Vec::<Consumer<TestPayload>>::new();
    for _ in 0..n {
        v.push(channel.new_consumer());
    }
    assert_eq!(v.len(), n);
    assert_eq!(channel.queues_read().len(), n);
}

#[test]
fn consumer_test_instantiate_consumers() {
    let mut channel = Channel::<TestPayload>::new();

    let n: usize = 10;
    let mut v = Vec::<Consumer<TestPayload>>::new();
    for _ in 0..n {
        v.push(Consumer::new(&mut channel));
    }
    assert_eq!(v.len(), n);
    assert_eq!(channel.queues_len(), n);
}

#[test]
fn channel_test_drop_consumer() {
    let mut channel = Channel::<TestPayload>::new();

    let n: usize = 10;
    let mut v = Vec::<Consumer<TestPayload>>::new();
    for i in 0..n {
        assert_eq!(channel.queues_read().len(), i);
        v.push(channel.new_consumer());
        // so that we can identify consumers
        channel.new_producer().push(&mut channel, TestPayload::new(i));
    }

    assert_eq!(channel.queues_read().len(), n);

    for i in 0..n {
        // make sure that we're popping the right consumer
        let consumer = v.pop().unwrap();
        assert_eq!(consumer.pull(&mut channel).len(), i + 1);
        consumer.release(&mut channel);
        assert_eq!(channel.queues_read().len(), n - i - 1);
    }
}

#[test]
fn consumer_test_drop_consumer() {
    let mut channel = Channel::<TestPayload>::new();

    let n: usize = 10;
    let mut v = Vec::<Consumer<TestPayload>>::new();
    for i in 0..n {
        assert_eq!(channel.queues_len(), i);
        v.push(channel.new_consumer());
        channel.push(TestPayload::new(i)); // so that we can identify consumers
    }

    assert_eq!(channel.queues_len(), n);

    for i in 0..n {
        // make sure that we're popping the right consumer
        let consumer = v.pop().unwrap();
        assert_eq!(consumer.pull(&mut channel).len(), i + 1);
        consumer.release(&mut channel);
        assert_eq!(channel.queues_len(), n - i - 1);
    }
}

#[test]
fn test_global() {
    let mut channel: Channel<TestPayload> = Channel::<TestPayload>::new();

    let producer: Producer<TestPayload> = channel.new_producer();
    producer.push(&mut channel, TestPayload::default());

    let consumer: Consumer<TestPayload> = channel.new_consumer();

    let vec_content = [123456789, 42, 0];

    for content in vec_content {
        let start_time = channel.now();
        producer.push(&mut channel, TestPayload::new(content));

        let messages = consumer.pull(&mut channel);
        let stop_time = channel.now();

        let message = messages.first().unwrap();
        assert!(message.get_payload().check(content));

        let push_time = message.get_type_stamp();
        assert!(push_time > start_time);
        assert!(stop_time > push_time);
    }
}

#[test]
fn test_channel_global() {
    let mut channel: Channel<TestPayload> = Channel::<TestPayload>::new();

    channel.push(TestPayload::default());

    let consumer: Consumer<TestPayload> = channel.new_consumer();

    let vec_content = [123456789, 42, 0];

    for content in vec_content {
        let start_time = channel.now();
        channel.push(TestPayload::new(content));

        let messages = consumer.pull(&mut channel);
        let stop_time = channel.now();

        let message = messages.first().unwrap();
        assert!(message.get_payload().check(content));

        let push_time = message.get_type_stamp();
        assert!(push_time > start_time);
        assert!(stop_time > push_time);
    }
}

#[test]
fn consumer_api_up_to_blocking() {
    let mut channel = Channel::<TestPayload>::new();
    let consumer = channel.new_consumer();

    assert_eq!(channel.queues_read()[0].len(), 0);
    assert_eq!(consumer.pull(&mut channel).len(), 0);

    channel.push_message(Message::new(1, TestPayload::default()));
    assert_eq!(channel.queues_read()[0].len(), 1);
    channel.push_message(Message::new(2, TestPayload::default()));
    assert_eq!(channel.queues_read()[0].len(), 2);
    assert_eq!(consumer.pull(&mut channel).len(), 2);
    assert_eq!(channel.queues_read()[0].len(), 0);

    channel.push_message(Message::new(3, TestPayload::default()));
    assert_eq!(channel.queues_read()[0].len(), 1);
    assert_eq!(consumer.wait_pull(&mut channel).unwrap().len(), 1);
    assert_eq!(channel.queues_read()[0].len(), 0);

    // An empty mailbox parks its reader until a push arrives.
    assert!(consumer.wait_pull(&mut channel).is_none());
    assert!(channel.is_parked(consumer.id()));
    assert_eq!(consumer.pull(&mut channel).len(), 0);
    assert!(channel.is_parked(consumer.id()));
    channel.push_message(Message::new(4, TestPayload::default()));
    assert!(!channel.is_parked(consumer.id()));
    assert_eq!(consumer.pull(&mut channel).len(), 1);
}

#[test]
fn consumer_waker_releases_without_a_message() {
    let mut channel = Channel::<TestPayload>::new();
    let consumer = channel.new_consumer();
    let waker = consumer.wait_pull_waker();

    assert!(consumer.wait_pull(&mut channel).is_none());
    assert!(channel.is_parked(consumer.id()));

    channel.wake_up(&waker);
    assert!(!channel.is_parked(consumer.id()));
    let v = consumer.pull(&mut channel);
    assert!(v.is_empty());
}

#[test]
fn waking_a_reader_that_is_not_parked_changes_nothing() {
    let mut channel = Channel::<TestPayload>::new();
    let consumer = channel.new_consumer();
    let waker = consumer.wait_pull_waker();
    channel.push_message(Message::new(7, TestPayload::new(9)));

    channel.wake_up(&waker);
    channel.wake_up(&waker);

    assert!(!channel.is_parked(consumer.id()));
    let batch = consumer.pull(&mut channel);
    assert_eq!(batch.len(), 1);
    assert_eq!(batch[0].get_type_stamp(), 7);
    assert_eq!(batch[0].get_payload().value(), 9);
    assert_eq!(consumer.pull(&mut channel).len(), 0);
}

#[test]
fn fan_out_gives_every_consumer_every_message_in_order() {
    let mut channel = Channel::<TestPayload>::new();
    let consumers: Vec<Consumer<TestPayload>> =
        (0..4).map(|_| channel.new_consumer()).collect();

    for (i, value) in [123456789usize, 42, 0].iter().enumerate() {
        channel.push_message(Message::new(100 + i as u64, TestPayload::new(*value)));
    }

    for consumer in &consumers {
        let batch = consumer.pull(&mut channel);
        let values: Vec<usize> = batch.iter().map(|m| m.get_payload().value()).collect();
        let stamps: Vec<u64> = batch.iter().map(|m| m.get_type_stamp()).collect();
        assert_eq!(values, vec![123456789, 42, 0]);
        assert_eq!(stamps, vec![100, 101, 102]);
    }
}

#[test]
fn push_stamps_every_copy_with_the_same_reading() {
    let mut channel = Channel::<TestPayload>::new();
    let first = channel.new_consumer();
    let second = channel.new_consumer();
    channel.push(TestPayload::new(5));
    let a = first.pull(&mut channel);
    let b = second.pull(&mut channel);
    assert_eq!(a.len(), 1);
    assert_eq!(b.len(), 1);
    assert_eq!(a[0].get_type_stamp(), b[0].get_type_stamp());
    assert_eq!(a[0].get_payload().value(), 5);
    assert_eq!(b[0].get_payload().value(), 5);
}

#[test]
fn deregistration_leaves_the_others_in_place() {
    let mut channel = Channel::<TestPayload>::new();
    let a = channel.new_consumer();
    let b = channel.new_consumer();
    let c = channel.new_consumer();
    assert_eq!((a.id(), b.id(), c.id()), (0, 1, 2));
    channel.push_message(Message::new(1, TestPayload::new(10)));

    b.release(&mut channel);
    assert_eq!(channel.queues_len(), 2);
    assert_eq!(channel.queues_read()[0].id(), 0);
    assert_eq!(channel.queues_read()[1].id(), 2);
    assert_eq!(channel.find_queue(1), None);
    assert_eq!(channel.find_queue(2), Some(1));

    channel.push_message(Message::new(2, TestPayload::new(20)));
    for consumer in [&a, &c] {
        let values: Vec<usize> =
            consumer.pull(&mut channel).iter().map(|m| m.get_payload().value()).collect();
        assert_eq!(values, vec![10, 20]);
    }

    // An identity is not issued twice.
    let d = channel.new_consumer();
    assert_eq!(d.id(), 3);
}

#[test]
fn a_consumer_that_is_not_registered_gets_nothing() {
    let mut channel = Channel::<TestPayload>::new();
    let mut other = Channel::<TestPayload>::new();
    let _first = other.new_consumer();
    let stranger = other.new_consumer();
    let _own = channel.new_consumer();
    channel.push(TestPayload::new(1));
    assert_eq!(stranger.pull(&mut channel).len(), 0);
    assert!(stranger.wait_pull(&mut channel).is_none());
    assert!(!channel.is_parked(stranger.id()));
    assert_eq!(channel.queues_read()[0].len(), 1);
}

#[test]
fn message_clone_shares_stamp_and_payload() {
    let message = Message::new(77, TestPayload::new(3));
    let copy = message.clone();
    assert_eq!(copy.get_type_stamp(), 77);
    assert_eq!(copy.get_payload().value(), 3);
    assert_eq!(copy.value(), 3);
    assert!(std::ptr::eq(message.get_payload(), copy.get_payload()));
    assert_eq!(TestPayload::format_name(), "vbus_core::test_payload::TestPayload");
}

#[test]
fn dumb_test() {}
