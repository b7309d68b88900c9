use vbus_core::{
    ByteSink, ByteSource, Channel, Error, InputStream, IoErrorKind, Message, Player, Recorder,
    TestPayload,
};

fn read(bytes: Vec<u8>) -> Result<Vec<Message<TestPayload>>, Error> {
    let mut istream = InputStream::<TestPayload>::new(ByteSource::from_bytes(bytes))?;
    let mut v = Vec::<Message<TestPayload>>::new();

    loop {
        match istream.get() {
            Ok(message) => v.push(message),
            Err(Error::RegularEof) => break,
            Err(e) => return Err(e),
        }
    }

    Ok(v)
}

#[test]
fn recorder_writes_what_the_channel_carries() {
    let now: u64 = 5_000_000;
    let reference = [
        Message::new(now, TestPayload::new(123456789)),
        Message::new(now + 1, TestPayload::new(42)),
        Message::new(now + 2_000_000_000, TestPayload::new(42)),
    ];

    let mut channel: Channel<TestPayload> = Channel::<TestPayload>::new();
    let mut recorder = Recorder::new(&mut channel, ByteSink::new()).unwrap();
    reference.iter().for_each(|x| channel.push_message(x.clone()));
    assert_eq!(recorder.record(&mut channel, false).unwrap(), 3);
    assert_eq!(recorder.record(&mut channel, false).unwrap(), 0);
    let file = recorder.finish(&mut channel);
    assert_eq!(channel.queues_len(), 0);

    let actual = read(file).unwrap();

    let ref_ts = reference.iter().map(|m| m.get_type_stamp()).collect::<Vec<_>>();
    let actual_ts = actual.iter().map(|m| m.get_type_stamp()).collect::<Vec<_>>();
    assert_eq!(actual_ts, ref_ts);

    let ref_payload = reference.iter().map(|m| m.get_payload()).collect::<Vec<_>>();
    let actual_payload = actual.iter().map(|m| m.get_payload()).collect::<Vec<_>>();
    assert_eq!(actual_payload, ref_payload);
}

#[test]
fn record_then_replay_keeps_payloads_and_time_stamps() {
    let mut channel = Channel::<TestPayload>::new();
    let mut recorder = channel.new_recorder(ByteSink::new()).unwrap();
    let witness = channel.new_consumer();
    for value in [123456789usize, 42, 0] {
        channel.push(TestPayload::new(value));
    }
    recorder.record(&mut channel, false).unwrap();
    let stamped: Vec<u64> =
        witness.pull(&mut channel).iter().map(|m| m.get_type_stamp()).collect();
    let file = recorder.finish(&mut channel);

    let mut fresh = Channel::<TestPayload>::new();
    let consumer = fresh.new_consumer();
    let mut player = fresh.new_player(ByteSource::from_bytes(file)).unwrap();
    match player.play(&mut fresh) {
        Error::RegularEof => {}
        e => panic!("Unexpected error: {:?}", e),
    }

    let buffer = consumer.pull(&mut fresh);
    let values: Vec<usize> = buffer.iter().map(|m| m.get_payload().value()).collect();
    let stamps: Vec<u64> = buffer.iter().map(|m| m.get_type_stamp()).collect();
    assert_eq!(values, vec![123456789, 42, 0]);
    assert_eq!(stamps, stamped);
}

#[test]
fn player_replays_a_data_set() {
    let data: Vec<Message<TestPayload>> = (0..=100u64)
        .map(|i| Message::new(1_000 + 37 * i * i, TestPayload::new((i * 2654435761 % 1000) as usize)))
        .collect();
    let mut ostream = vbus_core::OutputStream::<TestPayload>::new(ByteSink::new()).unwrap();
    for message in &data {
        ostream.append(message).unwrap();
    }

    let mut channel = Channel::<TestPayload>::new();
    let consumer = channel.new_consumer();
    let mut player = Player::new(ByteSource::from_bytes(ostream.take_bytes())).unwrap();
    assert!(matches!(player.play(&mut channel), Error::RegularEof));

    let buffer = consumer.pull(&mut channel);
    assert_eq!(buffer.len(), data.len());
    for i in 0..data.len() {
        assert_eq!(buffer[i].get_payload().value(), data[i].get_payload().value());
        assert_eq!(buffer[i].get_type_stamp(), data[i].get_type_stamp());
    }
}

#[test]
fn player_on_a_live_source_stops_where_the_bytes_end_and_goes_on_later() {
    let mut ostream = vbus_core::OutputStream::<TestPayload>::new(ByteSink::new()).unwrap();
    let prefix = ostream.take_bytes();
    ostream.append(&Message::new(1, TestPayload::new(10))).unwrap();
    ostream.append(&Message::new(2, TestPayload::new(20))).unwrap();
    let chunks = ostream.take_bytes();

    let mut source = ByteSource::new();
    source.feed(&prefix);
    let mut player = Player::<TestPayload>::new(source).unwrap();
    let mut channel = Channel::<TestPayload>::new();
    let consumer = channel.new_consumer();

    player.feed(&chunks[..20]);
    assert!(matches!(player.play(&mut channel), Error::StdIo(IoErrorKind::WouldBlock)));
    assert_eq!(consumer.pull(&mut channel).len(), 1);
    assert_eq!(player.demand(), 13);

    player.feed(&chunks[20..]);
    player.close();
    assert!(matches!(player.play(&mut channel), Error::RegularEof));
    let rest = consumer.pull(&mut channel);
    assert_eq!(rest.len(), 1);
    assert_eq!(rest[0].get_payload().value(), 20);
    assert_eq!(rest[0].get_type_stamp(), 2);
}

#[test]
fn recorder_stops_at_the_first_message_that_does_not_fit() {
    let prefix =
        vbus_core::OutputStream::<TestPayload>::new(ByteSink::new()).unwrap().take_bytes().len();
    let mut channel = Channel::<TestPayload>::new();
    let mut recorder =
        Recorder::<TestPayload>::new(&mut channel, ByteSink::with_capacity(prefix + 40)).unwrap();
    for value in [1usize, 2, 3] {
        channel.push(TestPayload::new(value));
    }
    match recorder.record(&mut channel, false) {
        Err(Error::StdIo(IoErrorKind::WriteZero)) => {}
        _ => panic!("Expected WriteZero"),
    }
    let bytes = recorder.take_bytes();
    assert_eq!(bytes.len(), prefix + 40);

    match Recorder::<TestPayload>::new(&mut channel, ByteSink::with_capacity(3)) {
        Err(Error::StdIo(IoErrorKind::WriteZero)) => {}
        _ => panic!("Expected WriteZero"),
    }
    assert_eq!(channel.queues_len(), 1);
}

#[test]
fn recorder_that_is_told_to_stop_drops_the_batch() {
    let mut channel = Channel::<TestPayload>::new();
    let mut recorder = channel.new_recorder(ByteSink::new()).unwrap();
    recorder.take_bytes();
    channel.push(TestPayload::new(1));
    assert_eq!(recorder.record(&mut channel, true).unwrap(), 0);
    assert!(recorder.take_bytes().is_empty());
    channel.push(TestPayload::new(2));
    assert_eq!(recorder.record(&mut channel, false).unwrap(), 0);
    assert!(recorder.take_bytes().is_empty());
}
