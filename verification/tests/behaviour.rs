use plato_sim_channel::clock::timestamp_from;
use plato_sim_channel::{ChannelAdapter, ChannelKind, ChannelLayer, ChannelMessage, ChannelMode, Score};

fn rated(value: f32) -> f32 {
    let msg = ChannelMessage::new_at(ChannelKind::Trust, "rater", b"", 0);
    f32::from_bits(msg.with_quality(Score { bits: value.to_bits() }).quality_score.bits)
}

#[test]
fn every_byte_is_read_and_written_back() {
    for b in 0u8..=255 {
        assert_eq!(ChannelKind::from_byte(b).to_byte(), b);
    }
    assert_eq!(ChannelKind::from_byte(2), ChannelKind::Event);
    assert_eq!(ChannelKind::from_byte(3), ChannelKind::Tiles);
    assert_eq!(ChannelKind::from_byte(4), ChannelKind::Trust);
    assert_eq!(ChannelKind::from_byte(255), ChannelKind::Custom(255));
}

#[test]
fn a_custom_kind_can_share_the_number_of_a_named_one() {
    assert_eq!(ChannelKind::Custom(3).to_byte(), 3);
    let mut ch = ChannelAdapter::live();
    ch.send_typed(ChannelKind::Custom(3), "a", b"x");
    let msg = ch.recv_full(ChannelKind::Tiles).unwrap();
    assert_eq!(msg.channel, ChannelKind::Custom(3));
}

#[test]
fn kinds_have_names() {
    assert_eq!(ChannelKind::Fleet.name(), "fleet");
    assert_eq!(ChannelKind::Training.name(), "training");
    assert_eq!(ChannelKind::Event.name(), "event");
    assert_eq!(ChannelKind::Tiles.name(), "tiles");
    assert_eq!(ChannelKind::Trust.name(), "trust");
    assert_eq!(ChannelKind::Custom(77).name(), "custom");
}

#[test]
fn new_messages_are_live_and_unrated() {
    let msg = ChannelMessage::new_at(ChannelKind::Event, "src", b"data", 42);
    assert_eq!(msg.payload, b"data");
    assert_eq!(msg.channel, ChannelKind::Event);
    assert_eq!(msg.source, "src");
    assert_eq!(msg.timestamp, 42);
    assert!(!msg.sim_origin);
    assert_eq!(f32::from_bits(msg.quality_score.bits), 0.5);
    assert!(ChannelMessage::from_sim(ChannelKind::Event, "src", b"data").sim_origin);
}

#[test]
fn messages_carry_the_current_time() {
    let before = std::time::SystemTime::now()
        .duration_since(std::time::UNIX_EPOCH)
        .unwrap()
        .as_nanos() as u64;
    let msg = ChannelMessage::new(ChannelKind::Event, "src", b"data");
    let after = std::time::SystemTime::now()
        .duration_since(std::time::UNIX_EPOCH)
        .unwrap()
        .as_nanos() as u64;
    assert!(before <= msg.timestamp);
    assert!(msg.timestamp <= after);
}

#[test]
fn timestamps_are_the_low_bits_of_the_clock() {
    assert_eq!(timestamp_from(None), 0);
    assert_eq!(timestamp_from(Some(17)), 17);
    assert_eq!(timestamp_from(Some((1u128 << 64) + 5)), 5);
}

#[test]
fn quality_is_brought_into_range() {
    assert_eq!(rated(0.0), 0.0);
    assert_eq!(rated(1.0), 1.0);
    assert_eq!(rated(0.25), 0.25);
    assert_eq!(rated(-0.5), 0.0);
    assert_eq!(rated(-0.0), 0.0);
    assert_eq!(rated(f32::NAN), 0.0);
    assert_eq!(rated(f32::INFINITY), 1.0);
    assert_eq!(rated(f32::NEG_INFINITY), 0.0);
    assert_eq!(rated(f32::MIN_POSITIVE), f32::MIN_POSITIVE);
    assert_eq!(rated(f32::from_bits(1)), f32::from_bits(1));
    assert_eq!(rated(1.0000001), 1.0);
    assert_eq!(rated(f32::MAX), 1.0);
}

#[test]
fn quality_agrees_with_the_float_operations() {
    let mut bits: u32 = 0;
    while bits < 0xffff_0000 {
        let q = f32::from_bits(bits);
        assert_eq!(rated(q), q.max(0.0).min(1.0));
        bits += 0xfff1;
    }
}

#[test]
fn interleaved_traffic_keeps_its_order() {
    let mut ch = ChannelAdapter::live();
    assert!(ch.send_typed_at(ChannelKind::Fleet, "a", b"1", 1));
    assert!(ch.send_typed_at(ChannelKind::Trust, "a", b"other", 2));
    assert!(ch.send_sim_at(ChannelKind::Fleet, "s", b"2", 3));
    assert_eq!(ch.recv(ChannelKind::Fleet).unwrap(), b"1");
    assert!(ch.bridge_send_at(0, b"3", 4));
    assert_eq!(ch.recv(ChannelKind::Fleet).unwrap(), b"2");
    assert_eq!(ch.bridge_recv(0).unwrap(), b"3");
    assert!(ch.recv(ChannelKind::Fleet).is_none());
    assert_eq!(ch.channel_size(ChannelKind::Trust), 1);
}

#[test]
fn a_refused_message_changes_nothing_but_opens_the_channel() {
    let mut ch = ChannelAdapter::live().with_max_buffer(0);
    assert!(!ch.send_typed(ChannelKind::Event, "a", b"1"));
    assert!(!ch.send_sim(ChannelKind::Event, "a", b"1"));
    assert!(!ch.bridge_send(9, b"1"));
    let stats = ch.stats();
    assert_eq!(stats.messages_sent, 0);
    assert_eq!(stats.messages_bridged, 0);
    assert_eq!(stats.total_buffered, 0);
    assert_eq!(stats.active_channels, 2);
}

#[test]
fn the_limit_is_256_unless_set() {
    let mut ch = ChannelAdapter::new(ChannelMode::Live);
    for _ in 0..256 {
        assert!(ch.send_typed(ChannelKind::Event, "a", b"x"));
    }
    assert!(!ch.send_typed(ChannelKind::Event, "a", b"x"));
    assert!(ch.send_typed(ChannelKind::Fleet, "a", b"x"));
    assert_eq!(ch.channel_size(ChannelKind::Event), 256);
    assert_eq!(ch.total_buffered(), 257);
}

#[test]
fn receiving_does_not_open_a_channel() {
    let mut ch = ChannelAdapter::live();
    assert!(ch.recv_full(ChannelKind::Event).is_none());
    assert!(ch.bridge_recv(200).is_none());
    assert_eq!(ch.stats().active_channels, 0);
    assert_eq!(ch.stats().messages_received, 0);
}

#[test]
fn bridging_keeps_the_order_on_both_sides() {
    let mut ch = ChannelAdapter::bridging();
    ch.send_typed_at(ChannelKind::Event, "e", b"waiting", 0);
    ch.send_sim_at(ChannelKind::Fleet, "s", b"s1", 1);
    ch.send_typed_at(ChannelKind::Fleet, "l", b"l1", 2);
    ch.send_sim_at(ChannelKind::Fleet, "s", b"s2", 3);
    ch.send_typed_at(ChannelKind::Fleet, "l", b"l2", 4);
    assert_eq!(ch.bridge(ChannelKind::Fleet, ChannelKind::Event), 2);
    assert_eq!(ch.recv(ChannelKind::Event).unwrap(), b"waiting");
    let first = ch.recv_full(ChannelKind::Event).unwrap();
    assert_eq!(first.payload, b"s1");
    assert!(first.sim_origin);
    assert_eq!(first.channel, ChannelKind::Fleet);
    assert_eq!(ch.recv(ChannelKind::Event).unwrap(), b"s2");
    assert_eq!(ch.recv(ChannelKind::Fleet).unwrap(), b"l1");
    assert_eq!(ch.recv(ChannelKind::Fleet).unwrap(), b"l2");
    assert_eq!(ch.total_buffered(), 0);
}

#[test]
fn bridging_again_moves_nothing() {
    let mut ch = ChannelAdapter::bridging();
    ch.send_sim(ChannelKind::Fleet, "s", b"s1");
    ch.send_typed(ChannelKind::Fleet, "l", b"l1");
    assert_eq!(ch.bridge(ChannelKind::Fleet, ChannelKind::Event), 1);
    let bridged = ch.stats().messages_bridged;
    assert_eq!(ch.bridge(ChannelKind::Fleet, ChannelKind::Event), 0);
    assert_eq!(ch.stats().messages_bridged, bridged);
    assert_eq!(ch.channel_size(ChannelKind::Fleet), 1);
    assert_eq!(ch.channel_size(ChannelKind::Event), 1);
}

#[test]
fn bridging_into_a_full_channel_drops_the_newest() {
    let mut ch = ChannelAdapter::bridging().with_max_buffer(3);
    ch.send_typed(ChannelKind::Event, "e", b"e1");
    ch.send_typed(ChannelKind::Event, "e", b"e2");
    ch.send_sim(ChannelKind::Fleet, "s", b"s1");
    ch.send_sim(ChannelKind::Fleet, "s", b"s2");
    assert_eq!(ch.bridge(ChannelKind::Fleet, ChannelKind::Event), 2);
    assert_eq!(ch.channel_size(ChannelKind::Event), 3);
    assert_eq!(ch.channel_size(ChannelKind::Fleet), 0);
    let stats = ch.stats();
    assert_eq!(stats.messages_sent, 4);
    assert_eq!(stats.messages_bridged, 3);
    assert_eq!(stats.total_buffered, 3);
    ch.recv(ChannelKind::Event);
    ch.recv(ChannelKind::Event);
    assert_eq!(ch.recv(ChannelKind::Event).unwrap(), b"s1");
}

#[test]
fn bridging_over_a_lowered_limit_drops_everything() {
    let mut ch = ChannelAdapter::bridging();
    ch.send_typed(ChannelKind::Event, "e", b"e1");
    ch.send_typed(ChannelKind::Event, "e", b"e2");
    ch.send_sim(ChannelKind::Fleet, "s", b"s1");
    let mut ch = ch.with_max_buffer(1);
    assert_eq!(ch.bridge(ChannelKind::Fleet, ChannelKind::Event), 1);
    assert_eq!(ch.channel_size(ChannelKind::Event), 2);
    assert_eq!(ch.channel_size(ChannelKind::Fleet), 0);
    assert_eq!(ch.stats().messages_bridged, 1);
}

#[test]
fn bridging_a_channel_to_itself_puts_live_messages_first() {
    let mut ch = ChannelAdapter::bridging();
    ch.send_sim(ChannelKind::Fleet, "s", b"s1");
    ch.send_typed(ChannelKind::Fleet, "l", b"l1");
    assert_eq!(ch.bridge(ChannelKind::Fleet, ChannelKind::Fleet), 1);
    assert_eq!(ch.recv(ChannelKind::Fleet).unwrap(), b"l1");
    assert_eq!(ch.recv(ChannelKind::Fleet).unwrap(), b"s1");
}

#[test]
fn bridging_closes_an_emptied_channel_and_opens_the_target() {
    let mut ch = ChannelAdapter::bridging();
    ch.send_sim(ChannelKind::Fleet, "s", b"s1");
    assert_eq!(ch.stats().active_channels, 1);
    ch.bridge(ChannelKind::Fleet, ChannelKind::Event);
    assert_eq!(ch.stats().active_channels, 1);
    ch.bridge(ChannelKind::Tiles, ChannelKind::Trust);
    assert_eq!(ch.stats().active_channels, 2);
    assert_eq!(ch.channel_size(ChannelKind::Trust), 0);
}

#[test]
fn the_layer_marks_messages_as_simulated_outside_live_mode() {
    let mut ch = ChannelAdapter::live();
    ch.bridge_send(1, b"x");
    let msg = ch.recv_full(ChannelKind::Training).unwrap();
    assert!(!msg.sim_origin);
    assert_eq!(msg.source, "bridge");
    assert_eq!(msg.channel, ChannelKind::Training);

    ch.set_mode(ChannelMode::Simulated);
    ch.bridge_send(1, b"y");
    assert!(ch.recv_full(ChannelKind::Training).unwrap().sim_origin);

    ch.set_mode(ChannelMode::Bridging);
    ch.bridge_send(1, b"z");
    assert_eq!(ch.bridge(ChannelKind::Training, ChannelKind::Custom(8)), 1);
    assert_eq!(ch.bridge_recv(8).unwrap(), b"z");
    assert_eq!(ch.stats().mode, ChannelMode::Bridging);
}

#[test]
fn what_waits_and_was_received_has_been_sent() {
    let mut ch = ChannelAdapter::bridging().with_max_buffer(2);
    for round in 0u8..20 {
        ch.send_sim(ChannelKind::from_byte(round % 3), "s", &[round]);
        ch.send_typed(ChannelKind::from_byte(round % 5), "l", &[round]);
        ch.bridge(ChannelKind::from_byte(round % 3), ChannelKind::from_byte(round % 2));
        ch.recv(ChannelKind::from_byte(round % 4));
        let stats = ch.stats();
        assert!(stats.total_buffered as u64 + stats.messages_received <= stats.messages_sent);
        for b in 0u8..5 {
            assert!(ch.channel_size(ChannelKind::from_byte(b)) <= 2);
        }
    }
}

#[test]
fn a_clone_has_its_own_buffers() {
    let mut ch = ChannelAdapter::live();
    ch.send_typed_at(ChannelKind::Fleet, "a", b"one", 5);
    let mut copy = ch.clone();
    assert_eq!(ch.recv(ChannelKind::Fleet).unwrap(), b"one");
    let msg = copy.recv_full(ChannelKind::Fleet).unwrap();
    assert_eq!(msg.payload, b"one");
    assert_eq!(msg.clone().timestamp, 5);
    assert_eq!(copy.stats().messages_sent, 1);
}

struct Loopback {
    last: Option<Vec<u8>>,
}

impl ChannelLayer for Loopback {
    fn bridge_send(&mut self, _channel: u8, msg: &[u8]) -> bool {
        self.last = Some(msg.to_vec());
        true
    }

    fn bridge_recv(&mut self, _channel: u8) -> Option<Vec<u8>> {
        self.last.take()
    }

    fn is_live(&self) -> bool {
        false
    }
}

#[test]
fn other_types_can_be_layers() {
    let mut layer = Loopback { last: None };
    assert!(layer.bridge_send(0, b"echo"));
    assert_eq!(layer.bridge_recv(0).unwrap(), b"echo");
    assert!(!layer.is_live());
}

#[test]
fn snapshots_agree_with_the_queues_and_repeat() {
    let mut ch = ChannelAdapter::bridging();
    ch.send_sim(ChannelKind::Fleet, "s", b"1");
    ch.send_typed(ChannelKind::Custom(200), "l", b"2");
    ch.send_typed(ChannelKind::Trust, "l", b"3");
    ch.recv(ChannelKind::Trust);
    let stats = ch.stats();
    let mut busy: usize = 0;
    for b in 0u8..=255 {
        if ch.channel_size(ChannelKind::from_byte(b)) > 0 {
            busy += 1;
        }
    }
    assert_eq!(busy, 2);
    assert_eq!(stats.active_channels, 3);
    assert_eq!(stats.total_buffered, ch.total_buffered());
    let again = ch.stats();
    assert_eq!(again.mode, stats.mode);
    assert_eq!(again.messages_sent, stats.messages_sent);
    assert_eq!(again.messages_received, stats.messages_received);
    assert_eq!(again.messages_bridged, stats.messages_bridged);
    assert_eq!(again.active_channels, stats.active_channels);
    assert_eq!(again.total_buffered, stats.total_buffered);
}

#[test]
fn every_sent_message_is_received_waits_or_was_dropped() {
    let mut ch = ChannelAdapter::bridging().with_max_buffer(2);
    ch.send_sim(ChannelKind::Fleet, "s", b"s1");
    ch.send_sim(ChannelKind::Fleet, "s", b"s2");
    ch.send_typed(ChannelKind::Event, "e", b"e1");
    ch.recv(ChannelKind::Fleet);
    let stats = ch.stats();
    assert_eq!(stats.messages_received + stats.total_buffered as u64, stats.messages_sent);
    ch.send_typed(ChannelKind::Event, "e", b"e2");
    ch.bridge(ChannelKind::Fleet, ChannelKind::Event);
    let stats = ch.stats();
    assert_eq!(stats.messages_received + stats.total_buffered as u64 + 1, stats.messages_sent);
}

fn echo<L: ChannelLayer>(layer: &mut L) -> Option<Vec<u8>> {
    layer.bridge_send(7, b"first");
    layer.bridge_send(7, b"second");
    layer.bridge_recv(7);
    layer.bridge_recv(7)
}

#[test]
fn layers_can_be_used_again_and_again() {
    assert_eq!(echo(&mut ChannelAdapter::live()).unwrap(), b"second");
}
