use plato_sim_channel::{ChannelAdapter, ChannelKind, ChannelLayer, ChannelMessage, ChannelMode, Score};

fn score(value: f32) -> Score {
    Score { bits: value.to_bits() }
}

fn value(score: Score) -> f32 {
    f32::from_bits(score.bits)
}

#[test]
fn test_channel_send_recv() {
    let mut ch = ChannelAdapter::live();
    ch.send_typed(ChannelKind::Fleet, "oracle1", b"hello");
    let msg = ch.recv(ChannelKind::Fleet).unwrap();
    assert_eq!(msg, b"hello");
}

#[test]
fn test_channel_recv_empty() {
    let mut ch = ChannelAdapter::simulated();
    assert!(ch.recv(ChannelKind::Event).is_none());
}

#[test]
fn test_channel_ordering() {
    let mut ch = ChannelAdapter::live();
    ch.send_typed(ChannelKind::Training, "a", b"1");
    ch.send_typed(ChannelKind::Training, "b", b"2");
    ch.send_typed(ChannelKind::Training, "c", b"3");

    assert_eq!(ch.recv(ChannelKind::Training).unwrap(), b"1");
    assert_eq!(ch.recv(ChannelKind::Training).unwrap(), b"2");
}

#[test]
fn test_sim_messages() {
    let mut ch = ChannelAdapter::simulated();
    ch.send_sim(ChannelKind::Tiles, "sim", b"tile_data");
    let msg = ch.recv_full(ChannelKind::Tiles).unwrap();
    assert!(msg.sim_origin);
    assert_eq!(msg.payload, b"tile_data");
}

#[test]
fn test_bridge() {
    let mut ch = ChannelAdapter::bridging();
    // Two simulated messages on the fleet channel, and a live one that stays.
    ch.send_sim(ChannelKind::Fleet, "sim", b"sim_msg_1");
    ch.send_sim(ChannelKind::Fleet, "sim", b"sim_msg_2");
    ch.send_typed(ChannelKind::Fleet, "live_agent", b"live_msg");

    let bridged = ch.bridge(ChannelKind::Fleet, ChannelKind::Event);
    assert_eq!(bridged, 2);

    assert_eq!(ch.channel_size(ChannelKind::Event), 2);
    assert_eq!(ch.channel_size(ChannelKind::Fleet), 1);
}

#[test]
fn test_capacity_limit() {
    let mut ch = ChannelAdapter::live().with_max_buffer(2);
    assert!(ch.send_typed(ChannelKind::Event, "a", b"1"));
    assert!(ch.send_typed(ChannelKind::Event, "a", b"2"));
    assert!(!ch.send_typed(ChannelKind::Event, "a", b"3"));
}

#[test]
fn test_is_live() {
    assert!(ChannelAdapter::live().is_live());
    assert!(!ChannelAdapter::simulated().is_live());
    assert!(!ChannelAdapter::bridging().is_live());
}

#[test]
fn test_channel_layer_trait() {
    let mut ch = ChannelAdapter::live();
    assert!(ch.bridge_send(0, b"fleet_msg"));
    assert!(ch.bridge_send(3, b"tile_msg"));

    let fleet = ch.bridge_recv(0).unwrap();
    assert_eq!(fleet, b"fleet_msg");

    let tiles = ch.bridge_recv(3).unwrap();
    assert_eq!(tiles, b"tile_msg");
}

#[test]
fn test_channel_kinds() {
    assert_eq!(ChannelKind::from_byte(0), ChannelKind::Fleet);
    assert_eq!(ChannelKind::from_byte(1), ChannelKind::Training);
    assert_eq!(ChannelKind::from_byte(5), ChannelKind::Custom(5));
    assert_eq!(ChannelKind::Fleet.to_byte(), 0);
    assert_eq!(ChannelKind::Custom(99).to_byte(), 99);
}

#[test]
fn test_quality_score() {
    let msg = ChannelMessage::new(ChannelKind::Event, "src", b"data").with_quality(score(0.95));
    assert_eq!(value(msg.quality_score), 0.95);
}

#[test]
fn test_quality_clamping() {
    let msg = ChannelMessage::new(ChannelKind::Event, "src", b"data").with_quality(score(1.5));
    assert_eq!(value(msg.quality_score), 1.0);
}

#[test]
fn test_stats() {
    let mut ch = ChannelAdapter::bridging();
    ch.send_typed(ChannelKind::Fleet, "a", b"1");
    ch.send_sim(ChannelKind::Tiles, "sim", b"2");
    ch.recv(ChannelKind::Fleet);

    let stats = ch.stats();
    assert_eq!(stats.messages_sent, 2);
    assert_eq!(stats.messages_received, 1);
    assert_eq!(stats.messages_bridged, 1);
    assert_eq!(stats.active_channels, 2);
}

#[test]
fn test_mode_switch() {
    let mut ch = ChannelAdapter::simulated();
    assert!(!ch.is_live());
    ch.set_mode(ChannelMode::Live);
    assert!(ch.is_live());
}

#[test]
fn test_multiple_channels_independent() {
    let mut ch = ChannelAdapter::live();
    ch.send_typed(ChannelKind::Fleet, "a", b"f1");
    ch.send_typed(ChannelKind::Training, "a", b"t1");

    assert_eq!(ch.recv(ChannelKind::Fleet).unwrap(), b"f1");
    assert_eq!(ch.recv(ChannelKind::Training).unwrap(), b"t1");
    assert!(ch.recv(ChannelKind::Event).is_none());
}

#[test]
fn test_bridge_empty() {
    let mut ch = ChannelAdapter::bridging();
    let bridged = ch.bridge(ChannelKind::Event, ChannelKind::Fleet);
    assert_eq!(bridged, 0);
}
