//! What the parts of an adapter's state mean, and what each operation does with
//! every message, said of the fields themselves.
use vstd::prelude::*;

use crate::adapter::ChannelAdapter;
use crate::kind::{ChannelKind, ChannelMode};
use crate::layer::ChannelLayer;
use crate::message::{ChannelMessage, MessageModel};
use crate::model::AdapterModel;
use crate::score::Score;

verus! {

/// The value of a message holds every field of it, unchanged.
pub proof fn message_values_hold_every_field(m: ChannelMessage)
    ensures
        m@.payload == m.payload@,
        m@.channel == m.channel,
        m@.source == m.source@,
        m@.timestamp == m.timestamp,
        m@.sim_origin == m.sim_origin,
        m@.quality_score == m.quality_score,
{
}

/// A new message carries exactly what it was given, is live, and has the quality
/// one half; setting its origin changes nothing else.
pub proof fn new_messages_carry_what_they_are_given(
    channel: ChannelKind,
    source: Seq<char>,
    payload: Seq<u8>,
    timestamp: u64,
    sim_origin: bool,
)
    ensures
        ({
            let m = MessageModel::fresh(channel, source, payload, timestamp);
            &&& m.payload == payload
            &&& m.source == source
            &&& m.channel == channel
            &&& m.timestamp == timestamp
            &&& !m.sim_origin
            &&& m.quality_score.bits == 0x3f00_0000
        }),
        ({
            let m = MessageModel::fresh(channel, source, payload, timestamp).with_origin(
                sim_origin,
            );
            &&& m.payload == payload
            &&& m.source == source
            &&& m.channel == channel
            &&& m.timestamp == timestamp
            &&& m.sim_origin == sim_origin
            &&& m.quality_score.bits == 0x3f00_0000
        }),
{
}

/// Setting the origin of any message changes its origin and nothing else.
pub proof fn origins_are_set_alone(m: MessageModel, sim_origin: bool)
    ensures
        m.with_origin(sim_origin).sim_origin == sim_origin,
        m.with_origin(sim_origin).with_origin(m.sim_origin) == m,
{
}

/// In every mode the channel layer sends exactly the payload that it is given,
/// on the channel with the number that it is given, as coming from `bridge`; the
/// mode decides the origin and nothing else.
pub proof fn layer_messages_carry_the_payload(
    s: AdapterModel,
    ch: u8,
    payload: Seq<u8>,
    timestamp: u64,
)
    ensures
        ({
            let m = s.bridge_message(ch, payload, timestamp);
            &&& m.payload == payload
            &&& m.source == "bridge"@
            &&& m.channel.byte() == ch
            &&& m.channel == ChannelKind::of_byte(ch)
            &&& m.timestamp == timestamp
            &&& m.quality_score.bits == 0x3f00_0000
            &&& m.sim_origin == !(s.mode is Live)
        }),
{
}

/// A channel's queue is its buffer, and empty where it has none.
pub proof fn queues_are_the_buffers(s: AdapterModel, ch: u8)
    ensures
        s.channels.contains_key(ch) ==> s.queue(ch) == s.channels[ch],
        !s.channels.contains_key(ch) ==> s.queue(ch).len() == 0,
{
}

/// The total is a sum over the buffers: nothing waits without buffers, and taking
/// a buffer away takes exactly its messages off the total.
pub proof fn totals_are_sums(s: AdapterModel, ch: u8)
    ensures
        s.channels.dom() == Set::<u8>::empty() ==> s.total() == 0,
        s.channels.contains_key(ch) ==> s.total() == s.channels[ch].len() + (AdapterModel {
            channels: s.channels.remove(ch),
            ..s
        }).total(),
{
    if s.channels.dom() == Set::<u8>::empty() {
        assert(s.channels =~= Map::empty());
        crate::model::lemma_total_empty(256);
    }
    crate::model::lemma_total_remove(s.channels, ch, 256);
}

/// A channel is busy if and only if it has a buffer with a message in it.
pub proof fn busy_channels_hold_messages(s: AdapterModel, ch: u8)
    ensures
        s.busy().contains(ch) <==> s.channels.contains_key(ch) && s.channels[ch].len() > 0,
{
}

/// When a state is well formed, when a channel has room, and when a message can
/// be counted: no more is asked for than that the counters hold.
pub proof fn conditions_are_the_counters_limits(s: AdapterModel, ch: u8)
    ensures
        s.wf() <==> s.messages_received + s.total() <= s.messages_sent && s.total() <= usize::MAX,
        s.has_room(ch) <==> s.queue(ch).len() < s.max_buffer,
        s.messages_sent < u64::MAX && s.total() < usize::MAX ==> s.can_count_send(ch),
        s.queue(ch).len() >= s.max_buffer ==> s.can_count_send(ch),
{
}

/// As a channel layer an adapter asks for no more than a well-formed state and
/// room in its counters.
pub proof fn adapters_can_be_used_as_layers(a: ChannelAdapter, ch: u8, times: nat)
    requires
        a@.wf(),
    ensures
        a.can_recv(ch),
        a@.messages_sent < u64::MAX && a@.total() < usize::MAX ==> a.can_send(ch),
        a@.queue(ch).len() >= a@.max_buffer ==> a.can_send(ch),
        a@.messages_sent + times <= u64::MAX && a@.total() + times <= usize::MAX
            ==> a.can_send_times(times),
{
}

/// A new adapter has no buffers, has counted nothing, and takes 256 messages per
/// channel.
pub proof fn new_adapters_are_empty(mode: ChannelMode, ch: u8)
    ensures
        AdapterModel::init(mode).mode == mode,
        !AdapterModel::init(mode).channels.contains_key(ch),
        AdapterModel::init(mode).max_buffer == 256,
        AdapterModel::init(mode).messages_sent == 0,
        AdapterModel::init(mode).messages_received == 0,
        AdapterModel::init(mode).messages_bridged == 0,
{
}

/// A channel below the limit that was set, whatever that is, takes the message:
/// it becomes the last of the queue, behind all that waited, and is counted once.
pub proof fn channels_below_the_limit_take_messages(
    s: AdapterModel,
    ch: u8,
    msg: MessageModel,
    other: u8,
)
    requires
        s.queue(ch).len() < s.max_buffer,
    ensures
        s.has_room(ch),
        ({
            let t = s.send(ch, msg);
            &&& t.queue(ch) == s.queue(ch).push(msg)
            &&& t.channels.contains_key(other) <==> s.channels.contains_key(other) || other == ch
            &&& other != ch ==> t.queue(other) == s.queue(other)
            &&& t.messages_sent == s.messages_sent + 1
            &&& t.messages_received == s.messages_received
            &&& t.messages_bridged == s.messages_bridged
            &&& t.mode == s.mode
            &&& t.max_buffer == s.max_buffer
        }),
        ({
            let t = s.send_sim(ch, msg);
            &&& t.queue(ch) == s.queue(ch).push(msg)
            &&& t.channels.contains_key(other) <==> s.channels.contains_key(other) || other == ch
            &&& other != ch ==> t.queue(other) == s.queue(other)
            &&& t.messages_sent == s.messages_sent + 1
            &&& t.messages_received == s.messages_received
            &&& t.messages_bridged == s.messages_bridged + 1
            &&& t.mode == s.mode
            &&& t.max_buffer == s.max_buffer
        }),
{
}

/// A channel at its limit or over it refuses the message: every queue and every
/// counter stays, and the channel is open afterwards.
pub proof fn channels_at_the_limit_refuse_messages(
    s: AdapterModel,
    ch: u8,
    msg: MessageModel,
    other: u8,
)
    requires
        s.queue(ch).len() >= s.max_buffer,
    ensures
        !s.has_room(ch),
        s.send_sim(ch, msg) == s.send(ch, msg),
        ({
            let t = s.send(ch, msg);
            &&& t.queue(other) == s.queue(other)
            &&& t.channels.contains_key(other) <==> s.channels.contains_key(other) || other == ch
            &&& t.messages_sent == s.messages_sent
            &&& t.messages_received == s.messages_received
            &&& t.messages_bridged == s.messages_bridged
            &&& t.mode == s.mode
            &&& t.max_buffer == s.max_buffer
        }),
{
}

/// A channel on which any message waits, however many do, yields the oldest: that
/// one leaves the queue, the others stay in order, and it is counted once.
pub proof fn waiting_messages_are_received(s: AdapterModel, ch: u8, other: u8)
    requires
        s.queue(ch).len() > 0,
    ensures
        s.front(ch) == Some(s.queue(ch)[0]),
        ({
            let t = s.recv(ch);
            &&& seq![s.queue(ch)[0]] + t.queue(ch) == s.queue(ch)
            &&& t.queue(ch) == s.queue(ch).drop_first()
            &&& t.channels.contains_key(other) <==> s.channels.contains_key(other)
            &&& other != ch ==> t.queue(other) == s.queue(other)
            &&& t.messages_sent == s.messages_sent
            &&& t.messages_received == s.messages_received + 1
            &&& t.messages_bridged == s.messages_bridged
            &&& t.mode == s.mode
            &&& t.max_buffer == s.max_buffer
        }),
{
    assert(seq![s.queue(ch)[0]] + s.recv(ch).queue(ch) =~= s.queue(ch));
}

/// A channel on which no message waits yields none, and asking it changes
/// nothing.
pub proof fn empty_channels_yield_nothing(s: AdapterModel, ch: u8)
    requires
        s.queue(ch).len() == 0,
    ensures
        s.front(ch) is None,
        s.recv(ch) == s,
{
}

/// What is sent on an empty channel is received unchanged: payload, source, kind
/// and timestamp, of whatever length.
pub proof fn payloads_are_received_unchanged(
    s: AdapterModel,
    kind: ChannelKind,
    source: Seq<char>,
    payload: Seq<u8>,
    timestamp: u64,
)
    requires
        s.queue(kind.byte()).len() == 0,
        s.max_buffer > 0,
    ensures
        ({
            let m = MessageModel::fresh(kind, source, payload, timestamp);
            &&& s.send(kind.byte(), m).front(kind.byte()) == Some(
                MessageModel {
                    payload,
                    channel: kind,
                    source,
                    timestamp,
                    sim_origin: false,
                    quality_score: Score { bits: 0x3f00_0000 },
                },
            )
            &&& s.send_sim(kind.byte(), m.with_origin(true)).front(kind.byte()) == Some(
                MessageModel {
                    payload,
                    channel: kind,
                    source,
                    timestamp,
                    sim_origin: true,
                    quality_score: Score { bits: 0x3f00_0000 },
                },
            )
        }),
        ({
            let t = s.send(
                kind.byte(),
                s.bridge_message(kind.byte(), payload, timestamp),
            );
            t.front(kind.byte()) matches Some(m) && m.payload == payload
        }),
{
}

/// A queue parts by origin: an empty one into nothing, and a message that joins
/// the queue joins the end of the messages of its own origin and leaves the
/// others alone. What else the states hold has no part in it.
pub proof fn queues_part_by_origin(s: AdapterModel, ch: u8, t: AdapterModel, to: u8, msg: MessageModel)
    ensures
        s.queue(ch).len() == 0 ==> s.simulated(ch).len() == 0 && s.live(ch).len() == 0,
        t.queue(to) == s.queue(ch).push(msg) ==> {
            &&& t.simulated(to) == (if msg.sim_origin {
                s.simulated(ch).push(msg)
            } else {
                s.simulated(ch)
            })
            &&& t.live(to) == (if msg.sim_origin {
                s.live(ch)
            } else {
                s.live(ch).push(msg)
            })
        },
{
    crate::model::lemma_origin_push(s.queue(ch), msg);
    crate::model::lemma_origin_split(s.queue(ch));
}

/// The simulated and the live messages of a channel are those of its queue: each
/// of the right origin, none missing, none twice.
pub proof fn origins_lose_nothing(s: AdapterModel, ch: u8, i: int)
    ensures
        s.simulated(ch).len() + s.live(ch).len() == s.queue(ch).len(),
        0 <= i < s.simulated(ch).len() ==> s.simulated(ch)[i].sim_origin && s.queue(ch).contains(
            s.simulated(ch)[i],
        ),
        0 <= i < s.live(ch).len() ==> !s.live(ch)[i].sim_origin && s.queue(ch).contains(
            s.live(ch)[i],
        ),
        0 <= i < s.queue(ch).len() ==> if s.queue(ch)[i].sim_origin {
            s.simulated(ch).contains(s.queue(ch)[i])
        } else {
            s.live(ch).contains(s.queue(ch)[i])
        },
{
    lemma_origins_within(s.queue(ch), i);
    crate::model::lemma_origin_split(s.queue(ch));
}

proof fn lemma_origins_within(queue: Seq<MessageModel>, i: int)
    ensures
        0 <= i < crate::model::simulated_of(queue).len() ==> crate::model::simulated_of(
            queue,
        )[i].sim_origin && queue.contains(crate::model::simulated_of(queue)[i]),
        0 <= i < crate::model::live_of(queue).len() ==> !crate::model::live_of(queue)[i].sim_origin
            && queue.contains(crate::model::live_of(queue)[i]),
        0 <= i < queue.len() ==> if queue[i].sim_origin {
            crate::model::simulated_of(queue).contains(queue[i])
        } else {
            crate::model::live_of(queue).contains(queue[i])
        },
    decreases queue.len(),
{
    if queue.len() > 0 {
        let init = queue.drop_last();
        let last = queue.last();
        lemma_origins_within(init, i);
        assert(queue =~= init.push(last));
        crate::model::lemma_origin_push(init, last);
        assert forall|m: MessageModel| init.contains(m) implies queue.contains(m) by {
            let j = choose|j: int| 0 <= j < init.len() && init[j] == m;
            assert(queue[j] == m);
        }
        assert(queue[queue.len() - 1] == last);
        let sim = crate::model::simulated_of(init);
        let live = crate::model::live_of(init);
        if 0 <= i < queue.len() {
            if i == init.len() {
                assert(sim.push(last)[sim.len() as int] == last);
                assert(live.push(last)[live.len() as int] == last);
            } else if queue[i].sim_origin {
                let j = choose|j: int| 0 <= j < sim.len() && sim[j] == queue[i];
                assert(sim.push(last)[j] == queue[i]);
            } else {
                let j = choose|j: int| 0 <= j < live.len() && live[j] == queue[i];
                assert(live.push(last)[j] == queue[i]);
            }
        }
    } else {
        reveal(Seq::filter);
    }
}

/// Bridging drops a simulated message only when the target is full, and moves one
/// only up to the limit. Every simulated message is either moved or dropped.
pub proof fn bridging_fills_the_target(s: AdapterModel, from: u8, to: u8)
    ensures
        s.bridgeable(from, to) + s.unbridgeable(from, to) == s.simulated(from).len(),
        s.unbridgeable(from, to) > 0 ==> s.bridge(from, to).queue(to).len() >= s.max_buffer,
        s.bridgeable(from, to) > 0 ==> s.bridge(from, to).queue(to).len() <= s.max_buffer,
{
}

/// Between two channels bridging is exact: the live messages stay, the target
/// keeps what waited there and gets the oldest simulated messages behind it, as
/// many as it grows by, and so many are counted as bridged.
pub proof fn bridging_moves_the_oldest(s: AdapterModel, from: u8, to: u8)
    requires
        from != to,
    ensures
        ({
            let t = s.bridge(from, to);
            let before = s.queue(to);
            let after = t.queue(to);
            let moved = after.len() - before.len();
            &&& 0 <= moved <= s.simulated(from).len()
            &&& after.take(before.len() as int) == before
            &&& after.skip(before.len() as int) == s.simulated(from).take(moved)
            &&& moved < s.simulated(from).len() ==> after.len() >= s.max_buffer
            &&& moved > 0 ==> after.len() <= s.max_buffer
            &&& t.messages_bridged == s.messages_bridged + moved
            &&& t.queue(from) == s.live(from)
        }),
{
    let t = s.bridge(from, to);
    let before = s.queue(to);
    let after = t.queue(to);
    bridging_fills_the_target(s, from, to);
    crate::laws::bridge_moves_the_simulated(s, from, to);
    let moved = s.bridgeable(from, to) as int;
    assert(after.len() == before.len() + moved);
    assert(after.take(before.len() as int) =~= before);
    assert(after.skip(before.len() as int) =~= s.simulated(from).take(moved));
}

/// Bridging a channel to itself is exact too: the live messages come first, and
/// behind them the oldest simulated ones, as far as the limit allows.
pub proof fn bridging_to_itself_keeps_the_oldest(s: AdapterModel, ch: u8)
    ensures
        ({
            let t = s.bridge(ch, ch);
            let after = t.queue(ch);
            let kept = after.len() - s.live(ch).len();
            &&& 0 <= kept <= s.simulated(ch).len()
            &&& after.take(s.live(ch).len() as int) == s.live(ch)
            &&& after.skip(s.live(ch).len() as int) == s.simulated(ch).take(kept)
            &&& kept < s.simulated(ch).len() ==> after.len() >= s.max_buffer
            &&& kept > 0 ==> after.len() <= s.max_buffer
            &&& t.messages_bridged == s.messages_bridged + kept
        }),
{
    let after = s.bridge(ch, ch).queue(ch);
    bridging_fills_the_target(s, ch, ch);
    crate::laws::bridge_to_itself_reorders(s, ch);
    let kept = s.bridgeable(ch, ch) as int;
    assert(after.len() == s.live(ch).len() + kept);
    assert(after.take(s.live(ch).len() as int) =~= s.live(ch));
    assert(after.skip(s.live(ch).len() as int) =~= s.simulated(ch).take(kept));
}

/// Bridging opens the target, closes the source where no live message is left on
/// it, and changes no other channel, no mode, no limit, and no counter but that
/// of bridged messages.
pub proof fn bridging_changes_nothing_else(s: AdapterModel, from: u8, to: u8, other: u8)
    ensures
        ({
            let t = s.bridge(from, to);
            &&& t.channels.contains_key(to)
            &&& from != to ==> (t.channels.contains_key(from) <==> s.live(from).len() > 0)
            &&& other != from && other != to ==> {
                &&& t.channels.contains_key(other) <==> s.channels.contains_key(other)
                &&& t.queue(other) == s.queue(other)
            }
            &&& t.messages_sent == s.messages_sent
            &&& t.messages_received == s.messages_received
            &&& t.mode == s.mode
            &&& t.max_buffer == s.max_buffer
        }),
{
}

/// The numbers of the kinds, read both ways: five are named, and every other
/// number stands for the custom kind of that number.
pub proof fn kinds_have_their_numbers(kind: ChannelKind, b: u8)
    ensures
        kind is Fleet ==> kind.byte() == 0,
        kind is Training ==> kind.byte() == 1,
        kind is Event ==> kind.byte() == 2,
        kind is Tiles ==> kind.byte() == 3,
        kind is Trust ==> kind.byte() == 4,
        kind matches ChannelKind::Custom(n) ==> kind.byte() == n,
        b < 5 ==> !(ChannelKind::of_byte(b) is Custom),
        b >= 5 ==> ChannelKind::of_byte(b) == ChannelKind::Custom(b),
        ChannelKind::of_byte(b).byte() == b,
        kind.canonical() <==> !(kind is Custom) || kind.byte() >= 5,
{
}

/// The names of the kinds; custom kinds share one.
pub proof fn kinds_have_their_names(kind: ChannelKind)
    ensures
        kind is Fleet ==> kind.label() == "fleet"@,
        kind is Training ==> kind.label() == "training"@,
        kind is Event ==> kind.label() == "event"@,
        kind is Tiles ==> kind.label() == "tiles"@,
        kind is Trust ==> kind.label() == "trust"@,
        kind is Custom ==> kind.label() == "custom"@,
{
}

/// A timestamp is the clock reading where that fits, turns over with the 64th
/// bit, and is zero before the epoch.
pub proof fn timestamps_turn_over(nanos: u128)
    ensures
        crate::clock::timestamp(None) == 0,
        nanos <= u64::MAX ==> crate::clock::timestamp(Some(nanos)) == nanos,
        nanos > u64::MAX ==> crate::clock::timestamp(Some(nanos)) == crate::clock::timestamp(
            Some((nanos - 0x1_0000_0000_0000_0000) as u128),
        ),
{
}

/// Scores by their bit patterns: from zero to one they stay, above one they become
/// one, infinity included, and everything else becomes zero.
pub proof fn scores_are_clamped_by_their_bits(q: Score)
    ensures
        q.bits <= 0x3f80_0000 ==> q.clamp().bits == q.bits,
        0x3f80_0000 < q.bits <= 0x7f80_0000 ==> q.clamp().bits == 0x3f80_0000,
        q.bits > 0x7f80_0000 ==> q.clamp().bits == 0,
{
    crate::score::lemma_half_and_one();
    if q.bits < 0x3f80_0000 {
        crate::score::lemma_units_ordered(q.bits as int, 0x3f80_0000);
    } else if 0x3f80_0000 < q.bits <= 0x7f80_0000 {
        crate::score::lemma_units_ordered(0x3f80_0000, q.bits as int);
    }
}

/// What a score denotes: the least patterns count units one by one, a step of the
/// exponent doubles, a sign negates, and the pattern of one denotes one.
pub proof fn scores_denote_numbers(q: Score, up: Score, negated: Score)
    ensures
        q.bits < 0x0100_0000 ==> q.units() == q.bits,
        0x0080_0000 <= q.bits && q.bits + 0x0080_0000 == up.bits && up.bits < 0x8000_0000
            ==> up.units() == 2 * q.units(),
        q.bits < 0x8000_0000 && negated.bits == q.bits + 0x8000_0000 ==> negated.units()
            == -q.units(),
        q.bits == 0x3f80_0000 ==> q.units() == Score::one_units(),
        q.is_negative() <==> q.bits >= 0x8000_0000,
        q.is_nan() <==> 0x7f80_0000 < q.bits < 0x8000_0000 || q.bits > 0xff80_0000,
        q.in_unit_range() <==> q.bits <= 0x3f80_0000,
{
    crate::score::lemma_half_and_one();
    vstd::arithmetic::power2::lemma2_to64();
    if 0x0080_0000 <= q.bits < 0x0100_0000 {
        assert(q.bits as int / 0x0080_0000 == 1);
        assert(q.bits as int % 0x0080_0000 == q.bits - 0x0080_0000);
        let p = vstd::arithmetic::power2::pow2(0) as int;
        assert(q.bits * p == q.bits) by (nonlinear_arith)
            requires
                p == 1,
        ;
    }
    if 0x0080_0000 <= q.bits && q.bits + 0x0080_0000 == up.bits && up.bits < 0x8000_0000 {
        let e = q.bits as int / 0x0080_0000;
        let f = q.bits as int % 0x0080_0000;
        assert(up.bits as int / 0x0080_0000 == e + 1);
        assert(up.bits as int % 0x0080_0000 == f);
        vstd::arithmetic::power2::lemma_pow2_unfold(e as nat);
        let p = vstd::arithmetic::power2::pow2((e - 1) as nat) as int;
        assert((0x0080_0000 + f) * (2 * p) == 2 * ((0x0080_0000 + f) * p)) by (nonlinear_arith);
    }
    crate::score::lemma_units_ordered(0, q.magnitude());
    if q.magnitude() < 0x3f80_0000 {
        crate::score::lemma_units_ordered(q.magnitude(), 0x3f80_0000);
    } else if q.magnitude() > 0x3f80_0000 {
        crate::score::lemma_units_ordered(0x3f80_0000, q.magnitude());
    }
}

} // verus!
