//! What holds of an adapter as a whole.
use vstd::prelude::*;

use crate::kind::{ChannelKind, ChannelMode};
use crate::message::MessageModel;
use crate::model::AdapterModel;
use crate::score::Score;

verus! {

/// A send that is taken adds one to the messages that wait and to those that
/// were sent, and a simulated one adds one to those that were bridged; one that
/// is refused adds nothing. So the state stays well formed while the message can
/// be counted.
pub proof fn send_is_counted(s: AdapterModel, ch: u8, msg: MessageModel)
    ensures
        s.has_room(ch) ==> {
            &&& s.send(ch, msg).total() == s.total() + 1
            &&& s.send(ch, msg).messages_sent == s.messages_sent + 1
            &&& s.send_sim(ch, msg).messages_bridged == s.messages_bridged + 1
        },
        !s.has_room(ch) ==> {
            &&& s.send(ch, msg).total() == s.total()
            &&& s.send(ch, msg).messages_sent == s.messages_sent
            &&& s.send_sim(ch, msg).messages_bridged == s.messages_bridged
        },
        s.send(ch, msg).messages_received == s.messages_received,
        s.send(ch, msg).messages_bridged == s.messages_bridged,
        s.send_sim(ch, msg).total() == s.send(ch, msg).total(),
        s.send_sim(ch, msg).messages_sent == s.send(ch, msg).messages_sent,
        s.wf() && s.can_count_send(ch) ==> s.send(ch, msg).wf() && s.send_sim(ch, msg).wf(),
{
    crate::model::lemma_total_insert(s.channels, ch, s.queue(ch).push(msg), 256);
    crate::model::lemma_total_insert(s.channels, ch, s.queue(ch), 256);
}

/// A message that is received leaves the messages that wait and joins those
/// that were received. So the state stays well formed.
pub proof fn recv_is_counted(s: AdapterModel, ch: u8)
    ensures
        s.recv(ch).total() + s.recv(ch).messages_received == s.total() + s.messages_received,
        s.front(ch) is Some ==> {
            &&& s.recv(ch).messages_received == s.messages_received + 1
            &&& 1 <= s.total()
        },
        s.recv(ch).messages_sent == s.messages_sent,
        s.wf() ==> s.recv(ch).wf(),
{
    crate::model::lemma_total_insert(s.channels, ch, s.queue(ch).drop_first(), 256);
    crate::model::lemma_queue_within_total(s.channels, ch, 256);
}

/// Bridging makes no messages: the total falls by exactly those simulated
/// messages that found no room. So the state stays well formed.
pub proof fn bridge_is_counted(s: AdapterModel, from: u8, to: u8)
    ensures
        s.bridgeable(from, to) <= s.simulated(from).len(),
        s.bridge(from, to).total() + s.unbridgeable(from, to) == s.total(),
        s.bridge(from, to).messages_bridged == s.messages_bridged + s.bridgeable(from, to),
        s.wf() ==> s.bridge(from, to).wf(),
{
    let rest = s.without_simulated(from);
    let moved = s.simulated(from).take(s.bridgeable(from, to) as int);
    crate::model::lemma_origin_split(s.queue(from));
    crate::model::lemma_total_insert(s.channels, from, s.live(from), 256);
    crate::model::lemma_total_remove(s.channels, from, 256);
    crate::model::lemma_total_insert(rest, to, crate::model::queue_in(rest, to) + moved, 256);
}

/// One operation on an adapter.
pub enum Operation {
    Send { ch: u8, msg: MessageModel },
    SendSim { ch: u8, msg: MessageModel },
    Recv { ch: u8 },
    Bridge { from: u8, to: u8 },
    SetMode { mode: ChannelMode },
    SetMaxBuffer { max: nat },
}

impl Operation {
    /// Messages leave the channel at its front alone: the operation does not
    /// bridge them away.
    pub open spec fn keeps_order_on(self, ch: u8) -> bool {
        self matches Operation::Bridge { from, to } ==> from != ch
    }
}

/// The state after one operation.
pub open spec fn step(s: AdapterModel, op: Operation) -> AdapterModel {
    match op {
        Operation::Send { ch, msg } => s.send(ch, msg),
        Operation::SendSim { ch, msg } => s.send_sim(ch, msg),
        Operation::Recv { ch } => s.recv(ch),
        Operation::Bridge { from, to } => s.bridge(from, to),
        Operation::SetMode { mode } => AdapterModel { mode, ..s },
        Operation::SetMaxBuffer { max } => AdapterModel { max_buffer: max, ..s },
    }
}

/// The state after a run of operations.
pub open spec fn run(s: AdapterModel, ops: Seq<Operation>) -> AdapterModel
    decreases ops.len(),
{
    if ops.len() == 0 {
        s
    } else {
        step(run(s, ops.drop_last()), ops.last())
    }
}

/// The messages that the channel takes in the course of a run, those that are
/// bridged to it included.
pub open spec fn taken(s: AdapterModel, ops: Seq<Operation>, ch: u8) -> Seq<MessageModel>
    decreases ops.len(),
{
    if ops.len() == 0 {
        Seq::empty()
    } else {
        let before = taken(s, ops.drop_last(), ch);
        let now = run(s, ops.drop_last());
        match ops.last() {
            Operation::Send { ch: c, msg } if c == ch && now.has_room(ch) => before.push(msg),
            Operation::SendSim { ch: c, msg } if c == ch && now.has_room(ch) => before.push(msg),
            Operation::Bridge { from, to } if to == ch => before + now.simulated(from).take(
                now.bridgeable(from, to) as int,
            ),
            _ => before,
        }
    }
}

/// The messages that are received on the channel in the course of a run.
pub open spec fn received(s: AdapterModel, ops: Seq<Operation>, ch: u8) -> Seq<MessageModel>
    decreases ops.len(),
{
    if ops.len() == 0 {
        Seq::empty()
    } else {
        let before = received(s, ops.drop_last(), ch);
        match (ops.last(), run(s, ops.drop_last()).front(ch)) {
            (Operation::Recv { ch: c }, Some(msg)) if c == ch => before.push(msg),
            _ => before,
        }
    }
}

/// How many messages an operation drops.
pub open spec fn dropped_by(s: AdapterModel, op: Operation) -> nat {
    match op {
        Operation::Bridge { from, to } => s.unbridgeable(from, to),
        _ => 0,
    }
}

/// How many messages are dropped in the course of a run.
pub open spec fn dropped(s: AdapterModel, ops: Seq<Operation>) -> nat
    decreases ops.len(),
{
    if ops.len() == 0 {
        0
    } else {
        dropped(s, ops.drop_last()) + dropped_by(run(s, ops.drop_last()), ops.last())
    }
}

/// No channel holds more than the limit.
pub open spec fn within_limit(s: AdapterModel) -> bool {
    forall|ch: u8| (#[trigger] s.queue(ch)).len() <= s.max_buffer
}

/// First in, first out: what a channel held and what it took make up, in this
/// order, what was received on it and what it still holds. Operations on other
/// channels, in between, change nothing of that.
pub proof fn channels_are_first_in_first_out(s: AdapterModel, ops: Seq<Operation>, ch: u8)
    requires
        forall|i: int| 0 <= i < ops.len() ==> (#[trigger] ops[i]).keeps_order_on(ch),
    ensures
        received(s, ops, ch) + run(s, ops).queue(ch) == s.queue(ch) + taken(s, ops, ch),
    decreases ops.len(),
{
    if ops.len() == 0 {
        assert(received(s, ops, ch) + run(s, ops).queue(ch) =~= s.queue(ch) + taken(s, ops, ch));
    } else {
        let init = ops.drop_last();
        assert forall|i: int| 0 <= i < init.len() implies (#[trigger] init[i]).keeps_order_on(
            ch,
        ) by {
            assert(ops[i].keeps_order_on(ch));
        }
        channels_are_first_in_first_out(s, init, ch);
        let before = run(s, init);
        let out = received(s, init, ch);
        let inn = taken(s, init, ch);
        assert(ops.last().keeps_order_on(ch));
        match ops.last() {
            Operation::Send { ch: c, msg } => {
                assert(out + before.queue(ch).push(msg) =~= (out + before.queue(ch)).push(msg));
                assert(s.queue(ch) + inn.push(msg) =~= (s.queue(ch) + inn).push(msg));
            },
            Operation::SendSim { ch: c, msg } => {
                assert(out + before.queue(ch).push(msg) =~= (out + before.queue(ch)).push(msg));
                assert(s.queue(ch) + inn.push(msg) =~= (s.queue(ch) + inn).push(msg));
            },
            Operation::Recv { ch: c } => {
                if c == ch && before.queue(ch).len() > 0 {
                    assert(out.push(before.queue(ch)[0]) + before.queue(ch).drop_first() =~= out
                        + before.queue(ch));
                }
            },
            Operation::Bridge { from, to } => {
                if to == ch {
                    let moved = before.simulated(from).take(before.bridgeable(from, to) as int);
                    bridge_moves_the_simulated(before, from, to);
                    assert(out + (before.queue(ch) + moved) =~= (out + before.queue(ch)) + moved);
                    assert(s.queue(ch) + (inn + moved) =~= (s.queue(ch) + inn) + moved);
                } else {
                    bridge_leaves_other_channels(before, from, to, ch);
                }
            },
            _ => {},
        }
    }
}

/// A run accounts for every message: what was received, what waits and what was
/// dropped grow together as what was sent does.
pub proof fn runs_account_for_every_message(s: AdapterModel, ops: Seq<Operation>)
    ensures
        run(s, ops).messages_received + run(s, ops).total() + dropped(s, ops) + s.messages_sent
            == s.messages_received + s.total() + run(s, ops).messages_sent,
    decreases ops.len(),
{
    if ops.len() > 0 {
        runs_account_for_every_message(s, ops.drop_last());
        let before = run(s, ops.drop_last());
        match ops.last() {
            Operation::Send { ch, msg } => send_is_counted(before, ch, msg),
            Operation::SendSim { ch, msg } => send_is_counted(before, ch, msg),
            Operation::Recv { ch } => recv_is_counted(before, ch),
            Operation::Bridge { from, to } => bridge_is_counted(before, from, to),
            _ => {},
        }
    }
}

/// Whatever is done with a new adapter, what was received, what waits and what
/// was dropped together make up what was sent. So the state is well formed while
/// the messages that wait can be counted.
pub proof fn sent_messages_are_accounted_for(mode: ChannelMode, ops: Seq<Operation>)
    ensures
        ({
            let s = AdapterModel::init(mode);
            let after = run(s, ops);
            &&& after.messages_received + after.total() + dropped(s, ops) == after.messages_sent
            &&& after.total() <= usize::MAX ==> after.wf()
        }),
{
    crate::model::lemma_total_empty(256);
    runs_account_for_every_message(AdapterModel::init(mode), ops);
}

/// A new adapter has received or still holds everything that was sent if and
/// only if no bridging in between dropped a message.
pub proof fn only_bridging_drops_messages(mode: ChannelMode, ops: Seq<Operation>)
    ensures
        ({
            let s = AdapterModel::init(mode);
            let after = run(s, ops);
            after.messages_received + after.total() == after.messages_sent <==> forall|i: int|
                0 <= i < ops.len() ==> dropped_by(run(s, ops.take(i)), #[trigger] ops[i]) == 0
        }),
{
    sent_messages_are_accounted_for(mode, ops);
    lemma_nothing_dropped(AdapterModel::init(mode), ops);
}

/// A run drops nothing if and only if none of its operations does.
proof fn lemma_nothing_dropped(s: AdapterModel, ops: Seq<Operation>)
    ensures
        dropped(s, ops) == 0 <==> forall|i: int|
            0 <= i < ops.len() ==> dropped_by(run(s, ops.take(i)), #[trigger] ops[i]) == 0,
    decreases ops.len(),
{
    if ops.len() > 0 {
        let init = ops.drop_last();
        let last = ops.len() - 1;
        lemma_nothing_dropped(s, init);
        assert(ops.take(last) =~= init);
        assert forall|i: int| 0 <= i < last implies ops.take(i) == #[trigger] init.take(i)
            && ops[i] == init[i] by {
            assert(ops.take(i) =~= init.take(i));
        }
        if dropped(s, ops) == 0 {
            assert forall|i: int| 0 <= i < ops.len() implies dropped_by(
                run(s, ops.take(i)),
                #[trigger] ops[i],
            ) == 0 by {
                if i < last {
                    assert(init.take(i) == ops.take(i));
                    assert(dropped_by(run(s, init.take(i)), init[i]) == 0);
                }
            }
        } else if forall|i: int|
            0 <= i < ops.len() ==> dropped_by(run(s, ops.take(i)), #[trigger] ops[i]) == 0 {
            assert(dropped_by(run(s, ops.take(last)), ops[last]) == 0);
            assert forall|i: int| 0 <= i < init.len() implies dropped_by(
                run(s, init.take(i)),
                #[trigger] init[i],
            ) == 0 by {
                assert(init.take(i) == ops.take(i));
                assert(dropped_by(run(s, ops.take(i)), ops[i]) == 0);
            }
        }
    }
}

/// Every channel on which messages wait is open, and there are no more than 256
/// channels to open.
pub proof fn open_channels_are_bounded(s: AdapterModel)
    ensures
        s.busy().subset_of(s.channels.dom()),
        s.channels.dom().finite(),
        s.busy().len() <= s.channels.dom().len() <= 256,
{
    let below: Set<u8> = Set::range(0u8, 255u8);
    let every = below.insert(255u8);
    vstd::set_lib::range_set_properties::<u8>(0, 255);
    assert(s.channels.dom().subset_of(every));
    vstd::set_lib::lemma_len_subset(s.channels.dom(), every);
    vstd::set_lib::lemma_len_subset(s.busy(), s.channels.dom());
}

/// While the limit stands, no operation takes a channel over it.
pub proof fn buffers_stay_within_limit(s: AdapterModel, op: Operation)
    requires
        within_limit(s),
        op !is SetMaxBuffer,
    ensures
        within_limit(step(s, op)),
{
    assert forall|ch: u8| (#[trigger] step(s, op).queue(ch)).len() <= step(s, op).max_buffer by {
        assert(s.queue(ch).len() <= s.max_buffer);
        if let Operation::Bridge { from, to } = op {
            assert(s.queue(from).len() <= s.max_buffer);
            assert(s.queue(to).len() <= s.max_buffer);
            crate::model::lemma_origin_split(s.queue(from));
        }
    }
}

/// An adapter whose buffers respect the limit does so after every run that does
/// not change the limit.
pub proof fn runs_stay_within_limit(s: AdapterModel, ops: Seq<Operation>)
    requires
        within_limit(s),
        forall|i: int| 0 <= i < ops.len() ==> #[trigger] ops[i] !is SetMaxBuffer,
    ensures
        within_limit(run(s, ops)),
        run(s, ops).max_buffer == s.max_buffer,
    decreases ops.len(),
{
    if ops.len() > 0 {
        let init = ops.drop_last();
        assert forall|i: int| 0 <= i < init.len() implies #[trigger] init[i] !is SetMaxBuffer by {
            assert(ops[i] !is SetMaxBuffer);
        }
        runs_stay_within_limit(s, init);
        assert(ops[ops.len() - 1] !is SetMaxBuffer);
        buffers_stay_within_limit(run(s, init), ops.last());
    }
}

/// A channel at its limit refuses: a message that is offered to it changes no
/// queue and no counter.
pub proof fn full_channels_refuse(s: AdapterModel, ch: u8, msg: MessageModel, other: u8)
    requires
        s.queue(ch).len() >= s.max_buffer,
    ensures
        s.send(ch, msg).queue(other) == s.queue(other),
        s.send_sim(ch, msg) == s.send(ch, msg),
        s.send(ch, msg) == (AdapterModel { channels: s.send(ch, msg).channels, ..s }),
{
}

/// Sending and receiving on one channel leaves every other channel alone.
pub proof fn channels_are_independent(s: AdapterModel, ch: u8, msg: MessageModel, other: u8)
    requires
        other != ch,
    ensures
        s.send(ch, msg).queue(other) == s.queue(other),
        s.send_sim(ch, msg).queue(other) == s.queue(other),
        s.recv(ch).queue(other) == s.queue(other),
{
}

/// A message sent on a channel where nothing waits is the next to be received
/// there, and receiving it leaves the channel empty again.
pub proof fn sent_is_received(s: AdapterModel, ch: u8, msg: MessageModel)
    requires
        s.queue(ch).len() == 0,
        s.has_room(ch),
    ensures
        s.send(ch, msg).front(ch) == Some(msg),
        s.send(ch, msg).recv(ch).queue(ch).len() == 0,
{
}

/// Bridging leaves every channel alone but the two that it is between.
pub proof fn bridge_leaves_other_channels(s: AdapterModel, from: u8, to: u8, other: u8)
    requires
        other != from,
        other != to,
    ensures
        s.bridge(from, to).queue(other) == s.queue(other),
{
}

/// Between two channels, bridging leaves exactly the live messages on the first,
/// in order, and puts the simulated ones behind what waits on the second, in
/// order, as far as there is room.
pub proof fn bridge_moves_the_simulated(s: AdapterModel, from: u8, to: u8)
    requires
        from != to,
    ensures
        s.bridge(from, to).queue(from) == s.live(from),
        s.bridge(from, to).queue(to) == s.queue(to) + s.simulated(from).take(
            s.bridgeable(from, to) as int,
        ),
        forall|i: int|
            0 <= i < s.live(from).len() ==> !(#[trigger] s.live(from)[i]).sim_origin,
        forall|i: int|
            0 <= i < s.simulated(from).len() ==> (#[trigger] s.simulated(from)[i]).sim_origin,
{
    broadcast use Seq::lemma_filter_pred;

    assert(s.bridge(from, to).queue(from) =~= s.live(from));
}

/// Bridging a channel to itself puts its simulated messages behind its live ones.
pub proof fn bridge_to_itself_reorders(s: AdapterModel, ch: u8)
    ensures
        s.bridge(ch, ch).queue(ch) == s.live(ch) + s.simulated(ch).take(
            s.bridgeable(ch, ch) as int,
        ),
        s.queue(ch).len() <= s.max_buffer ==> s.bridgeable(ch, ch) == s.simulated(ch).len(),
{
    crate::model::lemma_origin_split(s.queue(ch));
    assert(crate::model::queue_in(s.without_simulated(ch), ch) =~= s.live(ch));
}

/// Where the second channel has room for all of them, bridging loses nothing.
pub proof fn bridge_with_room_loses_nothing(s: AdapterModel, from: u8, to: u8)
    requires
        from != to,
        s.queue(to).len() + s.simulated(from).len() <= s.max_buffer,
    ensures
        s.bridge(from, to).queue(to) == s.queue(to) + s.simulated(from),
        s.bridge(from, to).total() == s.total(),
{
    bridge_moves_the_simulated(s, from, to);
    bridge_is_counted(s, from, to);
    assert(s.simulated(from).take(s.simulated(from).len() as int) =~= s.simulated(from));
}

/// Bridging between two channels leaves no simulated message behind: done
/// again, it takes none and changes nothing.
pub proof fn bridge_again_does_nothing(s: AdapterModel, from: u8, to: u8)
    requires
        from != to,
    ensures
        s.bridge(from, to).simulated(from).len() == 0,
        s.bridge(from, to).bridge(from, to) == s.bridge(from, to),
{
    let once = s.bridge(from, to);
    let twice = once.bridge(from, to);
    bridge_moves_the_simulated(s, from, to);
    lemma_none_simulated(s.live(from));
    lemma_all_live(s.live(from));
    crate::model::lemma_origin_split(once.queue(from));
    assert forall|ch: u8| twice.queue(ch) == once.queue(ch) by {
        bridge_without_simulated_does_nothing(once, from, to, ch);
    }
    assert(twice.channels.dom() =~= once.channels.dom());
    assert forall|ch: u8| once.channels.contains_key(ch) implies twice.channels[ch]
        == once.channels[ch] by {
        assert(twice.queue(ch) == once.queue(ch));
    }
    bridge_without_simulated_does_nothing(once, from, to, from);
    assert(twice.channels =~= once.channels);
}

/// Bridging takes no live message off any channel, adds none, and keeps their
/// order.
pub proof fn bridge_keeps_live_messages(s: AdapterModel, from: u8, to: u8, ch: u8)
    ensures
        s.bridge(from, to).live(ch) == s.live(ch),
{
    broadcast use Seq::lemma_filter_pred;

    let rest = crate::model::queue_in(s.without_simulated(from), ch);
    let moved = s.simulated(from).take(s.bridgeable(from, to) as int);
    let p = |m: MessageModel| !m.sim_origin;
    assert(crate::model::live_of(rest) =~= s.live(ch)) by {
        if ch == from {
            assert(rest =~= s.live(from));
            lemma_none_simulated(rest);
            lemma_all_live(rest);
        }
    }
    if ch == to {
        bridge_is_counted(s, from, to);
        assert forall|i: int| 0 <= i < moved.len() implies !p(#[trigger] moved[i]) by {
            assert(s.simulated(from)[i].sim_origin);
        }
        moved.lemma_all_neg_filter_empty(p);
        Seq::filter_distributes_over_add(rest, moved, p);
        assert(s.bridge(from, to).live(ch) =~= crate::model::live_of(rest));
    }
}

/// Bridging a channel that holds no simulated message changes no queue and
/// counts nothing.
pub proof fn bridge_without_simulated_does_nothing(s: AdapterModel, from: u8, to: u8, ch: u8)
    requires
        s.simulated(from).len() == 0,
    ensures
        s.bridge(from, to).queue(ch) == s.queue(ch),
        s.bridge(from, to).messages_bridged == s.messages_bridged,
{
    assert(s.live(from) =~= s.queue(from)) by {
        lemma_all_live(s.queue(from));
    }
    crate::model::lemma_origin_split(s.queue(from));
    assert(crate::model::queue_in(s.without_simulated(from), ch) =~= s.queue(ch));
    assert(s.bridge(from, to).queue(ch) =~= s.queue(ch));
}

/// No live message is simulated.
proof fn lemma_none_simulated(queue: Seq<MessageModel>)
    requires
        forall|i: int| 0 <= i < queue.len() ==> !(#[trigger] queue[i]).sim_origin,
    ensures
        crate::model::simulated_of(queue).len() == 0,
{
    let p = |m: MessageModel| m.sim_origin;
    assert forall|i: int| 0 <= i < queue.len() implies !p(#[trigger] queue[i]) by {}
    queue.lemma_all_neg_filter_empty(p);
}

/// A queue without simulated messages is all live.
proof fn lemma_all_live(queue: Seq<MessageModel>)
    requires
        crate::model::simulated_of(queue).len() == 0,
    ensures
        crate::model::live_of(queue) == queue,
    decreases queue.len(),
{
    if queue.len() > 0 {
        let init = queue.drop_last();
        assert(queue =~= init.push(queue.last()));
        crate::model::lemma_origin_push(init, queue.last());
        lemma_all_live(init);
    } else {
        reveal(Seq::filter);
    }
}

/// A live message never joins the messages that bridging moves; a simulated one
/// joins them as the last.
pub proof fn only_simulated_messages_are_bridged(s: AdapterModel, ch: u8, msg: MessageModel)
    requires
        s.has_room(ch),
    ensures
        !msg.sim_origin ==> s.send(ch, msg).simulated(ch) == s.simulated(ch),
        !msg.sim_origin ==> s.send(ch, msg).live(ch) == s.live(ch).push(msg),
        msg.sim_origin ==> s.send(ch, msg).simulated(ch) == s.simulated(ch).push(msg),
        msg.sim_origin ==> s.send(ch, msg).live(ch) == s.live(ch),
{
    crate::model::lemma_origin_push(s.queue(ch), msg);
}

/// The channel layer marks a message as simulated exactly outside live mode.
pub proof fn layer_marks_the_origin(s: AdapterModel, ch: u8, payload: Seq<u8>, timestamp: u64)
    ensures
        s.bridge_message(ch, payload, timestamp).sim_origin <==> s.mode != ChannelMode::Live,
        s.bridge_message(ch, payload, timestamp).channel.byte() == ch,
{
    byte_round_trip(ch);
}

/// In live mode, sending by number through the channel layer is sending to the
/// kind of that number, with `bridge` as the source.
pub proof fn live_layer_sends_like_typed(
    s: AdapterModel,
    kind: ChannelKind,
    payload: Seq<u8>,
    timestamp: u64,
)
    requires
        s.mode == ChannelMode::Live,
        kind.canonical(),
    ensures
        s.bridge_message(kind.byte(), payload, timestamp) == MessageModel::fresh(
            kind,
            "bridge"@,
            payload,
            timestamp,
        ),
{
    kind_round_trip(kind);
}

/// A channel number read as a kind gives the number back, and the kind does not
/// take the number of a named one.
pub proof fn byte_round_trip(b: u8)
    ensures
        ChannelKind::of_byte(b).byte() == b,
        ChannelKind::of_byte(b).canonical(),
{
}

/// The number of a kind is read back as the kind, unless it is a custom kind
/// with the number of a named one.
pub proof fn kind_round_trip(kind: ChannelKind)
    requires
        kind.canonical(),
    ensures
        ChannelKind::of_byte(kind.byte()) == kind,
{
}

/// Two kinds that stand for one channel are one kind, custom kinds with the
/// number of a named one left aside.
pub proof fn kinds_have_their_own_channels(a: ChannelKind, b: ChannelKind)
    requires
        a.canonical(),
        b.canonical(),
        a.byte() == b.byte(),
    ensures
        a == b,
{
}

/// A score that is brought into range denotes the nearest number of the range,
/// and zero where it was not a number.
pub proof fn clamped_scores_are_nearest(q: Score)
    ensures
        q.clamp().in_unit_range(),
        q.is_nan() ==> q.clamp().units() == 0,
        !q.is_nan() && q.units() <= 0 ==> q.clamp().units() == 0,
        !q.is_nan() && 0 <= q.units() <= Score::one_units() ==> q.clamp().units() == q.units(),
        !q.is_nan() && q.units() >= Score::one_units() ==> q.clamp().units()
            == Score::one_units(),
{
    crate::score::lemma_half_and_one();
    crate::score::lemma_units_ordered(0, q.magnitude());
    crate::score::lemma_units_ordered(0, crate::score::ONE_BITS as int);
}

/// A score in range stays as it is, so bringing a score into range twice is
/// bringing it there once.
pub proof fn scores_in_range_stay(q: Score)
    ensures
        q.in_unit_range() ==> q.clamp() == q,
        q.clamp().clamp() == q.clamp(),
{
    clamped_scores_are_nearest(q);
}

/// A message that nobody has rated has the quality one half.
pub proof fn unrated_quality_is_one_half(
    channel: ChannelKind,
    source: Seq<char>,
    payload: Seq<u8>,
    timestamp: u64,
)
    ensures
        ({
            let score = MessageModel::fresh(channel, source, payload, timestamp).quality_score;
            score.in_unit_range() && 2 * score.units() == Score::one_units()
        }),
{
    crate::score::lemma_half_and_one();
    crate::score::lemma_units_ordered(0, crate::score::HALF_BITS as int);
}

} // verus!
