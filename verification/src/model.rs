//! The mathematical model of an adapter: what its state is, and what each
//! operation does to it.
use vstd::prelude::*;

use crate::kind::{ChannelKind, ChannelMode};
use crate::message::MessageModel;

verus! {

/// The state of an adapter.
///
/// `channels` holds the channels that have a buffer, an empty one included; a
/// buffer lists its messages from the oldest to the newest.
#[verifier::ext_equal]
pub struct AdapterModel {
    pub mode: ChannelMode,
    pub channels: Map<u8, Seq<MessageModel>>,
    pub max_buffer: nat,
    pub messages_sent: nat,
    pub messages_received: nat,
    pub messages_bridged: nat,
}

impl AdapterModel {
    /// A new adapter: no buffers, nothing counted, 256 messages per channel.
    pub open spec fn init(mode: ChannelMode) -> Self {
        AdapterModel {
            mode,
            channels: Map::empty(),
            max_buffer: 256,
            messages_sent: 0,
            messages_received: 0,
            messages_bridged: 0,
        }
    }

    /// The messages that wait on a channel, from the oldest to the newest.
    pub open spec fn queue(self, ch: u8) -> Seq<MessageModel> {
        queue_in(self.channels, ch)
    }

    /// How many messages wait on all channels together.
    pub open spec fn total(self) -> nat {
        total_below(self.channels, 256)
    }

    /// The channels on which messages wait.
    pub open spec fn busy(self) -> Set<u8> {
        Set::new(|ch: u8| self.queue(ch).len() > 0)
    }

    /// Every message that waits or was received has been sent, and no more wait
    /// than a machine word can count.
    pub open spec fn wf(self) -> bool {
        &&& self.messages_received + self.total() <= self.messages_sent
        &&& self.total() <= usize::MAX
    }

    /// The channel can take one more message.
    pub open spec fn has_room(self, ch: u8) -> bool {
        self.queue(ch).len() < self.max_buffer
    }

    /// One more message on the channel can be counted: the counter of sent
    /// messages is not at its end, and neither is the memory for those that wait.
    pub open spec fn can_count_send(self, ch: u8) -> bool {
        self.has_room(ch) ==> self.messages_sent < u64::MAX && self.total() < usize::MAX
    }

    /// A message is offered to a channel: it joins the end of the buffer where
    /// there is room, and is refused where there is none. Either way the channel
    /// has a buffer afterwards.
    pub open spec fn send(self, ch: u8, msg: MessageModel) -> Self {
        if self.has_room(ch) {
            AdapterModel {
                channels: self.channels.insert(ch, self.queue(ch).push(msg)),
                messages_sent: self.messages_sent + 1,
                ..self
            }
        } else {
            AdapterModel { channels: self.channels.insert(ch, self.queue(ch)), ..self }
        }
    }

    /// A simulated message is offered to a channel: where it is taken, it counts
    /// as bridged too.
    pub open spec fn send_sim(self, ch: u8, msg: MessageModel) -> Self {
        if self.has_room(ch) {
            AdapterModel { messages_bridged: self.messages_bridged + 1, ..self.send(ch, msg) }
        } else {
            self.send(ch, msg)
        }
    }

    /// The message that the channel layer makes of a payload: it comes from
    /// `bridge`, and outside live mode it counts as simulated.
    pub open spec fn bridge_message(self, ch: u8, payload: Seq<u8>, timestamp: u64) -> MessageModel {
        MessageModel::fresh(
            ChannelKind::of_byte(ch),
            "bridge"@,
            payload,
            timestamp,
        ).with_origin(self.mode != ChannelMode::Live)
    }

    /// The message that is next to be received on a channel.
    pub open spec fn front(self, ch: u8) -> Option<MessageModel> {
        if self.queue(ch).len() > 0 {
            Some(self.queue(ch)[0])
        } else {
            None
        }
    }

    /// The oldest message of a channel is received; on a channel without
    /// messages nothing happens.
    pub open spec fn recv(self, ch: u8) -> Self {
        if self.queue(ch).len() > 0 {
            AdapterModel {
                channels: self.channels.insert(ch, self.queue(ch).drop_first()),
                messages_received: self.messages_received + 1,
                ..self
            }
        } else {
            self
        }
    }

    /// The simulated messages of a channel, in order.
    pub open spec fn simulated(self, ch: u8) -> Seq<MessageModel> {
        simulated_of(self.queue(ch))
    }

    /// The live messages of a channel, in order.
    pub open spec fn live(self, ch: u8) -> Seq<MessageModel> {
        live_of(self.queue(ch))
    }

    /// The buffers after the simulated messages were taken off a channel: a
    /// channel that has no message left loses its buffer.
    pub open spec fn without_simulated(self, from: u8) -> Map<u8, Seq<MessageModel>> {
        if self.live(from).len() > 0 {
            self.channels.insert(from, self.live(from))
        } else {
            self.channels.remove(from)
        }
    }

    /// How many of the simulated messages of `from` find room on `to`.
    pub open spec fn bridgeable(self, from: u8, to: u8) -> nat {
        let waiting = queue_in(self.without_simulated(from), to).len();
        let offered = self.simulated(from).len();
        if waiting + offered <= self.max_buffer {
            offered
        } else if waiting <= self.max_buffer {
            (self.max_buffer - waiting) as nat
        } else {
            0
        }
    }

    /// How many of the simulated messages of `from` find no room on `to`.
    pub open spec fn unbridgeable(self, from: u8, to: u8) -> nat {
        (self.simulated(from).len() - self.bridgeable(from, to)) as nat
    }

    /// The simulated messages of `from` move to the end of `to`, the oldest
    /// first, as far as there is room; the others are dropped.
    pub open spec fn bridge(self, from: u8, to: u8) -> Self {
        let rest = self.without_simulated(from);
        let moved = self.bridgeable(from, to);
        AdapterModel {
            channels: rest.insert(
                to,
                queue_in(rest, to) + self.simulated(from).take(moved as int),
            ),
            messages_bridged: self.messages_bridged + moved,
            ..self
        }
    }
}

/// The messages of a channel; a channel without a buffer has none.
pub open spec fn queue_in(channels: Map<u8, Seq<MessageModel>>, ch: u8) -> Seq<MessageModel> {
    if channels.contains_key(ch) {
        channels[ch]
    } else {
        Seq::empty()
    }
}

/// The simulated messages of a queue, in order.
pub open spec fn simulated_of(queue: Seq<MessageModel>) -> Seq<MessageModel> {
    queue.filter(|m: MessageModel| m.sim_origin)
}

/// The live messages of a queue, in order.
pub open spec fn live_of(queue: Seq<MessageModel>) -> Seq<MessageModel> {
    queue.filter(|m: MessageModel| !m.sim_origin)
}

/// How many messages the channels with a number below `n` hold together.
pub open spec fn total_below(channels: Map<u8, Seq<MessageModel>>, n: int) -> nat
    decreases n,
{
    if n <= 0 {
        0
    } else {
        total_below(channels, n - 1) + queue_in(channels, (n - 1) as u8).len()
    }
}

/// Giving one channel another buffer changes the total by the difference.
pub(crate) proof fn lemma_total_insert(
    channels: Map<u8, Seq<MessageModel>>,
    ch: u8,
    queue: Seq<MessageModel>,
    n: int,
)
    requires
        n <= 256,
    ensures
        ch < n ==> total_below(channels.insert(ch, queue), n) + queue_in(channels, ch).len()
            == total_below(channels, n) + queue.len(),
        ch >= n ==> total_below(channels.insert(ch, queue), n) == total_below(channels, n),
    decreases n,
{
    if n > 0 {
        lemma_total_insert(channels, ch, queue, n - 1);
    }
}

/// Taking the buffer of one channel away takes its messages off the total.
pub(crate) proof fn lemma_total_remove(channels: Map<u8, Seq<MessageModel>>, ch: u8, n: int)
    requires
        n <= 256,
    ensures
        ch < n ==> total_below(channels.remove(ch), n) + queue_in(channels, ch).len()
            == total_below(channels, n),
        ch >= n ==> total_below(channels.remove(ch), n) == total_below(channels, n),
    decreases n,
{
    if n > 0 {
        lemma_total_remove(channels, ch, n - 1);
    }
}

/// Without buffers nothing waits.
pub(crate) proof fn lemma_total_empty(n: int)
    ensures
        total_below(Map::empty(), n) == 0,
    decreases n,
{
    if n > 0 {
        lemma_total_empty(n - 1);
    }
}

/// Some of the buffers hold no more than all of them.
pub(crate) proof fn lemma_total_submap(
    part: Map<u8, Seq<MessageModel>>,
    whole: Map<u8, Seq<MessageModel>>,
    n: int,
)
    requires
        part.submap_of(whole),
    ensures
        total_below(part, n) <= total_below(whole, n),
    decreases n,
{
    if n > 0 {
        lemma_total_submap(part, whole, n - 1);
        assert(part.contains_key((n - 1) as u8) ==> whole.contains_key((n - 1) as u8));
    }
}

/// A channel holds no more than all channels together.
pub(crate) proof fn lemma_queue_within_total(channels: Map<u8, Seq<MessageModel>>, ch: u8, n: int)
    requires
        ch < n <= 256,
    ensures
        queue_in(channels, ch).len() <= total_below(channels, n),
    decreases n,
{
    if ch < n - 1 {
        lemma_queue_within_total(channels, ch, n - 1);
    }
}

/// A message that joins a queue joins the messages of its own origin.
pub(crate) proof fn lemma_origin_push(queue: Seq<MessageModel>, msg: MessageModel)
    ensures
        simulated_of(queue.push(msg)) == (if msg.sim_origin {
            simulated_of(queue).push(msg)
        } else {
            simulated_of(queue)
        }),
        live_of(queue.push(msg)) == (if msg.sim_origin {
            live_of(queue)
        } else {
            live_of(queue).push(msg)
        }),
{
    reveal(Seq::filter);
    assert(queue.push(msg).drop_last() =~= queue);
}

/// The simulated and the live messages make up the queue.
pub(crate) proof fn lemma_origin_split(queue: Seq<MessageModel>)
    ensures
        simulated_of(queue).len() + live_of(queue).len() == queue.len(),
    decreases queue.len(),
{
    reveal(Seq::filter);
    if queue.len() > 0 {
        lemma_origin_split(queue.drop_last());
    }
}

} // verus!
