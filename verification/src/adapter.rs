//! The channel adapter.
use std::collections::hash_map::Entry;
use std::collections::{HashMap, VecDeque};

use vstd::prelude::*;

use crate::clock::nanos_now;
use crate::kind::{ChannelKind, ChannelMode};
use crate::layer::ChannelLayer;
use crate::message::{ChannelMessage, MessageModel};
use crate::model::AdapterModel;

verus! {

/// Bridges simulated and live environments through typed channels.
#[derive(Debug)]
pub struct ChannelAdapter {
    mode: ChannelMode,
    channels: HashMap<u8, VecDeque<ChannelMessage>>,
    max_buffer: usize,
    messages_sent: u64,
    messages_received: u64,
    messages_bridged: u64,
}

/// A snapshot of an adapter's counters.
#[derive(Debug, Clone, Copy)]
pub struct ChannelStats {
    pub mode: ChannelMode,
    /// How many messages the channels have taken from senders.
    pub messages_sent: u64,
    /// How many messages were received.
    pub messages_received: u64,
    /// How many simulated messages were sent or moved to another channel.
    pub messages_bridged: u64,
    /// How many channels have a buffer, an empty one included.
    pub active_channels: usize,
    /// How many messages wait on all channels together.
    pub total_buffered: usize,
}

impl AdapterModel {
    /// The counters of the state.
    pub open spec fn snapshot(self) -> ChannelStats {
        ChannelStats {
            mode: self.mode,
            messages_sent: self.messages_sent as u64,
            messages_received: self.messages_received as u64,
            messages_bridged: self.messages_bridged as u64,
            active_channels: self.channels.dom().len() as usize,
            total_buffered: self.total() as usize,
        }
    }
}

/// The values of the messages of a buffer.
spec fn models(queue: Seq<ChannelMessage>) -> Seq<MessageModel> {
    queue.map_values(|m: ChannelMessage| m@)
}

/// The values of the messages of all buffers.
spec fn channel_models(channels: Map<u8, VecDeque<ChannelMessage>>) -> Map<u8, Seq<MessageModel>> {
    channels.map_values(|q: VecDeque<ChannelMessage>| models(q@))
}

impl View for ChannelAdapter {
    type V = AdapterModel;

    closed spec fn view(&self) -> AdapterModel {
        AdapterModel {
            mode: self.mode,
            channels: channel_models(self.channels@),
            max_buffer: self.max_buffer as nat,
            messages_sent: self.messages_sent as nat,
            messages_received: self.messages_received as nat,
            messages_bridged: self.messages_bridged as nat,
        }
    }
}

/// The model shows the fields of the adapter, and message by message what its
/// buffers hold.
proof fn lemma_model_shows_the_buffers(a: ChannelAdapter, ch: u8, i: int)
    ensures
        a@.mode == a.mode,
        a@.max_buffer == a.max_buffer,
        a@.messages_sent == a.messages_sent,
        a@.messages_received == a.messages_received,
        a@.messages_bridged == a.messages_bridged,
        a@.channels.contains_key(ch) <==> a.channels@.contains_key(ch),
        a.channels@.contains_key(ch) ==> {
            &&& a@.channels[ch].len() == a.channels@[ch]@.len()
            &&& 0 <= i < a.channels@[ch]@.len() ==> a@.channels[ch][i] == a.channels@[ch]@[i]@
        },
{
}

/// Parts a buffer into its simulated and its live messages, each in order.
fn part_by_origin(queue: VecDeque<ChannelMessage>) -> (parts: (
    VecDeque<ChannelMessage>,
    VecDeque<ChannelMessage>,
))
    ensures
        models(parts.0@) == crate::model::simulated_of(models(queue@)),
        models(parts.1@) == crate::model::live_of(models(queue@)),
{
    let mut rest = queue;
    let mut sim: VecDeque<ChannelMessage> = VecDeque::new();
    let mut live: VecDeque<ChannelMessage> = VecDeque::new();
    let ghost mut done: Seq<ChannelMessage> = Seq::empty();
    assert(models(sim@) =~= crate::model::simulated_of(models(done))) by {
        reveal(Seq::filter);
    }
    assert(models(live@) =~= crate::model::live_of(models(done))) by {
        reveal(Seq::filter);
    }
    while rest.len() > 0
        invariant
            done + rest@ == queue@,
            models(sim@) == crate::model::simulated_of(models(done)),
            models(live@) == crate::model::live_of(models(done)),
        decreases rest.len(),
    {
        if let Some(msg) = rest.pop_front() {
            proof {
                crate::model::lemma_origin_push(models(done), msg@);
                assert(models(done.push(msg)) =~= models(done).push(msg@));
                assert(models(sim@.push(msg)) =~= models(sim@).push(msg@));
                assert(models(live@.push(msg)) =~= models(live@).push(msg@));
                done = done.push(msg);
            }
            if msg.sim_origin {
                sim.push_back(msg);
            } else {
                live.push_back(msg);
            }
        }
    }
    assert(done =~= queue@);
    (sim, live)
}

/// Moves messages to the end of a buffer while it holds fewer than `cap`, and
/// says how many were moved; the others are dropped.
fn fill(
    target: &mut VecDeque<ChannelMessage>,
    incoming: VecDeque<ChannelMessage>,
    cap: usize,
) -> (moved: usize)
    ensures
        moved <= incoming@.len(),
        final(target)@ == old(target)@ + incoming@.take(moved as int),
        old(target)@.len() + incoming@.len() <= cap ==> moved == incoming@.len(),
        old(target)@.len() + incoming@.len() > cap && old(target)@.len() <= cap ==> moved == cap
            - old(target)@.len(),
        old(target)@.len() > cap ==> moved == 0,
{
    let mut rest = incoming;
    let mut moved: usize = 0;
    let ghost mut seen: nat = 0;
    while rest.len() > 0
        invariant
            seen + rest@.len() == incoming@.len(),
            rest@ == incoming@.skip(seen as int),
            moved <= seen,
            moved < seen ==> target@.len() >= cap,
            target@ == old(target)@ + incoming@.take(moved as int),
            old(target)@.len() <= cap ==> target@.len() <= cap,
            old(target)@.len() > cap ==> moved == 0,
        decreases rest.len(),
    {
        if let Some(msg) = rest.pop_front() {
            if target.len() < cap {
                target.push_back(msg);
                moved = moved + 1;
            }
            proof {
                seen = seen + 1;
            }
        }
    }
    moved
}

impl ChannelAdapter {
    /// A new adapter without messages, which buffers up to 256 messages per
    /// channel.
    pub fn new(mode: ChannelMode) -> (adapter: Self)
        ensures
            adapter@ == AdapterModel::init(mode),
            adapter@.mode == mode,
            adapter@.channels == Map::<u8, Seq<MessageModel>>::empty(),
            adapter@.max_buffer == 256,
            adapter@.wf(),
    {
        let adapter = ChannelAdapter {
            mode,
            channels: HashMap::new(),
            max_buffer: 256,
            messages_sent: 0,
            messages_received: 0,
            messages_bridged: 0,
        };
        proof {
            assert(adapter@.channels =~= Map::empty());
            crate::model::lemma_total_empty(256);
        }
        adapter
    }

    /// A new adapter in live mode.
    pub fn live() -> (adapter: Self)
        ensures
            adapter@ == AdapterModel::init(ChannelMode::Live),
            adapter@.wf(),
    {
        Self::new(ChannelMode::Live)
    }

    /// A new adapter in simulation mode.
    pub fn simulated() -> (adapter: Self)
        ensures
            adapter@ == AdapterModel::init(ChannelMode::Simulated),
            adapter@.wf(),
    {
        Self::new(ChannelMode::Simulated)
    }

    /// A new adapter in bridging mode.
    pub fn bridging() -> (adapter: Self)
        ensures
            adapter@ == AdapterModel::init(ChannelMode::Bridging),
            adapter@.wf(),
    {
        Self::new(ChannelMode::Bridging)
    }

    /// Sets how many messages a channel buffers at most.
    pub fn with_max_buffer(self, max: usize) -> (adapter: Self)
        ensures
            adapter@ == (AdapterModel { max_buffer: max as nat, ..self@ }),
            self@.wf() ==> adapter@.wf(),
    {
        let mut adapter = self;
        adapter.max_buffer = max;
        adapter
    }

    /// Offers a message to a channel, and says whether it was taken.
    fn enqueue(&mut self, ch: u8, msg: ChannelMessage) -> (sent: bool)
        requires
            old(self)@.wf(),
            old(self)@.can_count_send(ch),
        ensures
            sent == old(self)@.has_room(ch),
            final(self)@ == old(self)@.send(ch, msg@),
            final(self)@.wf(),
    {
        proof {
            crate::laws::send_is_counted(self@, ch, msg@);
        }
        let ghost before = self@;
        let buf = self.channels.entry(ch).or_insert(VecDeque::new());
        assert(models(buf@) =~= before.queue(ch));
        if buf.len() >= self.max_buffer {
            assert(self@.channels =~= before.send(ch, msg@).channels);
            return false;
        }
        assert(models(buf@.push(msg)) =~= before.queue(ch).push(msg@));
        buf.push_back(msg);
        self.messages_sent = self.messages_sent + 1;
        assert(self@.channels =~= before.send(ch, msg@).channels);
        true
    }

    /// Sends a live message to a channel, with the given timestamp, and says
    /// whether there was room for it.
    pub fn send_typed_at(
        &mut self,
        kind: ChannelKind,
        source: &str,
        payload: &[u8],
        timestamp: u64,
    ) -> (sent: bool)
        requires
            old(self)@.wf(),
            old(self)@.can_count_send(kind.byte()),
        ensures
            sent == old(self)@.has_room(kind.byte()),
            sent == (old(self)@.queue(kind.byte()).len() < old(self)@.max_buffer),
            old(self)@.queue(kind.byte()).is_prefix_of(final(self)@.queue(kind.byte())),
            sent ==> final(self)@.queue(kind.byte()).len() == old(self)@.queue(kind.byte()).len()
                + 1 && final(self)@.queue(kind.byte()).last().payload == payload@,
            final(self)@ == old(self)@.send(
                kind.byte(),
                MessageModel::fresh(kind, source@, payload@, timestamp),
            ),
            final(self)@.wf(),
    {
        let msg = ChannelMessage::new_at(kind, source, payload, timestamp);
        self.enqueue(kind.to_byte(), msg)
    }

    /// Sends a live message to a channel, and says whether there was room for
    /// it.
    pub fn send_typed(&mut self, kind: ChannelKind, source: &str, payload: &[u8]) -> (sent: bool)
        requires
            old(self)@.wf(),
            old(self)@.can_count_send(kind.byte()),
        ensures
            sent == old(self)@.has_room(kind.byte()),
            sent == (old(self)@.queue(kind.byte()).len() < old(self)@.max_buffer),
            old(self)@.queue(kind.byte()).is_prefix_of(final(self)@.queue(kind.byte())),
            sent ==> final(self)@.queue(kind.byte()).len() == old(self)@.queue(kind.byte()).len()
                + 1 && final(self)@.queue(kind.byte()).last().payload == payload@,
            exists|timestamp: u64|
                final(self)@ == old(self)@.send(
                    kind.byte(),
                    #[trigger] MessageModel::fresh(kind, source@, payload@, timestamp),
                ),
            final(self)@.wf(),
    {
        let timestamp = nanos_now();
        self.send_typed_at(kind, source, payload, timestamp)
    }

    /// Sends a simulated message to a channel, with the given timestamp, and
    /// says whether there was room for it.
    pub fn send_sim_at(
        &mut self,
        kind: ChannelKind,
        source: &str,
        payload: &[u8],
        timestamp: u64,
    ) -> (sent: bool)
        requires
            old(self)@.wf(),
            old(self)@.can_count_send(kind.byte()),
            old(self)@.has_room(kind.byte()) ==> old(self)@.messages_bridged < u64::MAX,
        ensures
            sent == old(self)@.has_room(kind.byte()),
            sent == (old(self)@.queue(kind.byte()).len() < old(self)@.max_buffer),
            old(self)@.queue(kind.byte()).is_prefix_of(final(self)@.queue(kind.byte())),
            sent ==> final(self)@.queue(kind.byte()).len() == old(self)@.queue(kind.byte()).len()
                + 1 && final(self)@.queue(kind.byte()).last().payload == payload@,
            final(self)@ == old(self)@.send_sim(
                kind.byte(),
                MessageModel::fresh(kind, source@, payload@, timestamp).with_origin(true),
            ),
            final(self)@.wf(),
    {
        let msg = ChannelMessage::from_sim_at(kind, source, payload, timestamp);
        let sent = self.enqueue(kind.to_byte(), msg);
        if sent {
            self.messages_bridged = self.messages_bridged + 1;
        }
        sent
    }

    /// Sends a simulated message to a channel, and says whether there was room
    /// for it.
    pub fn send_sim(&mut self, kind: ChannelKind, source: &str, payload: &[u8]) -> (sent: bool)
        requires
            old(self)@.wf(),
            old(self)@.can_count_send(kind.byte()),
            old(self)@.has_room(kind.byte()) ==> old(self)@.messages_bridged < u64::MAX,
        ensures
            sent == old(self)@.has_room(kind.byte()),
            sent == (old(self)@.queue(kind.byte()).len() < old(self)@.max_buffer),
            old(self)@.queue(kind.byte()).is_prefix_of(final(self)@.queue(kind.byte())),
            sent ==> final(self)@.queue(kind.byte()).len() == old(self)@.queue(kind.byte()).len()
                + 1 && final(self)@.queue(kind.byte()).last().payload == payload@,
            exists|timestamp: u64|
                final(self)@ == old(self)@.send_sim(
                    kind.byte(),
                    (#[trigger] MessageModel::fresh(
                        kind,
                        source@,
                        payload@,
                        timestamp,
                    )).with_origin(true),
                ),
            final(self)@.wf(),
    {
        let timestamp = nanos_now();
        self.send_sim_at(kind, source, payload, timestamp)
    }

    /// Takes the oldest message off a channel.
    fn dequeue(&mut self, ch: u8) -> (msg: Option<ChannelMessage>)
        requires
            old(self)@.wf(),
        ensures
            match msg {
                Some(m) => old(self)@.front(ch) == Some(m@),
                None => old(self)@.front(ch) is None,
            },
            final(self)@ == old(self)@.recv(ch),
            final(self)@.wf(),
    {
        proof {
            crate::laws::recv_is_counted(self@, ch);
        }
        let ghost before = self@;
        let msg = match self.channels.entry(ch) {
            Entry::Occupied(entry) => {
                let buf = entry.into_mut();
                assert(models(buf@) =~= before.queue(ch));
                let msg = buf.pop_front();
                assert(models(buf@) =~= before.recv(ch).queue(ch));
                msg
            },
            Entry::Vacant(_) => None,
        };
        assert(self@.channels =~= before.recv(ch).channels);
        if msg.is_some() {
            self.messages_received = self.messages_received + 1;
        }
        msg
    }

    /// Receives the oldest message of a channel and hands out its payload.
    pub fn recv(&mut self, kind: ChannelKind) -> (payload: Option<Vec<u8>>)
        requires
            old(self)@.wf(),
        ensures
            match payload {
                Some(p) => old(self)@.front(kind.byte()) matches Some(m) && m.payload == p@,
                None => old(self)@.front(kind.byte()) is None,
            },
            payload is Some <==> old(self)@.queue(kind.byte()).len() > 0,
            payload matches Some(p) ==> p@ == old(self)@.queue(kind.byte())[0].payload,
            final(self)@ == old(self)@.recv(kind.byte()),
            final(self)@.wf(),
    {
        match self.dequeue(kind.to_byte()) {
            Some(msg) => Some(msg.payload),
            None => None,
        }
    }

    /// Receives the oldest message of a channel.
    pub fn recv_full(&mut self, kind: ChannelKind) -> (msg: Option<ChannelMessage>)
        requires
            old(self)@.wf(),
        ensures
            match msg {
                Some(m) => old(self)@.front(kind.byte()) == Some(m@),
                None => old(self)@.front(kind.byte()) is None,
            },
            msg is Some <==> old(self)@.queue(kind.byte()).len() > 0,
            msg matches Some(p) ==> p@ == old(self)@.queue(kind.byte())[0],
            final(self)@ == old(self)@.recv(kind.byte()),
            final(self)@.wf(),
    {
        self.dequeue(kind.to_byte())
    }

    /// Takes all simulated messages off one channel and moves them, still marked
    /// as simulated, to the end of another, as far as there is room there; says
    /// how many were taken.
    pub fn bridge(&mut self, from: ChannelKind, to: ChannelKind) -> (count: usize)
        requires
            old(self)@.wf(),
            old(self)@.messages_bridged + old(self)@.bridgeable(from.byte(), to.byte())
                <= u64::MAX,
        ensures
            count == old(self)@.simulated(from.byte()).len(),
            final(self)@ == old(self)@.bridge(from.byte(), to.byte()),
            final(self)@.wf(),
    {
        let from_ch = from.to_byte();
        let to_ch = to.to_byte();
        proof {
            crate::laws::bridge_is_counted(self@, from_ch, to_ch);
        }
        let ghost before = self@;
        // Take all messages off the source channel.
        let all = match self.channels.remove(&from_ch) {
            Some(queue) => queue,
            None => VecDeque::new(),
        };
        assert(models(all@) =~= before.queue(from_ch));

        // Put the live ones back.
        let (sim, live) = part_by_origin(all);
        if live.len() > 0 {
            self.channels.insert(from_ch, live);
        }
        let ghost rest = before.without_simulated(from_ch);
        assert(self@.channels =~= rest);

        // Move the simulated ones to the target channel.
        let count = sim.len();
        let cap = self.max_buffer;
        let target = self.channels.entry(to_ch).or_insert(VecDeque::new());
        let ghost waiting = target@;
        assert(models(waiting) =~= crate::model::queue_in(rest, to_ch));
        let ghost offered = sim@;
        let moved = fill(target, sim, cap);
        assert(models(waiting + offered.take(moved as int)) =~= models(waiting) + models(
            offered,
        ).take(moved as int));
        self.messages_bridged = self.messages_bridged + moved as u64;
        assert(self@.channels =~= before.bridge(from_ch, to_ch).channels);
        count
    }

    /// How many messages wait on a channel.
    pub fn channel_size(&self, kind: ChannelKind) -> (size: usize)
        ensures
            size == self@.queue(kind.byte()).len(),
    {
        proof {
            lemma_model_shows_the_buffers(*self, kind.byte(), 0);
        }
        match self.channels.get(&kind.to_byte()) {
            Some(queue) => queue.len(),
            None => 0,
        }
    }

    /// How many messages wait on all channels together.
    pub fn total_buffered(&self) -> (total: usize)
        requires
            self@.wf(),
        ensures
            total == self@.total(),
    {
        let mut total: usize = 0;
        let ghost all = self@.channels;
        let ghost mut visited: Set<u8> = Set::empty();
        proof {
            assert(all.restrict(visited) =~= Map::empty());
            crate::model::lemma_total_empty(256);
        }
        for key in it: self.channels.keys()
            invariant
                all == channel_models(self.channels@),
                crate::model::total_below(all, 256) <= usize::MAX,
                it.seq().unref().to_set() == self.channels@.dom(),
                it.seq().no_duplicates(),
                forall|ch: u8| #[trigger]
                    visited.contains(ch) <==> exists|i: int|
                        0 <= i < it.index() && *(#[trigger] it.seq()[i]) == ch,
                total == crate::model::total_below(all.restrict(visited), 256),
        {
            let ghost now = visited.insert(*key);
            proof {
                assert(it.seq().unref()[it.index()] == *key);
                assert(it.seq().unref().to_set().contains(*key));
                assert(!visited.contains(*key));
                assert(all.restrict(now) =~= all.restrict(visited).insert(*key, all[*key]));
                crate::model::lemma_total_insert(all.restrict(visited), *key, all[*key], 256);
                crate::model::lemma_total_submap(all.restrict(now), all, 256);
                visited = now;
            }
            if let Some(queue) = self.channels.get(key) {
                total = total + queue.len();
            }
        }
        proof {
            assert forall|ch: u8| all.contains_key(ch) implies visited.contains(ch) by {
                assert(self.channels@.dom().contains(ch));
            }
            assert(all.restrict(visited) =~= all);
        }
        total
    }

    /// Switches the mode.
    pub fn set_mode(&mut self, mode: ChannelMode)
        ensures
            final(self)@ == (AdapterModel { mode, ..old(self)@ }),
            old(self)@.wf() ==> final(self)@.wf(),
    {
        self.mode = mode;
    }

    /// A snapshot of the counters.
    pub fn stats(&self) -> (stats: ChannelStats)
        requires
            self@.wf(),
        ensures
            stats == self@.snapshot(),
            stats.mode == self@.mode,
            stats.messages_sent == self@.messages_sent,
            stats.messages_received == self@.messages_received,
            stats.messages_bridged == self@.messages_bridged,
            stats.active_channels == self@.channels.dom().len(),
            stats.total_buffered == self@.total(),
            self@.busy().len() <= stats.active_channels <= 256,
    {
        proof {
            crate::laws::open_channels_are_bounded(self@);
        }
        assert(self@.channels.dom() =~= self.channels@.dom());
        ChannelStats {
            mode: self.mode,
            messages_sent: self.messages_sent,
            messages_received: self.messages_received,
            messages_bridged: self.messages_bridged,
            active_channels: self.channels.len(),
            total_buffered: self.total_buffered(),
        }
    }

    /// Offers a message to a channel by its number, with the given timestamp,
    /// and says whether there was room for it. Outside live mode the message
    /// counts as simulated.
    pub fn bridge_send_at(&mut self, channel: u8, msg: &[u8], timestamp: u64) -> (sent: bool)
        requires
            old(self)@.wf(),
            old(self)@.can_count_send(channel),
        ensures
            sent == old(self)@.has_room(channel),
            sent == (old(self)@.queue(channel).len() < old(self)@.max_buffer),
            old(self)@.queue(channel).is_prefix_of(final(self)@.queue(channel)),
            sent ==> final(self)@.queue(channel).len() == old(self)@.queue(channel).len() + 1
                && final(self)@.queue(channel).last().payload == msg@,
            final(self)@ == old(self)@.send(
                channel,
                old(self)@.bridge_message(channel, msg@, timestamp),
            ),
            final(self)@.wf(),
    {
        let mut ch_msg = ChannelMessage::new_at(
            ChannelKind::from_byte(channel),
            "bridge",
            msg,
            timestamp,
        );
        ch_msg.sim_origin = self.mode != ChannelMode::Live;
        self.enqueue(channel, ch_msg)
    }
}

impl ChannelLayer for ChannelAdapter {
    open spec fn can_send(&self, channel: u8) -> bool {
        self@.wf() && self@.can_count_send(channel)
    }

    open spec fn can_send_times(&self, times: nat) -> bool {
        &&& self@.wf()
        &&& self@.messages_sent + times <= u64::MAX
        &&& self@.total() + times <= usize::MAX
    }

    open spec fn can_recv(&self, channel: u8) -> bool {
        self@.wf()
    }

    /// Offers a message to a channel by its number. Outside live mode the
    /// message counts as simulated.
    fn bridge_send(&mut self, channel: u8, msg: &[u8]) -> (sent: bool)
        ensures
            sent == old(self)@.has_room(channel),
            sent == (old(self)@.queue(channel).len() < old(self)@.max_buffer),
            old(self)@.queue(channel).is_prefix_of(final(self)@.queue(channel)),
            sent ==> final(self)@.queue(channel).len() == old(self)@.queue(channel).len() + 1
                && final(self)@.queue(channel).last().payload == msg@,
            exists|timestamp: u64|
                final(self)@ == old(self)@.send(
                    channel,
                    #[trigger] old(self)@.bridge_message(channel, msg@, timestamp),
                ),
            final(self)@.wf(),
    {
        let timestamp = nanos_now();
        proof {
            crate::laws::send_is_counted(
                self@,
                channel,
                self@.bridge_message(channel, msg@, timestamp),
            );
        }
        self.bridge_send_at(channel, msg, timestamp)
    }

    /// Receives the oldest message of a channel by its number, and hands out its
    /// payload.
    fn bridge_recv(&mut self, channel: u8) -> (payload: Option<Vec<u8>>)
        ensures
            match payload {
                Some(p) => old(self)@.front(channel) matches Some(m) && m.payload == p@,
                None => old(self)@.front(channel) is None,
            },
            payload is Some <==> old(self)@.queue(channel).len() > 0,
            payload matches Some(p) ==> p@ == old(self)@.queue(channel)[0].payload,
            final(self)@ == old(self)@.recv(channel),
            final(self)@.wf(),
    {
        proof {
            crate::laws::recv_is_counted(self@, channel);
        }
        match self.dequeue(channel) {
            Some(msg) => Some(msg.payload),
            None => None,
        }
    }

    /// Whether the adapter is in live mode.
    fn is_live(&self) -> (live: bool)
        ensures
            live == (self@.mode == ChannelMode::Live),
    {
        self.mode == ChannelMode::Live
    }
}

impl Clone for ChannelAdapter {
    fn clone(&self) -> (adapter: Self)
        ensures
            adapter@ == self@,
    {
        ChannelAdapter {
            mode: self.mode,
            channels: self.channels.clone(),
            max_buffer: self.max_buffer,
            messages_sent: self.messages_sent,
            messages_received: self.messages_received,
            messages_bridged: self.messages_bridged,
        }
    }
}

} // verus!
