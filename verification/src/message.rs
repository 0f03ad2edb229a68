//! Messages and their mathematical model.
use vstd::prelude::*;

use crate::clock::nanos_now;
use crate::kind::ChannelKind;
use crate::score::{Score, HALF_BITS};

verus! {

/// A message on a channel.
#[derive(Debug)]
pub struct ChannelMessage {
    /// The bytes that the message carries.
    pub payload: Vec<u8>,
    /// The channel that the message was sent on.
    pub channel: ChannelKind,
    /// The agent or system that sent the message.
    pub source: String,
    /// When the message was made, in nanoseconds since the Unix epoch.
    pub timestamp: u64,
    /// Whether the message came from a simulation.
    pub sim_origin: bool,
    /// How good the data is.
    pub quality_score: Score,
}

/// The value of a message: the same fields, with the payload and the source as
/// sequences.
#[verifier::ext_equal]
pub struct MessageModel {
    pub payload: Seq<u8>,
    pub channel: ChannelKind,
    pub source: Seq<char>,
    pub timestamp: u64,
    pub sim_origin: bool,
    pub quality_score: Score,
}

impl MessageModel {
    /// A new message that did not come from a simulation and that nobody has
    /// rated: its quality is one half.
    pub open spec fn fresh(
        channel: ChannelKind,
        source: Seq<char>,
        payload: Seq<u8>,
        timestamp: u64,
    ) -> Self {
        MessageModel {
            payload,
            channel,
            source,
            timestamp,
            sim_origin: false,
            quality_score: Score { bits: HALF_BITS },
        }
    }

    /// The same message with its origin set.
    pub open spec fn with_origin(self, sim_origin: bool) -> Self {
        MessageModel { sim_origin, ..self }
    }
}

impl View for ChannelMessage {
    type V = MessageModel;

    open spec fn view(&self) -> MessageModel {
        MessageModel {
            payload: self.payload@,
            channel: self.channel,
            source: self.source@,
            timestamp: self.timestamp,
            sim_origin: self.sim_origin,
            quality_score: self.quality_score,
        }
    }
}

impl ChannelMessage {
    /// A new message with the given timestamp.
    pub fn new_at(channel: ChannelKind, source: &str, payload: &[u8], timestamp: u64) -> (msg: Self)
        ensures
            msg@ == MessageModel::fresh(channel, source@, payload@, timestamp),
            msg.payload@ == payload@,
            msg.channel == channel,
            msg.source@ == source@,
            msg.timestamp == timestamp,
            msg.sim_origin == false,
            msg.quality_score.bits == 0x3f00_0000,
    {
        ChannelMessage {
            payload: vstd::slice::slice_to_vec(payload),
            channel,
            source: source.to_owned(),
            timestamp,
            sim_origin: false,
            quality_score: Score { bits: HALF_BITS },
        }
    }

    /// A new message, made now.
    pub fn new(channel: ChannelKind, source: &str, payload: &[u8]) -> (msg: Self)
        ensures
            msg@ == MessageModel::fresh(channel, source@, payload@, msg.timestamp),
            msg.payload@ == payload@,
            msg.channel == channel,
            msg.source@ == source@,
            msg.sim_origin == false,
            msg.quality_score.bits == 0x3f00_0000,
    {
        let timestamp = nanos_now();
        Self::new_at(channel, source, payload, timestamp)
    }

    /// A new message out of a simulation, with the given timestamp.
    pub fn from_sim_at(
        channel: ChannelKind,
        source: &str,
        payload: &[u8],
        timestamp: u64,
    ) -> (msg: Self)
        ensures
            msg@ == MessageModel::fresh(channel, source@, payload@, timestamp).with_origin(true),
            msg.payload@ == payload@,
            msg.channel == channel,
            msg.source@ == source@,
            msg.timestamp == timestamp,
            msg.sim_origin == true,
            msg.quality_score.bits == 0x3f00_0000,
    {
        let mut msg = Self::new_at(channel, source, payload, timestamp);
        msg.sim_origin = true;
        msg
    }

    /// A new message out of a simulation, made now.
    pub fn from_sim(channel: ChannelKind, source: &str, payload: &[u8]) -> (msg: Self)
        ensures
            msg@ == MessageModel::fresh(
                channel,
                source@,
                payload@,
                msg.timestamp,
            ).with_origin(true),
            msg.payload@ == payload@,
            msg.channel == channel,
            msg.source@ == source@,
            msg.sim_origin == true,
            msg.quality_score.bits == 0x3f00_0000,
    {
        let timestamp = nanos_now();
        Self::from_sim_at(channel, source, payload, timestamp)
    }

    /// Rates the message; the score is brought into the range from zero to one.
    pub fn with_quality(self, q: Score) -> (msg: Self)
        ensures
            msg@ == (MessageModel { quality_score: q.clamp(), ..self@ }),
            msg.quality_score.in_unit_range(),
            msg.payload@ == self.payload@,
            msg.channel == self.channel,
            msg.source@ == self.source@,
            msg.timestamp == self.timestamp,
            msg.sim_origin == self.sim_origin,
            q.bits <= 0x3f80_0000 ==> msg.quality_score.bits == q.bits,
            0x3f80_0000 < q.bits <= 0x7f80_0000 ==> msg.quality_score.bits == 0x3f80_0000,
            q.bits > 0x7f80_0000 ==> msg.quality_score.bits == 0,
    {
        let mut msg = self;
        proof {
            crate::meaning::scores_are_clamped_by_their_bits(q);
        }
        msg.quality_score = q.clamped();
        msg
    }
}

impl Clone for ChannelMessage {
    fn clone(&self) -> (msg: Self)
        ensures
            msg@ == self@,
            msg.payload@ == self.payload@,
            msg.channel == self.channel,
            msg.source@ == self.source@,
            msg.timestamp == self.timestamp,
            msg.sim_origin == self.sim_origin,
            msg.quality_score == self.quality_score,
    {
        ChannelMessage {
            payload: self.payload.clone(),
            channel: self.channel,
            source: self.source.clone(),
            timestamp: self.timestamp,
            sim_origin: self.sim_origin,
            quality_score: self.quality_score,
        }
    }
}

} // verus!
