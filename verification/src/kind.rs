//! The modes of an adapter and the kinds of channel it carries.
use vstd::prelude::*;

verus! {

/// How an adapter is connected.
#[derive(Debug, Clone, Copy, PartialEq, Eq, Structural)]
pub enum ChannelMode {
    /// Connected to the live production environment.
    Live,
    /// Running in simulation mode.
    Simulated,
    /// Bridging: simulation output feeds into live input.
    Bridging,
}

/// What a channel is for. Each kind stands for one channel number.
#[derive(Debug, Clone, Copy, PartialEq, Eq, Structural)]
pub enum ChannelKind {
    /// Fleet coordination channel.
    Fleet,
    /// Training data channel.
    Training,
    /// Event and notification channel.
    Event,
    /// Tile sharing channel.
    Tiles,
    /// Trust signal channel.
    Trust,
    /// Custom channel; the numbers 5 to 255 are reserved for these.
    Custom(u8),
}

impl ChannelKind {
    /// The channel number that the kind stands for.
    pub open spec fn byte(self) -> u8 {
        match self {
            ChannelKind::Fleet => 0,
            ChannelKind::Training => 1,
            ChannelKind::Event => 2,
            ChannelKind::Tiles => 3,
            ChannelKind::Trust => 4,
            ChannelKind::Custom(n) => n,
        }
    }

    /// The kind that a channel number stands for.
    pub open spec fn of_byte(b: u8) -> Self {
        if b == 0 {
            ChannelKind::Fleet
        } else if b == 1 {
            ChannelKind::Training
        } else if b == 2 {
            ChannelKind::Event
        } else if b == 3 {
            ChannelKind::Tiles
        } else if b == 4 {
            ChannelKind::Trust
        } else {
            ChannelKind::Custom(b)
        }
    }

    /// A custom kind in canonical form does not take the number of a named one.
    pub open spec fn canonical(self) -> bool {
        self matches ChannelKind::Custom(n) ==> n >= 5
    }

    /// The kind's name.
    pub open spec fn label(self) -> Seq<char> {
        match self {
            ChannelKind::Fleet => "fleet"@,
            ChannelKind::Training => "training"@,
            ChannelKind::Event => "event"@,
            ChannelKind::Tiles => "tiles"@,
            ChannelKind::Trust => "trust"@,
            ChannelKind::Custom(_) => "custom"@,
        }
    }

    /// Reads a channel number: 0 to 4 are the named kinds, the rest is custom.
    pub fn from_byte(b: u8) -> (kind: Self)
        ensures
            kind == Self::of_byte(b),
            kind is Fleet <==> b == 0,
            kind is Training <==> b == 1,
            kind is Event <==> b == 2,
            kind is Tiles <==> b == 3,
            kind is Trust <==> b == 4,
            b >= 5 ==> kind == ChannelKind::Custom(b),
    {
        match b {
            0 => ChannelKind::Fleet,
            1 => ChannelKind::Training,
            2 => ChannelKind::Event,
            3 => ChannelKind::Tiles,
            4 => ChannelKind::Trust,
            n => ChannelKind::Custom(n),
        }
    }

    /// The channel number of the kind.
    pub fn to_byte(self) -> (b: u8)
        ensures
            b == self.byte(),
            self is Fleet ==> b == 0,
            self is Training ==> b == 1,
            self is Event ==> b == 2,
            self is Tiles ==> b == 3,
            self is Trust ==> b == 4,
            self matches ChannelKind::Custom(n) ==> b == n,
    {
        match self {
            ChannelKind::Fleet => 0,
            ChannelKind::Training => 1,
            ChannelKind::Event => 2,
            ChannelKind::Tiles => 3,
            ChannelKind::Trust => 4,
            ChannelKind::Custom(n) => n,
        }
    }

    /// The name of the kind.
    pub fn name(&self) -> (name: &'static str)
        ensures
            name@ == self.label(),
            self is Fleet ==> name@ == "fleet"@,
            self is Training ==> name@ == "training"@,
            self is Event ==> name@ == "event"@,
            self is Tiles ==> name@ == "tiles"@,
            self is Trust ==> name@ == "trust"@,
            self is Custom ==> name@ == "custom"@,
    {
        match self {
            ChannelKind::Fleet => "fleet",
            ChannelKind::Training => "training",
            ChannelKind::Event => "event",
            ChannelKind::Tiles => "tiles",
            ChannelKind::Trust => "trust",
            ChannelKind::Custom(_) => "custom",
        }
    }
}

} // verus!
