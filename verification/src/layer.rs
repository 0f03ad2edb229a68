//! The channel layer that adapters offer to a protocol stack.
use vstd::prelude::*;

verus! {

/// Channel layer: bridging between simulated and live environments.
///
/// What becomes of a message is up to the layer. A layer whose state must allow
/// a call says so through `can_send` and `can_recv`, and through
/// `can_send_times` for calls to come; by default it asks for nothing.
pub trait ChannelLayer {
    /// The layer can be asked to send on the channel.
    open spec fn can_send(&self, channel: u8) -> bool {
        true
    }

    /// The layer can be asked to send so many times, on whatever channels.
    open spec fn can_send_times(&self, times: nat) -> bool {
        true
    }

    /// The layer can be asked to receive on the channel.
    open spec fn can_recv(&self, channel: u8) -> bool {
        true
    }

    /// Offers a message to a channel, and says whether it was taken. That leaves
    /// one send less to be asked for, and every receive.
    fn bridge_send(&mut self, channel: u8, msg: &[u8]) -> (sent: bool)
        requires
            old(self).can_send(channel) || exists|n: nat|
                n > 0 && #[trigger] old(self).can_send_times(n),
        ensures
            forall|n: nat|
                n > 0 && #[trigger] old(self).can_send_times(n) ==> final(self).can_send_times(
                    (n - 1) as nat,
                ),
            forall|c: u8| old(self).can_recv(c) ==> #[trigger] final(self).can_recv(c),
    ;

    /// Takes the next payload off a channel, if there is one. What could be asked
    /// for before still can.
    fn bridge_recv(&mut self, channel: u8) -> (payload: Option<Vec<u8>>)
        requires
            old(self).can_recv(channel),
        ensures
            forall|n: nat|
                #[trigger] old(self).can_send_times(n) ==> final(self).can_send_times(n),
            forall|c: u8| old(self).can_recv(c) ==> #[trigger] final(self).can_recv(c),
    ;

    /// Whether the layer is connected to the live environment.
    fn is_live(&self) -> (live: bool);
}

} // verus!
