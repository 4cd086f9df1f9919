//! A channel as one connection tracks it: its name and whether the JOIN for
//! it has been issued on the current socket.

use vstd::prelude::*;

verus! {

#[derive(Debug, Clone, Copy, PartialEq, Eq, Structural)]
pub enum ChannelState {
    NotConnected,
    Connecting,
    Connected,
    Invalid,
}

#[derive(Debug, Clone)]
pub struct Channel {
    pub name: String,
    pub state: ChannelState,
}

} // verus!
