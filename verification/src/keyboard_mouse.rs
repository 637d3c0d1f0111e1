//! The role a machine plays in keyboard/mouse sharing.
use vstd::prelude::*;

verus! {

/// Whether this machine shares its keyboard and mouse or receives them.
#[derive(Debug, Clone, Copy, PartialEq, Eq, Structural)]
pub enum KMControlMode {
    Master,
    Slave,
}

/// A machine's keyboard/mouse sharing settings: its role, the peer address and
/// the edge distance at which the pointer changes machine.
pub struct KeyboardMouse {
    mode: KMControlMode,
    addr: String,
    delta: i32,
}

/// Something that sends keyboard/mouse events to the peer.
pub trait KeyboardMouseCtrl {
    fn send(&self);
}

} // verus!
