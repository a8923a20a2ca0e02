//! NutBlaster: the matchmaking and signalling rules of a lobby server.

use vstd::prelude::*;

pub mod assoc;
pub mod blaster;
pub mod clock;
pub mod copy;
pub mod frame;
pub mod id;
pub mod mailbox;
pub mod picking;
pub mod protocol;
pub mod proxy;
pub mod roster;
pub mod session;
pub mod table;
pub mod text;
pub mod tokens;

verus! {

/// How many players a lobby may hold.
pub const MAX_PLAYERS: usize = 16;

} // verus!
