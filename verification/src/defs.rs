//! Ids that the server assigns to those who take part in a game.

use vstd::prelude::*;

verus! {

/// A unique id assigned by the server to a client.
pub struct ClientId(u32);

/// A unique id assigned by the server to a player.
pub struct PlayerId(u32);

} // verus!
