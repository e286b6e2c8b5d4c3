//! Newtypes around Discord IDs for library cross-compatibility.
//!
//! Discord snowflake IDs are nonzero 64-bit values; each newtype keeps
//! that invariant behind its constructor.
use vstd::prelude::*;

verus! {

/// ID of a Discord voice/text channel.
#[derive(Clone, Copy, Debug, PartialEq, Eq, Hash, Structural)]
pub struct ChannelId(pub u64);

/// ID of a Discord guild (colloquially, "server").
#[derive(Clone, Copy, Debug, PartialEq, Eq, Hash, Structural)]
pub struct GuildId(pub u64);

/// ID of a Discord user.
#[derive(Clone, Copy, Debug, PartialEq, Eq, Hash, Structural)]
pub struct UserId(pub u64);

impl ChannelId {
    /// Creates a new ID from a nonzero u64.
    pub fn new(id_as_u64: u64) -> (r: Self)
        requires
            id_as_u64 != 0,
        ensures
            r.0 == id_as_u64,
    {
        Self(id_as_u64)
    }

    /// Retrieves the inner ID as u64.
    pub fn get(self) -> (r: u64)
        ensures
            r == self.0,
    {
        self.0
    }
}

impl GuildId {
    /// Creates a new ID from a nonzero u64.
    pub fn new(id_as_u64: u64) -> (r: Self)
        requires
            id_as_u64 != 0,
        ensures
            r.0 == id_as_u64,
    {
        Self(id_as_u64)
    }

    /// Retrieves the inner ID as u64.
    pub fn get(self) -> (r: u64)
        ensures
            r == self.0,
    {
        self.0
    }
}

impl UserId {
    /// Creates a new ID from a nonzero u64.
    pub fn new(id_as_u64: u64) -> (r: Self)
        requires
            id_as_u64 != 0,
        ensures
            r.0 == id_as_u64,
    {
        Self(id_as_u64)
    }

    /// Retrieves the inner ID as u64.
    pub fn get(self) -> (r: u64)
        ensures
            r == self.0,
    {
        self.0
    }
}

} // verus!
