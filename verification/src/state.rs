use vstd::prelude::*;

verus! {

/// A ledger account address, held as two plain integer words (256 bits in
/// all). The protocol only ever compares addresses for equality.
#[derive(Clone, Copy, PartialEq, Eq, Structural, Debug)]
pub struct Address {
    pub lo: u128,
    pub hi: u128,
}

/// Player limit fixed at tournament creation.
pub const DEFAULT_MAX_PLAYERS: u64 = 100;

/// Entry fee in base currency units, fixed at tournament creation.
pub const DEFAULT_ENTRY_FEE: u64 = 100000000;

/// Informational deadline horizon, in ordinal ticks past creation time.
pub const TOURNAMENT_DURATION_SLOTS: u64 = 86400;

/// Root record for one tournament: configuration, running totals, and the
/// terminal active flag.
#[derive(Clone, Copy, PartialEq, Eq, Structural, Debug)]
pub struct Tournament {
    pub admin: Address,
    pub players_registered: u64,
    pub max_players: u64,
    pub entry_fee: u64,
    pub total_pot: u64,
    pub is_active: bool,
    pub tournament_end_time: u64,
}

impl Tournament {
    /// Escrow accounting is consistent and bounded: the registration count
    /// respects the limit, the pot is exactly the fees collected so far, and
    /// even the widest payout product stays within `u64`.
    pub open spec fn wf(self) -> bool {
        &&& self.players_registered <= self.max_players
        &&& self.total_pot == self.players_registered * self.entry_fee
        &&& self.max_players * self.entry_fee * 100 <= u64::MAX
    }
}

/// One registration record per (tournament, player) pair.
#[derive(Clone, Copy, PartialEq, Eq, Structural, Debug)]
pub struct PlayerStats {
    pub player: Address,
    pub is_registered: bool,
    pub best_score: u32,
    pub games_played: u32,
}

/// One game session per player: the in-progress score accumulator and the
/// in-progress flag.
#[derive(Clone, Copy, PartialEq, Eq, Structural, Debug)]
pub struct GameAccount {
    pub player: Address,
    pub score: u32,
    pub is_active: bool,
}

} // verus!
