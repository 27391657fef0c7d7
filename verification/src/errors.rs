use vstd::prelude::*;

verus! {

/// Rejected-transaction outcomes. Every failing operation leaves all
/// records and balances untouched.
#[derive(Clone, Copy, PartialEq, Eq, Structural, Debug)]
pub enum HandCricketMineError {
    GameNotActive,
    InvalidChoice,
    TournamentNotActive,
    TournamentFull,
    PlayerAlreadyRegistered,
    PlayerNotRegistered,
    UnauthorizedAccess,
    TournamentAlreadyEnded,
    InsufficientPlayers,
}

} // verus!
