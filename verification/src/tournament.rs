use vstd::prelude::*;

use crate::errors::HandCricketMineError;
use crate::state::{Address, PlayerStats, Tournament};
use crate::state::{DEFAULT_ENTRY_FEE, DEFAULT_MAX_PLAYERS, TOURNAMENT_DURATION_SLOTS};

verus! {

/// One executed transfer out of the tournament's custodied balance.
#[derive(Clone, Copy, PartialEq, Eq, Structural, Debug)]
pub struct Payout {
    pub to: Address,
    pub amount: u64,
}

/// Creates the root record for a new tournament, entirely idle and active,
/// with the fixed player limit and entry fee and an informational deadline
/// one horizon past the supplied ordinal tick.
pub fn initialize_tournament(admin: Address, current_slot: u64) -> (t: Tournament)
    requires
        current_slot + TOURNAMENT_DURATION_SLOTS <= u64::MAX,
    ensures
        t == (Tournament {
            admin,
            players_registered: 0,
            max_players: DEFAULT_MAX_PLAYERS,
            entry_fee: DEFAULT_ENTRY_FEE,
            total_pot: 0,
            is_active: true,
            tournament_end_time: (current_slot + TOURNAMENT_DURATION_SLOTS) as u64,
        }),
        t.wf(),
{
    Tournament {
        admin,
        players_registered: 0,
        max_players: DEFAULT_MAX_PLAYERS,
        entry_fee: DEFAULT_ENTRY_FEE,
        total_pot: 0,
        is_active: true,
        tournament_end_time: current_slot + TOURNAMENT_DURATION_SLOTS,
    }
}

/// What a registration attempt is refused with, if anything, before any
/// state is written.
pub open spec fn register_check(t: Tournament, stats: PlayerStats) -> Option<HandCricketMineError> {
    if !t.is_active {
        Some(HandCricketMineError::TournamentNotActive)
    } else if t.players_registered >= t.max_players {
        Some(HandCricketMineError::TournamentFull)
    } else if stats.is_registered {
        Some(HandCricketMineError::PlayerAlreadyRegistered)
    } else {
        None
    }
}

/// The tournament record after one successful registration.
pub open spec fn register_transition(t: Tournament) -> Tournament {
    Tournament {
        players_registered: (t.players_registered + 1) as u64,
        total_pot: (t.total_pot + t.entry_fee) as u64,
        ..t
    }
}

/// The registration record written for a player that just registered.
pub open spec fn fresh_stats(player: Address) -> PlayerStats {
    PlayerStats { player, is_registered: true, best_score: 0, games_played: 0 }
}

/// Registers a player: refuses an inactive or full tournament and a
/// duplicate registration with no state touched; otherwise moves exactly
/// the entry fee from the player's balance into custody and records the
/// registration.
pub fn register_player(
    tournament: &mut Tournament,
    player_stats: &mut PlayerStats,
    player: Address,
    player_balance: &mut u64,
    custody: &mut u64,
) -> (r: Result<(), HandCricketMineError>)
    requires
        old(tournament).wf(),
        register_check(*old(tournament), *old(player_stats)) is None ==> {
            &&& *old(player_balance) >= old(tournament).entry_fee
            &&& *old(custody) + old(tournament).entry_fee <= u64::MAX
        },
    ensures
        final(tournament).wf(),
        match register_check(*old(tournament), *old(player_stats)) {
            Some(e) => {
                &&& r is Err && r->Err_0 == e
                &&& *final(tournament) == *old(tournament)
                &&& *final(player_stats) == *old(player_stats)
                &&& *final(player_balance) == *old(player_balance)
                &&& *final(custody) == *old(custody)
            },
            None => {
                &&& r is Ok
                &&& *final(tournament) == register_transition(*old(tournament))
                &&& *final(player_stats) == fresh_stats(player)
                &&& *final(player_balance) == *old(player_balance) - old(tournament).entry_fee
                &&& *final(custody) == *old(custody) + old(tournament).entry_fee
            },
        },
{
    if !tournament.is_active {
        return Err(HandCricketMineError::TournamentNotActive);
    }
    if tournament.players_registered >= tournament.max_players {
        return Err(HandCricketMineError::TournamentFull);
    }
    if player_stats.is_registered {
        return Err(HandCricketMineError::PlayerAlreadyRegistered);
    }

    proof {
        lemma_pot_tracks_registrations(*tournament, *player_stats);
    }

    // Escrow collection: the fee moves before the records change; a failure
    // before this point has touched nothing.
    let fee = tournament.entry_fee;
    *player_balance = *player_balance - fee;
    *custody = *custody + fee;

    tournament.players_registered = tournament.players_registered + 1;
    tournament.total_pot = tournament.total_pot + fee;

    player_stats.player = player;
    player_stats.is_registered = true;
    player_stats.best_score = 0;
    player_stats.games_played = 0;

    Ok(())
}

/// Escrow accounting law: a registration that passes the checks keeps the
/// pot equal to the fees collected (`total_pot == players_registered *
/// entry_fee`) and keeps the record well formed; an attempt on a full,
/// active tournament is always refused with `TournamentFull`.
pub proof fn lemma_pot_tracks_registrations(t: Tournament, stats: PlayerStats)
    requires
        t.wf(),
    ensures
        register_check(t, stats) is None ==> t.total_pot + t.entry_fee <= u64::MAX,
        register_check(t, stats) is None ==> register_transition(t).wf(),
        register_check(t, stats) is None ==> register_transition(t).total_pot
            == register_transition(t).players_registered * register_transition(t).entry_fee,
        t.is_active && t.players_registered >= t.max_players ==> register_check(t, stats)
            == Some(HandCricketMineError::TournamentFull),
{
    if register_check(t, stats) is None {
        assert((t.players_registered + 1) * t.entry_fee == t.players_registered * t.entry_fee
            + t.entry_fee) by (nonlinear_arith);
        assert((t.players_registered + 1) * t.entry_fee <= t.max_players * t.entry_fee)
            by (nonlinear_arith)
            requires
                t.players_registered + 1 <= t.max_players,
                t.entry_fee >= 0;
        assert(t.max_players * t.entry_fee <= t.max_players * t.entry_fee * 100)
            by (nonlinear_arith)
            requires
                t.max_players >= 0,
                t.entry_fee >= 0;
    }
}

/// A duplicate registration is refused: after a successful registration,
/// a second attempt with the same records fails with
/// `PlayerAlreadyRegistered` as long as the tournament has room left
/// (a full tournament is refused with `TournamentFull` first).
pub proof fn lemma_register_twice_fails(t: Tournament, stats: PlayerStats, player: Address)
    requires
        register_check(t, stats) is None,
    ensures
        ({
            let t1 = register_transition(t);
            t1.players_registered < t1.max_players ==> register_check(t1, fresh_stats(player))
                == Some(HandCricketMineError::PlayerAlreadyRegistered)
        }),
{
}

/// What an attempt to end the tournament is refused with, if anything.
pub open spec fn end_check(t: Tournament, caller: Address) -> Option<HandCricketMineError> {
    if caller != t.admin {
        Some(HandCricketMineError::UnauthorizedAccess)
    } else if !t.is_active {
        Some(HandCricketMineError::TournamentAlreadyEnded)
    } else if t.players_registered == 0 {
        Some(HandCricketMineError::InsufficientPlayers)
    } else {
        None
    }
}

/// The tournament record after it has been ended: the terminal flag flips,
/// nothing else changes.
pub open spec fn end_transition(t: Tournament) -> Tournament {
    Tournament { is_active: false, ..t }
}

/// The fixed percentage weight paid to the recipient at each rank.
pub open spec fn payout_weight(i: int) -> int {
    if i == 0 {
        40
    } else if i == 1 {
        25
    } else if i == 2 {
        15
    } else {
        10
    }
}

/// The share owed to the recipient at rank `i` out of the reward pot.
pub open spec fn winner_share(reward_pot: int, i: int) -> int {
    reward_pot * payout_weight(i) / 100
}

/// The transfers executed for the first `n` recipients and the custodied
/// balance left afterwards. A share is skipped — not failed — when it is
/// zero or exceeds the balance still in custody.
pub open spec fn spec_distribute(
    reward_pot: int,
    recipients: Seq<Address>,
    n: int,
    custody: u64,
) -> (Seq<Payout>, u64)
    decreases n,
{
    if n <= 0 {
        (Seq::empty(), custody)
    } else {
        let prev = spec_distribute(reward_pot, recipients, n - 1, custody);
        let share = winner_share(reward_pot, n - 1);
        if share > 0 && share <= prev.1 {
            (
                prev.0.push(Payout { to: recipients[n - 1], amount: share as u64 }),
                (prev.1 - share) as u64,
            )
        } else {
            prev
        }
    }
}

/// The full distribution at tournament end: up to the first five recipients
/// are paid their weighted shares of the reward pot (80% of the total pot),
/// then the organizer is paid the residual, each transfer under the same
/// skip guard.
pub open spec fn spec_end_distribution(
    t: Tournament,
    recipients: Seq<Address>,
    custody: u64,
) -> (Seq<Payout>, u64) {
    let reward_pot = t.total_pot * 80 / 100;
    let k: int = if recipients.len() < 5 { recipients.len() as int } else { 5 };
    let winners = spec_distribute(reward_pot, recipients, k, custody);
    let admin_share = t.total_pot - reward_pot;
    if admin_share > 0 && admin_share <= winners.1 {
        (
            winners.0.push(Payout { to: t.admin, amount: admin_share as u64 }),
            (winners.1 - admin_share) as u64,
        )
    } else {
        winners
    }
}

/// The percentage weight paid to the recipient at each rank, as a value.
fn payout_weight_at(i: usize) -> (w: u64)
    ensures
        w == payout_weight(i as int),
        w <= 40,
{
    if i == 0 {
        40
    } else if i == 1 {
        25
    } else if i == 2 {
        15
    } else {
        10
    }
}

/// Ends the tournament and distributes custody. Only the organizer may
/// call it, only once, and only with at least one registered player; a
/// refused call touches nothing. On success the reward pot (80% of the
/// total pot) is split over up to the first five recipients by the fixed
/// weights, the residual goes to the organizer, every transfer skipped —
/// not failed — when its amount is zero or over the custodied balance, and
/// the tournament is terminally deactivated.
pub fn end_tournament(
    tournament: &mut Tournament,
    caller: Address,
    recipients: &Vec<Address>,
    custody: &mut u64,
) -> (r: Result<Vec<Payout>, HandCricketMineError>)
    requires
        old(tournament).wf(),
    ensures
        final(tournament).wf(),
        match end_check(*old(tournament), caller) {
            Some(e) => {
                &&& r is Err && r->Err_0 == e
                &&& *final(tournament) == *old(tournament)
                &&& *final(custody) == *old(custody)
            },
            None => {
                &&& r is Ok
                &&& r->Ok_0@ == spec_end_distribution(*old(tournament), recipients@, *old(custody)).0
                &&& *final(custody) == spec_end_distribution(*old(tournament), recipients@, *old(custody)).1
                &&& *final(tournament) == end_transition(*old(tournament))
            },
        },
{
    if !(caller == tournament.admin) {
        return Err(HandCricketMineError::UnauthorizedAccess);
    }
    if !tournament.is_active {
        return Err(HandCricketMineError::TournamentAlreadyEnded);
    }
    if tournament.players_registered == 0 {
        return Err(HandCricketMineError::InsufficientPlayers);
    }

    proof {
        lemma_pot_times_100_fits(*tournament);
    }

    let reward_pot = tournament.total_pot * 80 / 100;
    proof {
        assert(reward_pot * 100 <= tournament.total_pot * 100) by (nonlinear_arith)
            requires
                reward_pot == tournament.total_pot * 80 / 100,
                tournament.total_pot >= 0;
    }

    let mut payouts: Vec<Payout> = Vec::new();
    let mut cust: u64 = *custody;
    let ghost custody_start: u64 = *custody;
    let count: usize = if recipients.len() < 5 {
        recipients.len()
    } else {
        5
    };

    let mut i: usize = 0;
    while i < count
        invariant
            i <= count,
            count == (if recipients@.len() < 5 { recipients@.len() as int } else { 5 }),
            reward_pot == old(tournament).total_pot * 80 / 100,
            reward_pot * 100 <= u64::MAX,
            payouts@ == spec_distribute(reward_pot as int, recipients@, i as int, custody_start).0,
            cust == spec_distribute(reward_pot as int, recipients@, i as int, custody_start).1,
        decreases count - i,
    {
        let w = payout_weight_at(i);
        proof {
            assert(reward_pot * w <= reward_pot * 100) by (nonlinear_arith)
                requires
                    reward_pot >= 0,
                    0 <= w <= 100;
        }
        let share = reward_pot * w / 100;
        if share > 0 && share <= cust {
            cust = cust - share;
            payouts.push(Payout { to: recipients[i], amount: share });
        }
        i = i + 1;
    }

    let admin_share = tournament.total_pot - reward_pot;
    if admin_share > 0 && admin_share <= cust {
        cust = cust - admin_share;
        payouts.push(Payout { to: tournament.admin, amount: admin_share });
    }

    tournament.is_active = false;
    *custody = cust;
    Ok(payouts)
}

/// Bound behind every payout product: a well-formed pot times 100 stays in
/// `u64`, so does the reward pot.
pub proof fn lemma_pot_times_100_fits(t: Tournament)
    requires
        t.wf(),
    ensures
        t.total_pot * 100 <= u64::MAX,
        t.total_pot * 80 / 100 <= t.total_pot,
{
    assert(t.players_registered * t.entry_fee <= t.max_players * t.entry_fee)
        by (nonlinear_arith)
        requires
            t.players_registered <= t.max_players,
            t.entry_fee >= 0;
    assert(t.players_registered * t.entry_fee * 100 <= t.max_players * t.entry_fee * 100)
        by (nonlinear_arith)
        requires
            t.players_registered * t.entry_fee <= t.max_players * t.entry_fee;
    assert(t.total_pot * 80 / 100 <= t.total_pot) by (nonlinear_arith)
        requires
            t.total_pot >= 0;
}

/// Ending is terminal: after a successful end, every further attempt is
/// refused — with `TournamentAlreadyEnded` when the organizer retries.
pub proof fn lemma_end_tournament_terminal(t: Tournament, caller: Address)
    requires
        end_check(t, caller) is None,
    ensures
        end_check(end_transition(t), caller) == Some(HandCricketMineError::TournamentAlreadyEnded),
        forall|c: Address| end_check(end_transition(t), c) is Some,
{
}

} // verus!
