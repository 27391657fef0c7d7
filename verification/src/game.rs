use vstd::prelude::*;

use crate::errors::HandCricketMineError;
use crate::rng::{generate_contract_choice, spec_contract_choice};
use crate::state::{Address, GameAccount, PlayerStats, Tournament};

verus! {

/// What a turn is refused with, if anything, before any state is written.
pub open spec fn play_check(t: Tournament, stats: PlayerStats, player_choice: u8) -> Option<
    HandCricketMineError,
> {
    if !t.is_active {
        Some(HandCricketMineError::TournamentNotActive)
    } else if !stats.is_registered {
        Some(HandCricketMineError::PlayerNotRegistered)
    } else if !(1 <= player_choice && player_choice <= 6) {
        Some(HandCricketMineError::InvalidChoice)
    } else {
        None
    }
}

/// The session a turn plays against: an idle session is reinitialized to a
/// fresh in-progress game bound to the caller; an in-progress one is kept.
pub open spec fn session_start(ga: GameAccount, player: Address) -> GameAccount {
    if ga.is_active {
        ga
    } else {
        GameAccount { player, score: 0, is_active: true }
    }
}

/// The registration record after one completed game with the given final
/// score: one more game played, and the best score raised to the final
/// score where that one is higher.
pub open spec fn completed_stats(stats: PlayerStats, final_score: u32) -> PlayerStats {
    PlayerStats {
        games_played: (stats.games_played + 1) as u32,
        best_score: if final_score > stats.best_score {
            final_score
        } else {
            stats.best_score
        },
        ..stats
    }
}

/// Plays one turn. A refused turn (inactive tournament, unregistered
/// player, choice outside 1..=6) touches nothing. Otherwise the session is
/// started if idle and the contract's move is drawn from the supplied
/// chain state: on a mismatch the choice is added to the running score and
/// the game goes on; on a match the game ends — the session goes idle,
/// the games-played counter rises by one, and the best score takes the
/// final score where that one is higher.
pub fn play_turn(
    tournament: &Tournament,
    player_stats: &mut PlayerStats,
    game_account: &mut GameAccount,
    player: Address,
    player_choice: u8,
    slot: u64,
    unix_timestamp: u64,
) -> (r: Result<(), HandCricketMineError>)
    requires
        old(game_account).is_active ==> old(game_account).score + 6 <= u32::MAX,
        old(player_stats).games_played < u32::MAX,
    ensures
        final(player_stats).best_score >= old(player_stats).best_score,
        match play_check(*tournament, *old(player_stats), player_choice) {
            Some(e) => {
                &&& r is Err && r->Err_0 == e
                &&& *final(player_stats) == *old(player_stats)
                &&& *final(game_account) == *old(game_account)
            },
            None => {
                let started = session_start(*old(game_account), player);
                let contract_choice = spec_contract_choice(slot, unix_timestamp);
                &&& r is Ok
                &&& (player_choice != contract_choice ==> {
                    &&& *final(game_account) == (GameAccount {
                        score: (started.score + player_choice) as u32,
                        ..started
                    })
                    &&& *final(player_stats) == *old(player_stats)
                })
                &&& (player_choice == contract_choice ==> {
                    &&& *final(game_account) == (GameAccount { is_active: false, ..started })
                    &&& *final(player_stats) == completed_stats(*old(player_stats), started.score)
                })
            },
        },
{
    if !tournament.is_active {
        return Err(HandCricketMineError::TournamentNotActive);
    }
    if !player_stats.is_registered {
        return Err(HandCricketMineError::PlayerNotRegistered);
    }
    if !(player_choice >= 1 && player_choice <= 6) {
        return Err(HandCricketMineError::InvalidChoice);
    }

    if !game_account.is_active {
        game_account.player = player;
        game_account.score = 0;
        game_account.is_active = true;
    }

    let contract_choice = generate_contract_choice(slot, unix_timestamp);

    if player_choice != contract_choice {
        game_account.score = game_account.score + player_choice as u32;
    } else {
        game_account.is_active = false;
        player_stats.games_played = player_stats.games_played + 1;
        if game_account.score > player_stats.best_score {
            player_stats.best_score = game_account.score;
        }
    }
    Ok(())
}

/// Completion law: a completed game raises the games-played counter by
/// exactly one and never lowers the best score, whatever the final score
/// was — so the best score is non-decreasing across any number of games.
pub proof fn lemma_best_score_monotone(stats: PlayerStats, final_score: u32)
    requires
        stats.games_played < u32::MAX,
    ensures
        completed_stats(stats, final_score).best_score >= stats.best_score,
        completed_stats(stats, final_score).games_played == stats.games_played + 1,
        final_score > stats.best_score ==> completed_stats(stats, final_score).best_score
            == final_score,
{
}

} // verus!
