use handcricket::errors::HandCricketMineError;
use handcricket::game::play_turn;
use handcricket::rng::generate_contract_choice;
use handcricket::state::{Address, GameAccount, PlayerStats, Tournament};
use handcricket::tournament::initialize_tournament;

fn addr(n: u128) -> Address {
    Address { lo: n, hi: 0 }
}

fn registered_stats(n: u128) -> PlayerStats {
    PlayerStats { player: addr(n), is_registered: true, best_score: 0, games_played: 0 }
}

fn idle_session(n: u128) -> GameAccount {
    GameAccount { player: addr(n), score: 0, is_active: false }
}

// Chain states whose drawn contract choice is known exactly:
// (slot 0, timestamp 0) draws 4; (slot 1, timestamp 2) draws 5;
// (slot 12345, timestamp 67890) draws 1.

#[test]
fn contract_choice_exact_values() {
    assert_eq!(generate_contract_choice(0, 0), 4);
    assert_eq!(generate_contract_choice(1, 2), 5);
    assert_eq!(generate_contract_choice(12345, 67890), 1);
}

#[test]
fn contract_choice_in_range() {
    for slot in 0..50u64 {
        let c = generate_contract_choice(slot, 3 * slot + 1);
        assert!((1..=6).contains(&c));
    }
}

#[test]
fn play_invalid_choice_fails_unchanged() {
    let t = initialize_tournament(addr(1), 0);
    for bad in [0u8, 7, 200] {
        let mut stats = registered_stats(2);
        stats.best_score = 17;
        let mut session = GameAccount { player: addr(2), score: 12, is_active: true };
        let r = play_turn(&t, &mut stats, &mut session, addr(2), bad, 0, 0);
        assert_eq!(r, Err(HandCricketMineError::InvalidChoice));
        assert_eq!(session.score, 12);
        assert!(session.is_active);
        assert_eq!(stats.best_score, 17);
        assert_eq!(stats.games_played, 0);
    }
}

#[test]
fn play_unregistered_fails() {
    let t = initialize_tournament(addr(1), 0);
    let mut stats = registered_stats(2);
    stats.is_registered = false;
    let mut session = idle_session(2);
    let r = play_turn(&t, &mut stats, &mut session, addr(2), 3, 0, 0);
    assert_eq!(r, Err(HandCricketMineError::PlayerNotRegistered));
    assert!(!session.is_active);
}

#[test]
fn play_inactive_tournament_fails() {
    let mut t = initialize_tournament(addr(1), 0);
    t.is_active = false;
    let mut stats = registered_stats(2);
    let mut session = idle_session(2);
    let r = play_turn(&t, &mut stats, &mut session, addr(2), 3, 0, 0);
    assert_eq!(r, Err(HandCricketMineError::TournamentNotActive));
    assert!(!session.is_active);
}

#[test]
fn nonterminal_turns_accumulate_score() {
    let t = initialize_tournament(addr(1), 0);
    let mut stats = registered_stats(2);
    let mut session = idle_session(2);
    // contract draws 5; playing 3 misses and accumulates
    let r = play_turn(&t, &mut stats, &mut session, addr(2), 3, 1, 2);
    assert_eq!(r, Ok(()));
    assert!(session.is_active);
    assert_eq!(session.score, 3);
    assert_eq!(session.player, addr(2));
    let r2 = play_turn(&t, &mut stats, &mut session, addr(2), 6, 1, 2);
    assert_eq!(r2, Ok(()));
    assert_eq!(session.score, 9);
    assert_eq!(stats.games_played, 0);
    assert_eq!(stats.best_score, 0);
}

#[test]
fn terminal_turn_completes_game() {
    let t = initialize_tournament(addr(1), 0);
    let mut stats = registered_stats(2);
    let mut session = idle_session(2);
    // accumulate 3 + 6 against a contract choice of 5
    assert_eq!(play_turn(&t, &mut stats, &mut session, addr(2), 3, 1, 2), Ok(()));
    assert_eq!(play_turn(&t, &mut stats, &mut session, addr(2), 6, 1, 2), Ok(()));
    // contract draws 4; playing 4 matches and ends the game
    let r = play_turn(&t, &mut stats, &mut session, addr(2), 4, 0, 0);
    assert_eq!(r, Ok(()));
    assert!(!session.is_active);
    assert_eq!(stats.games_played, 1);
    assert_eq!(stats.best_score, 9);
}

#[test]
fn best_score_never_decreases() {
    let t = initialize_tournament(addr(1), 0);
    let mut stats = registered_stats(2);
    let mut session = idle_session(2);
    // first game: score 6, then terminal
    assert_eq!(play_turn(&t, &mut stats, &mut session, addr(2), 6, 1, 2), Ok(()));
    assert_eq!(play_turn(&t, &mut stats, &mut session, addr(2), 4, 0, 0), Ok(()));
    assert_eq!(stats.best_score, 6);
    assert_eq!(stats.games_played, 1);
    // second game ends at once with score 0: the best score stays
    let r = play_turn(&t, &mut stats, &mut session, addr(2), 4, 0, 0);
    assert_eq!(r, Ok(()));
    assert!(!session.is_active);
    assert_eq!(stats.games_played, 2);
    assert_eq!(stats.best_score, 6);
}

#[test]
fn idle_session_is_rebound_to_caller() {
    let t = initialize_tournament(addr(1), 0);
    let mut stats = registered_stats(2);
    let mut session = GameAccount { player: addr(77), score: 55, is_active: false };
    // contract draws 1; playing 2 misses, so a fresh game starts at 2
    let r = play_turn(&t, &mut stats, &mut session, addr(2), 2, 12345, 67890);
    assert_eq!(r, Ok(()));
    assert_eq!(session.player, addr(2));
    assert_eq!(session.score, 2);
    assert!(session.is_active);
}
