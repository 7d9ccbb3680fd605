use matchmaking::matcher::{find_best_match, find_best_server, score_matchup};
use matchmaking::matchmaker::{JoinError, Matchmaker, ResolveOutcome};
use matchmaking::model::{Match, MatchConfig, PlayerInfo, ServerInfo, ServerState};
use matchmaking::pool::{AlreadyQueued, Pool, ServerError};

fn player(id: u64, elo: u64, enqueued_at: u64) -> PlayerInfo {
    PlayerInfo { id, elo, enqueued_at }
}

fn server(id: u64, max_players: u64, current_players: u64, state: ServerState) -> ServerInfo {
    ServerInfo { id, max_players, current_players, state }
}

fn config(threshold: i64, rate: u64, max_bonus: u64) -> MatchConfig {
    MatchConfig { acceptance_threshold: threshold, wait_bonus_rate: rate, max_wait_bonus: max_bonus }
}

#[test]
fn scenario_closest_rating_is_chosen() {
    let cfg = config(100, 0, 1000);
    let first = player(1, 1000, 0);
    let near = player(2, 1050, 0);
    let far = player(3, 1400, 0);
    let m = find_best_match(&cfg, &first, &vec![near, far], 0).unwrap();
    assert_eq!(m.opponent, near);
    assert_eq!(m.score, 50);
    assert_eq!(score_matchup(&cfg, &first, &far, 0), 400);

    let mut mm = Matchmaker::new(cfg);
    mm.add_server(server(7, 2, 0, ServerState::Normal)).unwrap();
    let h1 = mm.add_player_to_pool(first).unwrap();
    let _h2 = mm.add_player_to_pool(near).unwrap();
    let h3 = mm.add_player_to_pool(far).unwrap();
    let outcome = mm.try_resolve(&h1, 0);
    assert_eq!(outcome, ResolveOutcome::Matched(Match { player: 1, opponent: 2, server: 7 }));
    let servers = mm.find_best_server_for_match(&m);
    assert_eq!(servers, None);
    assert_eq!(mm.try_resolve(&h3, 0), ResolveOutcome::NoMatch);
    assert!(!mm.release(h1));
    assert!(mm.release(h3));
}

#[test]
fn scenario_commit_fills_server() {
    let mut mm = Matchmaker::new(config(100, 0, 1000));
    mm.add_server(server(7, 2, 0, ServerState::Normal)).unwrap();
    let h1 = mm.add_player_to_pool(player(1, 1000, 0)).unwrap();
    mm.add_player_to_pool(player(2, 1050, 0)).unwrap();
    mm.add_player_to_pool(player(3, 1400, 0)).unwrap();
    assert!(matches!(mm.try_resolve(&h1, 0), ResolveOutcome::Matched(_)));
    assert_eq!(mm.servers(), vec![server(7, 2, 2, ServerState::Normal)]);
    assert_eq!(mm.players(), vec![player(3, 1400, 0)]);
}

#[test]
fn scenario_wait_bonus_makes_outlier_acceptable() {
    let cfg = config(100, 10, 1000);
    let first = player(1, 1000, 0);
    let far = player(3, 1400, 0);
    assert_eq!(score_matchup(&cfg, &first, &far, 40), 0);
    let m = find_best_match(&cfg, &first, &vec![far], 40).unwrap();
    assert_eq!(m.opponent, far);
    assert_eq!(m.score, 0);
    assert_eq!(find_best_match(&cfg, &first, &vec![far], 0), None);
}

#[test]
fn score_decreases_with_wait_up_to_the_cap() {
    let cfg = config(100, 10, 250);
    let a = player(1, 1000, 5);
    let b = player(2, 1300, 10);
    let mut last = score_matchup(&cfg, &a, &b, 0);
    assert_eq!(last, 300);
    for now in 1..100u64 {
        let s = score_matchup(&cfg, &a, &b, now);
        assert!(s <= last);
        last = s;
    }
    assert_eq!(score_matchup(&cfg, &a, &b, 15), 200);
    assert_eq!(score_matchup(&cfg, &a, &b, 30), 50);
    assert_eq!(score_matchup(&cfg, &a, &b, 99), 50);
    assert_eq!(score_matchup(&cfg, &a, &b, 3), 300);
}

#[test]
fn score_handles_extreme_values() {
    let cfg = config(0, u64::MAX, u64::MAX);
    let a = player(1, 0, 0);
    let b = player(2, u64::MAX, 0);
    assert_eq!(score_matchup(&cfg, &a, &b, 0), u64::MAX as i128);
    assert_eq!(score_matchup(&cfg, &a, &b, u64::MAX), 0);
}

#[test]
fn ties_break_by_enqueue_time_then_id() {
    let cfg = config(100, 0, 0);
    let s = player(1, 1000, 0);
    let late = player(9, 1010, 5);
    let early = player(8, 990, 2);
    let m = find_best_match(&cfg, &s, &vec![late, early], 10).unwrap();
    assert_eq!(m.opponent, early);
    let twin_a = player(4, 1010, 2);
    let m = find_best_match(&cfg, &s, &vec![early, twin_a], 10).unwrap();
    assert_eq!(m.opponent, twin_a);
    let m2 = find_best_match(&cfg, &s, &vec![twin_a, early], 10).unwrap();
    assert_eq!(m, m2);
}

#[test]
fn subject_is_not_its_own_opponent() {
    let cfg = config(100, 0, 0);
    let s = player(1, 1000, 0);
    assert_eq!(find_best_match(&cfg, &s, &vec![s], 0), None);
    assert_eq!(find_best_match(&cfg, &s, &vec![], 0), None);
}

#[test]
fn fullest_server_with_room_wins() {
    let servers = vec![
        server(1, 10, 2, ServerState::Normal),
        server(2, 4, 2, ServerState::Normal),
        server(3, 10, 9, ServerState::Normal),
        server(4, 10, 8, ServerState::Draining),
        server(5, 10, 5, ServerState::Startup),
    ];
    assert_eq!(find_best_server(&servers).unwrap().id, 2);
    let tied = vec![server(6, 8, 4, ServerState::Normal), server(3, 4, 2, ServerState::Normal)];
    assert_eq!(find_best_server(&tied).unwrap().id, 3);
    let none = vec![server(1, 2, 1, ServerState::Normal), server(2, 4, 0, ServerState::Draining)];
    assert_eq!(find_best_server(&none), None);
    assert_eq!(find_best_server(&vec![]), None);
}

#[test]
fn accepting_players_needs_normal_state_and_room() {
    assert!(server(1, 2, 1, ServerState::Normal).accepting_players());
    assert!(!server(1, 2, 2, ServerState::Normal).accepting_players());
    assert!(!server(1, 2, 0, ServerState::Draining).accepting_players());
    assert!(!server(1, 2, 0, ServerState::Startup).accepting_players());
}

#[test]
fn match_without_capacity_keeps_both_queued() {
    let mut mm = Matchmaker::new(config(100, 0, 0));
    mm.add_server(server(1, 2, 1, ServerState::Normal)).unwrap();
    let h1 = mm.add_player_to_pool(player(1, 1000, 0)).unwrap();
    let h2 = mm.add_player_to_pool(player(2, 1000, 0)).unwrap();
    match mm.try_resolve(&h1, 0) {
        ResolveOutcome::AwaitingCapacity(m) => assert_eq!(m.opponent.id, 2),
        other => panic!("unexpected {:?}", other),
    }
    mm.add_server(server(2, 2, 0, ServerState::Normal)).unwrap();
    assert_eq!(
        mm.try_resolve(&h2, 0),
        ResolveOutcome::Matched(Match { player: 2, opponent: 1, server: 2 })
    );
    assert_eq!(
        mm.try_resolve(&h1, 0),
        ResolveOutcome::Matched(Match { player: 1, opponent: 2, server: 2 })
    );
    assert!(!mm.release(h1));
    assert_eq!(mm.try_resolve(&h2, 0), ResolveOutcome::Matched(Match { player: 2, opponent: 1, server: 2 }));
}

#[test]
fn no_player_is_assigned_twice() {
    let mut mm = Matchmaker::new(config(1000, 0, 0));
    mm.add_server(server(1, 100, 0, ServerState::Normal)).unwrap();
    let mut handles = Vec::new();
    for id in 0..6u64 {
        handles.push(mm.add_player_to_pool(player(id, 1000 + id, 0)).unwrap());
    }
    let mut matches: Vec<Match> = Vec::new();
    for h in handles.iter() {
        match mm.try_resolve(h, 0) {
            ResolveOutcome::Matched(m) => {
                assert_eq!(m.player, h.player_id());
                matches.push(m);
            }
            other => panic!("unexpected {:?}", other),
        }
    }
    for m in &matches {
        let partner = matches.iter().filter(|o| o.player == m.opponent).count();
        assert_eq!(partner, 1);
        let mirror = matches.iter().find(|o| o.player == m.opponent).unwrap();
        assert_eq!((mirror.opponent, mirror.server), (m.player, m.server));
    }
    assert_eq!(mm.servers()[0].current_players, 6);
    assert!(mm.players().is_empty());
}

#[test]
fn opponent_learns_of_its_match() {
    let mut mm = Matchmaker::new(config(100, 0, 0));
    mm.add_server(server(3, 4, 0, ServerState::Normal)).unwrap();
    let ha = mm.add_player_to_pool(player(1, 1000, 0)).unwrap();
    let hb = mm.add_player_to_pool(player(2, 1010, 0)).unwrap();
    assert_eq!(mm.try_resolve(&ha, 0), ResolveOutcome::Matched(Match { player: 1, opponent: 2, server: 3 }));
    assert_eq!(mm.try_resolve(&hb, 0), ResolveOutcome::Matched(Match { player: 2, opponent: 1, server: 3 }));
    assert!(!mm.release(hb));
    assert!(!mm.release(ha));
}

#[test]
fn stale_handle_leaves_newer_entry_alone() {
    let mut mm = Matchmaker::new(config(100, 0, 0));
    mm.add_server(server(3, 4, 0, ServerState::Normal)).unwrap();
    let old_handle = mm.add_player_to_pool(player(1, 1000, 0)).unwrap();
    let _other = mm.add_player_to_pool(player(2, 1000, 0)).unwrap();
    assert!(matches!(mm.try_resolve(&old_handle, 0), ResolveOutcome::Matched(_)));
    let new_handle = mm.add_player_to_pool(player(1, 1000, 9)).unwrap();
    assert!(matches!(mm.try_resolve(&old_handle, 9), ResolveOutcome::Matched(_)));
    assert!(!mm.release(old_handle));
    assert_eq!(mm.players(), vec![player(1, 1000, 9)]);
    assert_eq!(mm.try_resolve(&new_handle, 9), ResolveOutcome::NoMatch);
    assert!(mm.release(new_handle));
    assert!(mm.players().is_empty());
}

#[test]
fn removed_entry_is_not_queued() {
    let mut mm = Matchmaker::new(config(100, 0, 0));
    let h = mm.add_player_to_pool(player(1, 1000, 0)).unwrap();
    assert_eq!(mm.remove_player_from_pool(1), Some(player(1, 1000, 0)));
    assert_eq!(mm.try_resolve(&h, 0), ResolveOutcome::NotQueued);
}

#[test]
fn duplicate_join_is_refused() {
    let mut mm = Matchmaker::new(config(100, 0, 0));
    let _h = mm.add_player_to_pool(player(1, 1000, 0)).unwrap();
    assert!(matches!(mm.add_player_to_pool(player(1, 1200, 3)), Err(JoinError::AlreadyQueued)));
}

#[test]
fn release_is_idempotent() {
    let mut mm = Matchmaker::new(config(100, 0, 0));
    let h = mm.add_player_to_pool(player(1, 1000, 0)).unwrap();
    assert_eq!(h.player_id(), 1);
    assert_eq!(mm.remove_player_from_pool(1), Some(player(1, 1000, 0)));
    assert_eq!(mm.remove_player_from_pool(1), None);
    assert!(!mm.release(h));
}

#[test]
fn pool_insert_remove_snapshot() {
    let mut pool = Pool::new();
    pool.insert(player(1, 10, 0)).unwrap();
    pool.insert(player(2, 20, 0)).unwrap();
    pool.insert(player(3, 30, 0)).unwrap();
    assert_eq!(pool.insert(player(2, 99, 9)), Err(AlreadyQueued));
    assert_eq!(pool.get_player(2), Some(player(2, 20, 0)));
    assert_eq!(pool.remove(2), Some(player(2, 20, 0)));
    assert_eq!(pool.remove(2), None);
    assert_eq!(pool.get_player(2), None);
    assert_eq!(pool.snapshot(), vec![player(1, 10, 0), player(3, 30, 0)]);
}

#[test]
fn server_administration() {
    let mut mm = Matchmaker::new(config(100, 0, 0));
    assert_eq!(mm.add_server(server(1, 4, 0, ServerState::Startup)), Ok(()));
    assert_eq!(
        mm.add_server(server(1, 4, 0, ServerState::Normal)),
        Err(ServerError::AlreadyRegistered)
    );
    assert_eq!(mm.add_server(server(2, 4, 5, ServerState::Normal)), Err(ServerError::LoadOutOfRange));
    assert_eq!(mm.set_server_state(9, ServerState::Normal), Err(ServerError::UnknownServer));
    assert_eq!(mm.set_server_state(1, ServerState::Normal), Ok(()));
    let h1 = mm.add_player_to_pool(player(1, 1000, 0)).unwrap();
    mm.add_player_to_pool(player(2, 1000, 0)).unwrap();
    assert_eq!(mm.set_server_state(1, ServerState::Draining), Ok(()));
    assert!(matches!(mm.try_resolve(&h1, 0), ResolveOutcome::AwaitingCapacity(_)));
    assert_eq!(mm.deregister_server(1), Some(server(1, 4, 0, ServerState::Draining)));
    assert_eq!(mm.deregister_server(1), None);
}

#[test]
fn server_load_stays_within_capacity() {
    let mut pool = Pool::new();
    pool.register_server(server(1, 4, 3, ServerState::Normal)).unwrap();
    assert_eq!(pool.update_server_load(1, 2), Err(ServerError::LoadOutOfRange));
    assert_eq!(pool.update_server_load(1, -4), Err(ServerError::LoadOutOfRange));
    assert_eq!(pool.update_server_load(2, 1), Err(ServerError::UnknownServer));
    assert_eq!(pool.update_server_load(1, 1), Ok(server(1, 4, 4, ServerState::Normal)));
    assert_eq!(pool.update_server_load(1, -3), Ok(server(1, 4, 1, ServerState::Normal)));
}

#[test]
fn matchmaker_scores_with_its_config() {
    let mm = Matchmaker::new(config(100, 2, 10));
    assert_eq!(mm.config(), config(100, 2, 10));
    assert_eq!(mm.score_matchup(&player(1, 100, 0), &player(2, 130, 4), 3), 24);
    assert_eq!(mm.score_matchup(&player(1, 100, 0), &player(2, 130, 4), 100), 20);
    assert_eq!(mm.find_best_match(&player(1, 100, 0), 3), None);
}
