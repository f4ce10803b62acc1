use usi_engine_host::engine_storage::EngineConfig;
use usi_engine_host::engine_vs_engine::{
    go_command, move_wait_secs, parse_bestmove, EngineVsEngineConfig, EngineVsEngineState,
    MatchAction, MatchController, TurnOutcome, DEFAULT_SFEN,
};

fn config(max_moves: usize) -> EngineVsEngineConfig {
    EngineVsEngineConfig {
        engine1_id: "e1".to_string(),
        engine1_path: "/engines/one".to_string(),
        engine1_name: "One".to_string(),
        engine2_id: "e2".to_string(),
        engine2_path: "/engines/two".to_string(),
        engine2_name: "Two".to_string(),
        initial_sfen: None,
        time_per_move_ms: 1000,
        max_moves,
    }
}

/// Runs a match in which every request is answered by `reply(turn)`.
fn play(max_moves: usize, reply: impl Fn(usize) -> Option<String>) -> (MatchController, usize) {
    let mut m = MatchController::new(config(max_moves));
    let mut requests = 0;
    loop {
        match m.next_action() {
            MatchAction::RequestMove { .. } => {
                requests += 1;
                let r = reply(requests);
                m.record_reply(r);
            }
            MatchAction::Finished => return (m, requests),
        }
    }
}

#[test]
fn fixed_move_engine_draws_at_move_cap() {
    let (m, requests) = play(3, |_| Some("7g7f".to_string()));
    assert_eq!(requests, 3);
    assert_eq!(m.state.move_history.len(), 3);
    assert!(m.state.game_over);
    assert_eq!(m.state.winner.as_deref(), Some("draw"));
    assert_eq!(m.state.game_result.as_deref(), Some("maximum moves reached"));
    assert_eq!(
        m.state.position_sfen,
        format!("{} moves 7g7f 7g7f 7g7f", DEFAULT_SFEN)
    );
    assert_eq!(m.state.move_number, 4);
    assert_eq!(m.state.current_player, "white");
}

#[test]
fn resignation_on_first_turn_ends_the_game() {
    let (m, requests) = play(10, |_| Some("resign".to_string()));
    assert_eq!(requests, 1);
    assert!(m.state.game_over);
    assert_eq!(m.state.winner.as_deref(), Some("white"));
    assert!(m.state.game_result.as_deref().unwrap().contains("resigned"));
    assert_eq!(m.state.game_result.as_deref(), Some("One resigned"));
    assert!(m.state.move_history.is_empty());
}

#[test]
fn silent_engine_forfeits() {
    let (m, requests) = play(10, |_| None);
    assert_eq!(requests, 1);
    assert!(m.state.game_over);
    assert_eq!(m.state.winner.as_deref(), Some("white"));
    assert!(m.state.game_result.as_deref().unwrap().contains("failed to respond"));
}

#[test]
fn second_engine_forfeit_makes_black_win() {
    let (m, requests) = play(10, |turn| if turn == 1 { Some("2g2f".to_string()) } else { None });
    assert_eq!(requests, 2);
    assert_eq!(m.state.winner.as_deref(), Some("black"));
    assert_eq!(m.state.game_result.as_deref(), Some("Two failed to respond"));
    assert_eq!(m.state.move_history, vec!["2g2f".to_string()]);
}

#[test]
fn zero_move_cap_draws_at_once() {
    let (m, requests) = play(0, |_| Some("7g7f".to_string()));
    assert_eq!(requests, 0);
    assert_eq!(m.state.winner.as_deref(), Some("draw"));
}

#[test]
fn requests_carry_position_and_budget() {
    let mut m = MatchController::new(config(5));
    match m.next_action() {
        MatchAction::RequestMove { black, position, go, wait_secs } => {
            assert!(black);
            assert_eq!(position, format!("position sfen {}", DEFAULT_SFEN));
            assert_eq!(go, "go btime 1000 wtime 1000");
            assert_eq!(wait_secs, 11);
        }
        MatchAction::Finished => panic!("expected a move request"),
    }
    assert_eq!(m.record_reply(Some("7g7f".to_string())), TurnOutcome::Moved);
    match m.next_action() {
        MatchAction::RequestMove { black, position, .. } => {
            assert!(!black);
            assert_eq!(position, format!("position sfen {} moves 7g7f", DEFAULT_SFEN));
        }
        MatchAction::Finished => panic!("expected a move request"),
    }
}

#[test]
fn custom_start_position_is_kept() {
    let s = EngineVsEngineState::new(Some("9/9/9/9/9/9/9/9/9 b - 1".to_string()));
    assert_eq!(s.position_sfen, "9/9/9/9/9/9/9/9/9 b - 1");
    assert_eq!(s.move_number, 1);
    assert_eq!(s.current_player, "black");
    let d = EngineVsEngineState::new(None);
    assert_eq!(d.position_sfen, DEFAULT_SFEN);
}

#[test]
fn position_with_moves_rebuilds_from_base() {
    let mut s = EngineVsEngineState::new(Some("startpos-x b - 1 moves 1a1b".to_string()));
    s.move_history = vec!["7g7f".to_string(), "3c3d".to_string()];
    assert_eq!(s.position_command(), "position sfen startpos-x b - 1 moves 7g7f 3c3d");
}

#[test]
fn go_command_and_wait_values() {
    assert_eq!(go_command(0), "go btime 0 wtime 0");
    assert_eq!(go_command(5000), "go btime 5000 wtime 5000");
    assert_eq!(go_command(18446744073709551615), "go btime 18446744073709551615 wtime 18446744073709551615");
    assert_eq!(move_wait_secs(5000), 15);
    assert_eq!(move_wait_secs(999), 10);
}

#[test]
fn bestmove_lines_are_read() {
    assert_eq!(parse_bestmove("bestmove 7g7f"), Some("7g7f".to_string()));
    assert_eq!(parse_bestmove("  bestmove 7g7f ponder 3c3d\n"), Some("7g7f".to_string()));
    assert_eq!(parse_bestmove("bestmove resign"), Some("resign".to_string()));
    assert_eq!(parse_bestmove("bestmove"), None);
    assert_eq!(parse_bestmove("bestmove \n"), None);
    assert_eq!(parse_bestmove("info depth 3"), None);
    assert_eq!(parse_bestmove("bestmoves 7g7f"), None);
}

#[test]
fn match_config_takes_engines_and_defaults() {
    let e1 = EngineConfig::with_identity(
        "a".to_string(), "t".to_string(), "Alpha".to_string(), "/e/a".to_string(), None, false);
    let e2 = EngineConfig::with_identity(
        "b".to_string(), "t".to_string(), "Beta".to_string(), "/e/b".to_string(), None, false);
    let c = EngineVsEngineConfig::for_engines(&e1, &e2, None, None, None);
    assert_eq!(c.engine1_name, "Alpha");
    assert_eq!(c.engine2_path, "/e/b");
    assert_eq!(c.time_per_move_ms, 5000);
    assert_eq!(c.max_moves, 200);
    let d = EngineVsEngineConfig::for_engines(&e1, &e2, Some("s".to_string()), Some(10), Some(3));
    assert_eq!((d.time_per_move_ms, d.max_moves), (10, 3));
    assert_eq!(d.initial_sfen.as_deref(), Some("s"));
}
