use quant_game::config::QuestionRanges;
use quant_game::event_handlers::{handle_events, handle_tick_event, Key};
use quant_game::game::{GameState, MathGame};
use quant_game::question::MathQuestion;
use quant_game::history::GameHistory;
use quant_game::util::{get_target_answers, Sign};

fn pinned_game() -> MathGame {
    let mut g = MathGame::default();
    // One-value ranges: every question of each operation is determined.
    g.gameconfig.qr = QuestionRanges {
        add_lower: 5,
        add_upper: 6,
        mult_lhs_lower: 2,
        mult_lhs_upper: 3,
        mult_rhs_lower: 7,
        mult_rhs_upper: 8,
    };
    g
}

fn type_number(g: &mut MathGame, n: i32, t: i64) {
    for ch in n.to_string().bytes() {
        handle_events(Key::Char(ch), g, t);
    }
}

#[test]
fn typing_the_answer_scores_and_clears_the_input() {
    // Ranges {add: [2, 5)}, forced Add with draws 3 and 4: the answer is 7,
    // and typing "7" moves the score from 0 to 1 and clears the input.
    let mut g = MathGame::default();
    g.gameconfig.qr = QuestionRanges {
        add_lower: 2,
        add_upper: 5,
        mult_lhs_lower: 2,
        mult_lhs_upper: 4,
        mult_rhs_lower: 5,
        mult_rhs_upper: 7,
    };
    handle_events(Key::Char(b's'), &mut g, 1_000);
    g.current_question = MathQuestion::from_draws(Sign::Add, 3, 4, 1_000);
    assert_eq!(g.current_question.answer, 7);
    assert_eq!(g.score, 0);
    handle_events(Key::Char(b'7'), &mut g, 1_200);
    assert_eq!(g.score, 1);
    assert!(g.input.is_empty());
    assert_eq!(g.questions.len(), 1);
    assert_eq!(g.questions[0].question_answer, Some(1_200));
}

#[test]
fn a_divide_question_from_split_ranges_solves() {
    // Ranges {mult_lhs: [2, 4), mult_rhs: [5, 7)}, forced Divide with draws
    // 3 and 6: the stored question is 18 / 6 = 3, and typing "3" solves it.
    let mut g = MathGame::default();
    g.gameconfig.qr = QuestionRanges {
        add_lower: 2,
        add_upper: 5,
        mult_lhs_lower: 2,
        mult_lhs_upper: 4,
        mult_rhs_lower: 5,
        mult_rhs_upper: 7,
    };
    handle_events(Key::Char(b's'), &mut g, 1_000);
    g.current_question = MathQuestion::from_draws(Sign::Divide, 3, 6, 1_000);
    assert_eq!(g.current_question.lhs, 18);
    assert_eq!(g.current_question.rhs, 6);
    assert_eq!(g.current_question.answer, 3);
    handle_events(Key::Char(b'3'), &mut g, 1_300);
    assert_eq!(g.score, 1);
    assert!(g.input.is_empty());
}

#[test]
fn score_rises_by_exactly_one_per_solved_question() {
    let mut g = pinned_game();
    handle_events(Key::Char(b's'), &mut g, 1_000);
    for round in 0..5 {
        assert_eq!(g.score, round);
        let answer = g.current_question.answer;
        type_number(&mut g, answer, 2_000 + round as i64);
        assert_eq!(g.score, round + 1);
    }
    // A keystroke that does not solve anything leaves the score alone.
    handle_events(Key::Char(b'z'), &mut g, 9_000);
    assert_eq!(g.score, 5);
    assert_eq!(g.input, b"z".to_vec());
    handle_events(Key::Backspace, &mut g, 9_100);
    assert!(g.input.is_empty());
    assert_eq!(g.score, 5);
}

#[test]
fn round_stays_in_progress_until_the_timer_line() {
    let mut g = pinned_game();
    g.gameconfig.timer = 120;
    handle_events(Key::Char(b's'), &mut g, 10_000);
    assert_eq!(g.gamestate, GameState::Inprogress);
    let r = handle_tick_event(&mut g, 10_000 + 120_000 - 1);
    assert!(r.is_none());
    assert_eq!(g.gamestate, GameState::Inprogress);
    let r = handle_tick_event(&mut g, 10_000 + 120_000);
    assert!(r.is_some());
    assert_eq!(g.gamestate, GameState::EndingSplash);
}

#[test]
fn timeout_closes_the_open_question_and_records_the_round() {
    // Four solved questions and one in flight: the timeout closes the open
    // one, so five questions and five answers stand, and the recorded score
    // is still four.
    let mut g = pinned_game();
    g.gameconfig.timer = 120;
    handle_events(Key::Char(b's'), &mut g, 1_000);
    for round in 0..4 {
        let answer = g.current_question.answer;
        type_number(&mut g, answer, 2_000 + round as i64);
    }
    assert_eq!(g.score, 4);
    assert_eq!(g.questions.len(), 4);
    let t_end = 1_000 + 120_000;
    let saved = handle_tick_event(&mut g, t_end);
    assert!(saved.is_some());
    assert_eq!(g.gamestate, GameState::EndingSplash);
    assert_eq!(g.score, 4);
    assert_eq!(g.questions.len(), 5);
    assert_eq!(g.answers.len(), 5);
    let last = &g.answers[4];
    assert_eq!(last.q.question_answer, Some(t_end));
    assert_eq!(last.duration_m, t_end - last.q.question_start);
    assert_eq!(g.game_history.history.len(), 1);
    let rec = &g.game_history.history[0];
    assert_eq!(rec.score, 4);
    assert_eq!(rec.answers.len(), 5);
    assert_eq!(rec.game_intant, t_end * 1_000_000);
    // What the tick handed back is exactly the stored text of the history.
    assert_eq!(saved.unwrap(), g.game_history.save_bytes());
}

#[test]
fn ending_by_key_matches_the_stored_history() {
    let mut g = pinned_game();
    handle_events(Key::Char(b's'), &mut g, 1_000);
    let answer = g.current_question.answer;
    type_number(&mut g, answer, 1_500);
    let saved = handle_events(Key::Char(b'e'), &mut g, 2_000);
    assert_eq!(g.gamestate, GameState::EndingSplash);
    assert_eq!(g.game_history.history.len(), 1);
    assert_eq!(g.game_history.history[0].score, 1);
    assert_eq!(g.game_history.history[0].answers.len(), 2);
    assert_eq!(saved.unwrap(), g.game_history.save_bytes());
}

#[test]
fn restart_resets_the_round_state() {
    let mut g = pinned_game();
    handle_events(Key::Char(b's'), &mut g, 1_000);
    let answer = g.current_question.answer;
    type_number(&mut g, answer, 1_500);
    assert_eq!(g.score, 1);
    handle_events(Key::Char(b'r'), &mut g, 5_000);
    assert_eq!(g.gamestate, GameState::Inprogress);
    assert_eq!(g.score, 0);
    assert_eq!(g.questions.len(), 0);
    assert_eq!(g.answers.len(), 0);
    assert_eq!(g.start_time, 5_000);
}

#[test]
fn abandoning_a_round_records_nothing() {
    let mut g = pinned_game();
    handle_events(Key::Char(b's'), &mut g, 1_000);
    handle_events(Key::Char(b'd'), &mut g, 2_000);
    assert_eq!(g.gamestate, GameState::Setup);
    assert_eq!(g.game_history.history.len(), 0);
    assert_eq!(g.result_table_index, 0);
}

#[test]
fn splash_keys_reach_each_screen() {
    let mut g = pinned_game();
    assert_eq!(g.gamestate, GameState::Setup);
    handle_events(Key::Char(b'h'), &mut g, 1_000);
    assert_eq!(g.gamestate, GameState::HistorySplash);
    handle_events(Key::Char(b'd'), &mut g, 1_100);
    assert_eq!(g.gamestate, GameState::Setup);
    handle_events(Key::Char(b's'), &mut g, 1_200);
    assert_eq!(g.gamestate, GameState::Inprogress);
    handle_events(Key::Char(b'q'), &mut g, 1_300);
    assert!(g.exit);
}

#[test]
fn result_cursor_stays_within_the_answer_rows() {
    let mut g = pinned_game();
    handle_events(Key::Char(b's'), &mut g, 1_000);
    let answer = g.current_question.answer;
    type_number(&mut g, answer, 1_500);
    handle_events(Key::Char(b'e'), &mut g, 2_000);
    // Two answers recorded: the solved one and the closed-out open one.
    assert_eq!(g.answers.len(), 2);
    assert_eq!(g.result_table_index, 0);
    handle_events(Key::Up, &mut g, 2_100);
    assert_eq!(g.result_table_index, 0);
    handle_events(Key::Down, &mut g, 2_200);
    assert_eq!(g.result_table_index, 1);
    handle_events(Key::Down, &mut g, 2_300);
    assert_eq!(g.result_table_index, 1);
    handle_events(Key::Up, &mut g, 2_400);
    assert_eq!(g.result_table_index, 0);
}

#[test]
fn history_cursor_stays_within_the_recorded_rounds() {
    let mut g = pinned_game();
    handle_events(Key::Char(b's'), &mut g, 1_000);
    handle_events(Key::Char(b'e'), &mut g, 2_000);
    handle_events(Key::Char(b'd'), &mut g, 2_100);
    handle_events(Key::Char(b's'), &mut g, 3_000);
    handle_events(Key::Char(b'e'), &mut g, 4_000);
    handle_events(Key::Char(b'd'), &mut g, 4_100);
    handle_events(Key::Char(b'h'), &mut g, 5_000);
    assert_eq!(g.gamestate, GameState::HistorySplash);
    assert_eq!(g.game_history.history.len(), 2);
    assert_eq!(g.history_table_index, 0);
    handle_events(Key::Down, &mut g, 5_100);
    assert_eq!(g.history_table_index, 1);
    handle_events(Key::Down, &mut g, 5_200);
    assert_eq!(g.history_table_index, 1);
    handle_events(Key::Up, &mut g, 5_300);
    assert_eq!(g.history_table_index, 0);
}

#[test]
fn target_answers_follow_the_screen() {
    let mut g = pinned_game();
    handle_events(Key::Char(b's'), &mut g, 1_000);
    let answer = g.current_question.answer;
    type_number(&mut g, answer, 1_500);
    handle_events(Key::Char(b'e'), &mut g, 2_000);
    assert_eq!(get_target_answers(&g).len(), g.answers.len());
    handle_events(Key::Char(b'd'), &mut g, 2_100);
    handle_events(Key::Char(b'h'), &mut g, 2_200);
    assert_eq!(g.gamestate, GameState::HistorySplash);
    let rows = get_target_answers(&g);
    assert_eq!(rows.len(), g.game_history.history[0].answers.len());
}

#[test]
fn elapsed_seconds_count_whole_seconds() {
    let mut g = pinned_game();
    handle_events(Key::Char(b's'), &mut g, 10_000);
    assert_eq!(g.get_elapsed_time_seconds(10_000), 0);
    assert_eq!(g.get_elapsed_time_seconds(10_999), 0);
    assert_eq!(g.get_elapsed_time_seconds(11_000), 1);
    assert_eq!(g.get_elapsed_time_seconds(73_500), 63);
}

#[test]
fn a_partial_prefix_that_reads_as_the_answer_solves_early() {
    // No explicit submit exists: the check fires on every keystroke, so a
    // prefix that already reads as the answer counts as a solve.
    let mut g = pinned_game();
    handle_events(Key::Char(b's'), &mut g, 1_000);
    g.current_question = MathQuestion::from_draws(Sign::Subtract, 5, 5, 1_000);
    assert_eq!(g.current_question.answer, 0);
    handle_events(Key::Char(b'0'), &mut g, 1_100);
    assert_eq!(g.score, 1);
}

#[test]
fn stock_configuration_is_a_two_minute_round() {
    let g = MathGame::default();
    assert_eq!(g.gameconfig.timer, 120);
    assert!(!g.gameconfig.endless);
    assert!(!g.gameconfig.debug);
    assert_eq!(g.gameconfig.qr.add_lower, 2);
    assert_eq!(g.gameconfig.qr.add_upper, 100);
    assert_eq!(g.gameconfig.qr.mult_lhs_lower, 2);
    assert_eq!(g.gameconfig.qr.mult_lhs_upper, 12);
    assert_eq!(g.gameconfig.qr.mult_rhs_lower, 2);
    assert_eq!(g.gameconfig.qr.mult_rhs_upper, 100);
    assert_eq!(g.gamestate, GameState::Setup);
    assert_eq!(g.score, 0);
    assert!(!g.exit);
    assert!(!g.save_failed);
    assert!(g.input.is_empty());
    assert!(g.questions.is_empty());
    assert!(g.answers.is_empty());
}

#[test]
fn delete_trims_the_buffer_on_the_start_screen() {
    let mut g = pinned_game();
    g.input = b"12".to_vec();
    handle_events(Key::Delete, &mut g, 1_000);
    assert_eq!(g.input, b"1".to_vec());
    assert_eq!(g.gamestate, GameState::Setup);
}

#[test]
fn arrow_keys_do_nothing_on_the_start_screen() {
    let mut g = pinned_game();
    handle_events(Key::Up, &mut g, 1_000);
    handle_events(Key::Down, &mut g, 1_100);
    assert_eq!(g.gamestate, GameState::Setup);
    assert_eq!(g.score, 0);
}

#[test]
fn what_a_round_end_saves_loads_back() {
    let mut g = pinned_game();
    handle_events(Key::Char(b's'), &mut g, 1_000);
    let answer = g.current_question.answer;
    type_number(&mut g, answer, 1_500);
    let saved = handle_events(Key::Char(b'e'), &mut g, 2_000).unwrap();
    let back = GameHistory::from_saved_bytes(g.game_history.path.clone(), &saved)
        .expect("what the round end saved must load");
    assert_eq!(back.history.len(), 1);
    assert_eq!(back.history[0].score, 1);
    assert_eq!(back.history[0].answers.len(), 2);
    assert_eq!(back.history[0].game_intant, 2_000 * 1_000_000);
}

#[test]
fn ending_twice_records_only_once() {
    let mut g = pinned_game();
    handle_events(Key::Char(b's'), &mut g, 1_000);
    handle_events(Key::Char(b'e'), &mut g, 2_000);
    assert_eq!(g.game_history.history.len(), 1);
    let len_before = g.questions.len();
    // A stray tick after the round already ended must not double-append.
    let r = handle_tick_event(&mut g, 500_000);
    assert!(r.is_none());
    assert_eq!(g.game_history.history.len(), 1);
    assert_eq!(g.questions.len(), len_before);
}
