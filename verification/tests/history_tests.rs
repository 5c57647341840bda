use quant_game::history::{GameHistory, GameRecord};
use quant_game::question::MathQuestion;
use quant_game::util::Sign;

fn sample_record() -> GameRecord {
    let q = MathQuestion::from_draws(Sign::Add, 3, 4, 1_000);
    let mut closed = q;
    closed.question_answer = Some(3_500);
    let a = closed.generate_math_answer(9_999);
    GameRecord { game_intant: 77, score: 1, answers: vec![a] }
}

#[test]
fn empty_history_stores_as_expected_text() {
    let h = GameHistory::with_path(b"results.json".to_vec());
    let bytes = h.save_bytes();
    assert_eq!(bytes, b"{\"path\":\"results.json\",\"history\":[]}".to_vec());
}

#[test]
fn one_round_stores_as_expected_text() {
    let mut h = GameHistory::with_path(b"results.json".to_vec());
    h.add_game_result(sample_record());
    let bytes = h.save_bytes();
    let mut expected = String::new();
    expected.push_str("{\"path\":\"results.json\",\"history\":[");
    expected.push_str("{\"game_intant\":77,\"score\":1,\"answers\":[");
    expected.push_str("{\"q\":{\"lhs\":3,\"rhs\":4,\"answer\":7,\"sign\":\"Add\",");
    expected.push_str("\"question_start\":1000,\"question_answer\":3500},");
    expected.push_str("\"string_representation\":\"3 + 4\",");
    expected.push_str("\"duration_s\":2,\"duration_m\":2500}]}]}");
    assert_eq!(bytes, expected.as_bytes().to_vec());
}

#[test]
fn saving_and_reloading_gives_the_history_back() {
    let mut h = GameHistory::with_path(b"results.json".to_vec());
    h.add_game_result(sample_record());

    // A second round: an unsolved question closed at the round end, a
    // Divide question, and a negative score-free timing corner.
    let q1 = MathQuestion::from_draws(Sign::Divide, 3, 6, 2_000);
    let a1 = q1.generate_math_answer(8_000);
    let mut q2 = MathQuestion::from_draws(Sign::Subtract, 2, 9, 4_000);
    q2.question_answer = Some(3_000);
    let a2 = q2.generate_math_answer(8_000);
    h.add_game_result(GameRecord { game_intant: 123_456_789, score: 2, answers: vec![a1, a2] });

    let bytes = h.save_bytes();
    let back = GameHistory::from_saved_bytes(b"results.json".to_vec(), &bytes)
        .expect("a saved history must load");

    assert_eq!(back.path, h.path);
    assert_eq!(back.history.len(), h.history.len());
    for (r1, r2) in h.history.iter().zip(back.history.iter()) {
        assert_eq!(r1.game_intant, r2.game_intant);
        assert_eq!(r1.score, r2.score);
        assert_eq!(r1.answers.len(), r2.answers.len());
        for (x, y) in r1.answers.iter().zip(r2.answers.iter()) {
            assert_eq!(x.string_representation, y.string_representation);
            assert_eq!(x.duration_s, y.duration_s);
            assert_eq!(x.duration_m, y.duration_m);
            assert_eq!(x.q.lhs, y.q.lhs);
            assert_eq!(x.q.rhs, y.q.rhs);
            assert_eq!(x.q.answer, y.q.answer);
            assert_eq!(x.q.sign, y.q.sign);
            assert_eq!(x.q.question_start, y.q.question_start);
            assert_eq!(x.q.question_answer, y.q.question_answer);
        }
    }
}

#[test]
fn a_fresh_file_reloads_as_an_empty_history() {
    let h = GameHistory::with_path(b"scores.json".to_vec());
    let bytes = h.save_bytes();
    let back = GameHistory::from_saved_bytes(b"scores.json".to_vec(), &bytes)
        .expect("a fresh history must load");
    assert_eq!(back.history.len(), 0);
    assert_eq!(back.path, b"scores.json".to_vec());
}

#[test]
fn loading_rebinds_the_stored_path() {
    let h = GameHistory::with_path(b"old.json".to_vec());
    let bytes = h.save_bytes();
    let back = GameHistory::from_saved_bytes(b"new.json".to_vec(), &bytes).unwrap();
    assert_eq!(back.path, b"new.json".to_vec());
}

#[test]
fn malformed_text_does_not_load() {
    let path = b"results.json".to_vec();
    assert!(GameHistory::from_saved_bytes(path.clone(), &b"{}".to_vec()).is_none());
    assert!(GameHistory::from_saved_bytes(path.clone(), &Vec::new()).is_none());

    let mut h = GameHistory::with_path(b"results.json".to_vec());
    h.add_game_result(sample_record());
    let good = h.save_bytes();

    let mut truncated = good.clone();
    truncated.pop();
    assert!(GameHistory::from_saved_bytes(path.clone(), &truncated).is_none());

    let mut trailing = good.clone();
    trailing.push(b' ');
    assert!(GameHistory::from_saved_bytes(path.clone(), &trailing).is_none());

    let mut corrupt = good.clone();
    corrupt[0] = b'#';
    assert!(GameHistory::from_saved_bytes(path.clone(), &corrupt).is_none());

    // A quote typed into the path field breaks the string framing.
    let mut unquoted = good.clone();
    unquoted[9] = b'"';
    assert!(GameHistory::from_saved_bytes(path, &unquoted).is_none());
}

#[test]
fn default_history_is_empty_and_unbound() {
    let h = GameHistory::default();
    assert_eq!(h.path.len(), 0);
    assert_eq!(h.history.len(), 0);
}
