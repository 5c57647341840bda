use quant_game::config::QuestionRanges;
use quant_game::question::MathQuestion;
use quant_game::util::{apply_sign, match_sign, Sign};

fn pinned_ranges() -> QuestionRanges {
    // Every range holds exactly one value, so each operation's question is
    // fully determined and only the operation itself is random.
    QuestionRanges {
        add_lower: 5,
        add_upper: 6,
        mult_lhs_lower: 2,
        mult_lhs_upper: 3,
        mult_rhs_lower: 7,
        mult_rhs_upper: 8,
    }
}

#[test]
fn generated_subtract_is_ordered_and_nonnegative() {
    let qr = QuestionRanges {
        add_lower: 2,
        add_upper: 100,
        mult_lhs_lower: 2,
        mult_lhs_upper: 12,
        mult_rhs_lower: 2,
        mult_rhs_upper: 100,
    };
    for _ in 0..200 {
        let q = MathQuestion::generate_new_question(&qr);
        if q.sign == Sign::Subtract {
            assert!(q.lhs >= q.rhs);
            assert_eq!(q.answer, q.lhs - q.rhs);
            assert!(q.answer >= 0);
            assert!(2 <= q.lhs && q.lhs < 100);
            assert!(2 <= q.rhs && q.rhs < 100);
        }
    }
}

#[test]
fn generated_divide_is_exact() {
    let qr = QuestionRanges {
        add_lower: 2,
        add_upper: 100,
        mult_lhs_lower: 2,
        mult_lhs_upper: 12,
        mult_rhs_lower: 2,
        mult_rhs_upper: 100,
    };
    for _ in 0..200 {
        let q = MathQuestion::generate_new_question(&qr);
        if q.sign == Sign::Divide {
            assert_ne!(q.rhs, 0);
            assert_eq!(q.lhs % q.rhs, 0);
            assert_eq!(q.answer, q.lhs / q.rhs);
            assert!(2 <= q.answer && q.answer < 12);
            assert!(2 <= q.rhs && q.rhs < 100);
        }
    }
}

#[test]
fn generated_add_and_multiply_are_exact() {
    let qr = QuestionRanges {
        add_lower: 2,
        add_upper: 100,
        mult_lhs_lower: 2,
        mult_lhs_upper: 12,
        mult_rhs_lower: 2,
        mult_rhs_upper: 100,
    };
    for _ in 0..200 {
        let q = MathQuestion::generate_new_question(&qr);
        match q.sign {
            Sign::Add => {
                assert_eq!(q.answer, q.lhs + q.rhs);
                assert!(2 <= q.lhs && q.lhs < 100);
                assert!(2 <= q.rhs && q.rhs < 100);
            }
            Sign::Multiply => {
                assert_eq!(q.answer, q.lhs * q.rhs);
                assert!(2 <= q.lhs && q.lhs < 12);
                assert!(2 <= q.rhs && q.rhs < 100);
            }
            _ => {}
        }
        assert!(q.question_answer.is_none());
    }
}

#[test]
fn pinned_ranges_force_every_question() {
    // With one-value ranges the sampler has no freedom left: a wrapper that
    // ignored its bounds would be caught here.
    let qr = pinned_ranges();
    for _ in 0..40 {
        let q = MathQuestion::generate_new_question(&qr);
        match q.sign {
            Sign::Add => {
                assert_eq!((q.lhs, q.rhs, q.answer), (5, 5, 10));
            }
            Sign::Subtract => {
                assert_eq!((q.lhs, q.rhs, q.answer), (5, 5, 0));
            }
            Sign::Multiply => {
                assert_eq!((q.lhs, q.rhs, q.answer), (2, 7, 14));
            }
            Sign::Divide => {
                assert_eq!((q.lhs, q.rhs, q.answer), (14, 7, 2));
            }
        }
    }
}

#[test]
fn draws_determine_an_add_question() {
    let q = MathQuestion::from_draws(Sign::Add, 3, 4, 1_000);
    assert_eq!(q.lhs, 3);
    assert_eq!(q.rhs, 4);
    assert_eq!(q.answer, 7);
    assert_eq!(q.sign, Sign::Add);
    assert_eq!(q.question_start, 1_000);
    assert!(q.question_answer.is_none());
}

#[test]
fn draws_determine_a_divide_question() {
    let q = MathQuestion::from_draws(Sign::Divide, 3, 6, 1_000);
    assert_eq!(q.lhs, 18);
    assert_eq!(q.rhs, 6);
    assert_eq!(q.answer, 3);
}

#[test]
fn subtract_draws_are_reordered() {
    let q = MathQuestion::from_draws(Sign::Subtract, 2, 9, 0);
    assert_eq!((q.lhs, q.rhs, q.answer), (9, 2, 7));
    let q = MathQuestion::from_draws(Sign::Subtract, 9, 2, 0);
    assert_eq!((q.lhs, q.rhs, q.answer), (9, 2, 7));
}

#[test]
fn answers_carry_text_and_durations() {
    let q = MathQuestion::from_draws(Sign::Add, 3, 4, 1_000);
    let mut closed = q;
    closed.question_answer = Some(3_500);
    let a = closed.generate_math_answer(9_999);
    assert_eq!(a.string_representation, b"3 + 4".to_vec());
    assert_eq!(a.duration_m, 2_500);
    assert_eq!(a.duration_s, 2);
    // A question never solved is timed against the round end instead.
    let b = q.generate_math_answer(5_000);
    assert_eq!(b.duration_m, 4_000);
    assert_eq!(b.duration_s, 4);
}

#[test]
fn apply_sign_evaluates_each_operation() {
    assert_eq!(apply_sign(&Sign::Add, 3, 4), 7);
    assert_eq!(apply_sign(&Sign::Subtract, 9, 2), 7);
    assert_eq!(apply_sign(&Sign::Multiply, 6, 7), 42);
    assert_eq!(apply_sign(&Sign::Divide, 18, 6), 3);
}

#[test]
fn match_sign_gives_display_symbols() {
    assert_eq!(match_sign(&Sign::Multiply), 'x');
    assert_eq!(match_sign(&Sign::Add), '+');
    assert_eq!(match_sign(&Sign::Subtract), '-');
    assert_eq!(match_sign(&Sign::Divide), '/');
}
