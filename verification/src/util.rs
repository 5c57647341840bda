use vstd::prelude::*;

verus! {

/// The four supported arithmetic operations.
#[derive(Clone, Copy, Debug, PartialEq, Eq, Structural, Hash)]
pub enum Sign {
    Multiply,
    Add,
    Subtract,
    Divide,
}

/// Symbol of an operation, as shown in a rendered question.
pub open spec fn sign_char(sign: Sign) -> char {
    match sign {
        Sign::Multiply => 'x',
        Sign::Add => '+',
        Sign::Subtract => '-',
        Sign::Divide => '/',
    }
}

/// Map an operation to its display symbol.
pub fn match_sign(sign: &Sign) -> (c: char)
    ensures
        c == sign_char(*sign),
{
    match sign {
        Sign::Multiply => 'x',
        Sign::Add => '+',
        Sign::Subtract => '-',
        Sign::Divide => '/',
    }
}

/// What an operation computes on two operands.
pub open spec fn sign_apply(sign: Sign, lhs: int, rhs: int) -> int {
    match sign {
        Sign::Multiply => lhs * rhs,
        Sign::Add => lhs + rhs,
        Sign::Subtract => lhs - rhs,
        Sign::Divide => lhs / rhs,
    }
}

/// Evaluate an operation on two operands.
pub fn apply_sign(sign: &Sign, lhs: i32, rhs: i32) -> (r: i32)
    requires
        *sign == Sign::Divide ==> lhs >= 0 && rhs >= 1,
        i32::MIN <= sign_apply(*sign, lhs as int, rhs as int) <= i32::MAX,
    ensures
        r == sign_apply(*sign, lhs as int, rhs as int),
{
    match sign {
        Sign::Multiply => lhs * rhs,
        Sign::Add => lhs + rhs,
        Sign::Subtract => lhs - rhs,
        Sign::Divide => lhs / rhs,
    }
}

/// Latest instant the game reasons about, in milliseconds since the epoch
/// (far enough out that nanosecond conversions still fit an `i64`).
pub const MAX_TIME_MS: i64 = 9_000_000_000_000;

/// A timestamp in milliseconds since the epoch that the game accepts.
pub open spec fn valid_time(t: i64) -> bool {
    0 <= t <= MAX_TIME_MS
}

/// Relies on rand::random_range over `lo..hi`: a draw from the half-open
/// range, which is non-empty by the precondition.
#[verifier::external_body]
pub fn sample_range(lo: i32, hi: i32) -> (r: i32)
    requires
        lo < hi,
    ensures
        lo <= r < hi,
{
    rand::random_range(lo..hi)
}

/// Relies on chrono::Local::now().timestamp_millis() for the wall clock;
/// nothing is assumed of the value it returns.
#[verifier::external_body]
fn now_millis_raw() -> i64 {
    chrono::Local::now().timestamp_millis()
}

/// Current wall-clock time in milliseconds since the epoch, clamped into
/// the interval of timestamps the game reasons about.
pub fn current_time_millis() -> (t: i64)
    ensures
        valid_time(t),
{
    let raw = now_millis_raw();
    if raw < 0 {
        0
    } else if raw > MAX_TIME_MS {
        MAX_TIME_MS
    } else {
        raw
    }
}

/// The answer rows the tables and charts should show: on the history
/// screen, the answers of the round the history cursor rests on (clamped to
/// the last recorded round); on every other screen, the live round's
/// answers.
pub fn get_target_answers(game: &crate::game::MathGame) -> (r: &Vec<crate::question::MathAnswer>)
    requires
        game.gamestate == crate::game::GameState::HistorySplash
            ==> game.game_history.history@.len() > 0,
    ensures
        game.gamestate == crate::game::GameState::HistorySplash ==> ({
            let len = game.game_history.history@.len() as int;
            let sel: int = if game.history_table_index < len {
                game.history_table_index as int
            } else {
                len - 1
            };
            r@ == game.game_history.history@[sel].answers@
        }),
        game.gamestate != crate::game::GameState::HistorySplash ==> r@ == game.answers@,
{
    match game.gamestate {
        crate::game::GameState::HistorySplash => {
            let len = game.game_history.history.len();
            let sel = if game.history_table_index < len {
                game.history_table_index
            } else {
                len - 1
            };
            &game.game_history.history[sel].answers
        },
        _ => &game.answers,
    }
}

} // verus!
