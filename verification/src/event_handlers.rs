use vstd::prelude::*;

use crate::game::{
    closed_question, round_end_post, round_start_post, GameState, MathGame,
};
use crate::numfmt::parse_input_i32;
use crate::question::MathQuestion;
use crate::util::valid_time;

verus! {

/// A normalized key event, the closed set of inputs the game consumes.
#[derive(Clone, Copy, Debug, PartialEq, Eq, Structural)]
pub enum Key {
    Char(u8),
    Backspace,
    Delete,
    Up,
    Down,
}

/// The input buffer with its last byte removed, if it has one.
pub open spec fn popped(s: Seq<u8>) -> Seq<u8> {
    if s.len() == 0 {
        s
    } else {
        s.drop_last()
    }
}

/// The input buffer after a key edits it: typed characters are appended,
/// Backspace and Delete each remove the last one.
pub open spec fn edited(s: Seq<u8>, key: Key) -> Seq<u8> {
    match key {
        Key::Char(c) => s.push(c),
        Key::Backspace | Key::Delete => popped(s),
        _ => s,
    }
}

/// Whether a buffer reading solves a question: it parses as a number equal
/// to the answer. This fires on every edit; no separate submit exists.
pub open spec fn solves(input: Seq<u8>, q: MathQuestion) -> bool {
    parse_input_i32(input) == Some(q.answer)
}

/// Everything an input-buffer edit leaves alone.
pub open spec fn buffer_frame(pre: MathGame, post: MathGame) -> bool {
    &&& post.gamestate == pre.gamestate
    &&& post.exit == pre.exit
    &&& post.start_time == pre.start_time
    &&& post.current_time == pre.current_time
    &&& post.answers == pre.answers
    &&& post.gameconfig == pre.gameconfig
    &&& post.game_history == pre.game_history
    &&& post.result_table_index == pre.result_table_index
    &&& post.history_table_index == pre.history_table_index
    &&& post.save_failed == pre.save_failed
}

/// Effect of an input-buffer edit while a round runs: the buffer is edited,
/// and when its new reading equals the live answer the question is solved —
/// the score goes up by one, the buffer is cleared, the question is closed
/// at `now` and recorded, and a fresh question is posed. (At a score of
/// `i32::MAX` the solve cannot be counted and the edit alone happens.)
pub open spec fn buffer_step(pre: MathGame, post: MathGame, key: Key, now: i64) -> bool {
    let new_input = edited(pre.input@, key);
    let solved = solves(new_input, pre.current_question) && pre.score < i32::MAX;
    &&& buffer_frame(pre, post)
    &&& if solved {
        &&& post.input@ == Seq::<u8>::empty()
        &&& post.score == pre.score + 1
        &&& post.questions@ == pre.questions@.push(closed_question(pre.current_question, now))
        &&& post.current_question.wf(pre.gameconfig.qr)
        &&& post.current_question.question_answer is None
    } else {
        &&& post.input@ == new_input
        &&& post.score == pre.score
        &&& post.questions == pre.questions
        &&& post.current_question == pre.current_question
    }
}

/// Law: within a running round an input edit never lowers the score; it
/// raises it by exactly one when and only when the edit solves the live
/// question, and the solved-question list grows in step with the score.
pub proof fn lemma_score_monotonic(pre: MathGame, post: MathGame, key: Key, now: i64)
    requires
        buffer_step(pre, post, key, now),
        pre.score < i32::MAX,
    ensures
        post.score >= pre.score,
        (post.score == pre.score + 1) <==> solves(edited(pre.input@, key), pre.current_question),
        post.questions@.len() - pre.questions@.len() == post.score - pre.score,
{
}

/// A table cursor moved one row up, stopping at the first row.
pub open spec fn sel_prev(i: int) -> int {
    if i > 0 {
        i - 1
    } else {
        0
    }
}

/// A table cursor moved one row down, stopping at the last of `count` rows.
pub open spec fn sel_next(i: int, count: int) -> int {
    if i + 1 < count {
        i + 1
    } else if count > 0 {
        count - 1
    } else {
        0
    }
}

/// Transitions of the start screen: `q` quits, `s` starts a round, `h`
/// opens the history screen, Delete trims the input buffer.
pub open spec fn splash_post(pre: MathGame, post: MathGame, key: Key, now: i64) -> bool {
    match key {
        Key::Char(c) => if c == 113 {
            post == (MathGame { exit: true, ..pre })
        } else if c == 115 {
            round_start_post(pre, post, now)
        } else if c == 104 {
            post == (MathGame { gamestate: GameState::HistorySplash, ..pre })
        } else {
            post == pre
        },
        Key::Delete => post.input@ == popped(pre.input@) && post == (MathGame {
            input: post.input,
            ..pre
        }),
        _ => post == pre,
    }
}

/// Transitions of the play screen: `q` quits, `r` restarts, `e` ends the
/// round, `d` abandons it, every other edit key drives the input buffer.
pub open spec fn game_key_post(pre: MathGame, post: MathGame, key: Key, now: i64) -> bool {
    match key {
        Key::Char(c) => if c == 113 {
            post == (MathGame { exit: true, ..pre })
        } else if c == 114 {
            round_start_post(pre, post, now)
        } else if c == 101 {
            round_end_post(pre, post, now)
        } else if c == 100 {
            post == (MathGame { gamestate: GameState::Setup, result_table_index: 0, ..pre })
        } else {
            buffer_step(pre, post, key, now)
        },
        Key::Backspace | Key::Delete => buffer_step(pre, post, key, now),
        Key::Up | Key::Down => post == pre,
    }
}

/// Transitions of the end screen: `q` quits, `d` returns to the start
/// screen, Up and Down move the result cursor within the answer rows.
pub open spec fn end_splash_post(pre: MathGame, post: MathGame, key: Key) -> bool {
    match key {
        Key::Char(c) => if c == 113 {
            post == (MathGame { exit: true, ..pre })
        } else if c == 100 {
            post == (MathGame { gamestate: GameState::Setup, result_table_index: 0, ..pre })
        } else {
            post == pre
        },
        Key::Up => post == (MathGame {
            result_table_index: sel_prev(pre.result_table_index as int) as usize,
            ..pre
        }),
        Key::Down => post == (MathGame {
            result_table_index: sel_next(
                pre.result_table_index as int,
                pre.answers@.len() as int,
            ) as usize,
            ..pre
        }),
        _ => post == pre,
    }
}

/// Transitions of the history screen: as the end screen, over the history
/// cursor and the recorded rounds.
pub open spec fn history_splash_post(pre: MathGame, post: MathGame, key: Key) -> bool {
    match key {
        Key::Char(c) => if c == 113 {
            post == (MathGame { exit: true, ..pre })
        } else if c == 100 {
            post == (MathGame { gamestate: GameState::Setup, result_table_index: 0, ..pre })
        } else {
            post == pre
        },
        Key::Up => post == (MathGame {
            history_table_index: sel_prev(pre.history_table_index as int) as usize,
            ..pre
        }),
        Key::Down => post == (MathGame {
            history_table_index: sel_next(
                pre.history_table_index as int,
                pre.game_history.history@.len() as int,
            ) as usize,
            ..pre
        }),
        _ => post == pre,
    }
}

/// On every tick while a round runs: once `now_ms` reaches the end of the
/// configured round length, end the round and hand back the stored text to
/// write; any earlier tick, and any tick on another screen, changes
/// nothing.
pub fn handle_tick_event(game: &mut MathGame, now_ms: i64) -> (r: Option<Vec<u8>>)
    requires
        old(game).wf(),
        valid_time(now_ms),
    ensures
        final(game).wf(),
        ({
            let timed_out = old(game).gamestate == GameState::Inprogress && now_ms - old(
                game,
            ).start_time >= old(game).gameconfig.timer as i64 * 1000;
            if timed_out {
                &&& round_end_post(*old(game), *final(game), now_ms)
                &&& (r matches Some(b) && b@ == crate::codec::enc_history(
                    final(game).game_history@,
                ))
            } else {
                &&& *final(game) == *old(game)
                &&& r is None
            }
        }),
{
    let running = game.gamestate == GameState::Inprogress;
    if running {
        let elapsed_ms = now_ms - game.start_time;
        let timer_ms = (game.gameconfig.timer as i64) * 1000;
        if elapsed_ms >= timer_ms {
            return game.handle_game_end(true, now_ms);
        }
    }
    None
}

/// Interpret one key event on the current screen. The stored text of the
/// updated history is returned when the key ended the round.
pub fn handle_events(key: Key, game: &mut MathGame, now_ms: i64) -> (r: Option<Vec<u8>>)
    requires
        old(game).wf(),
        valid_time(now_ms),
    ensures
        final(game).wf(),
        match old(game).gamestate {
            GameState::Setup => splash_post(*old(game), *final(game), key, now_ms) && r is None,
            GameState::Inprogress => game_key_post(*old(game), *final(game), key, now_ms) && (key
                == Key::Char(101) ==> (r matches Some(b) && b@ == crate::codec::enc_history(
                final(game).game_history@,
            ))) && (key != Key::Char(101) ==> r is None),
            GameState::EndingSplash => end_splash_post(*old(game), *final(game), key) && r
                is None,
            GameState::HistorySplash => history_splash_post(*old(game), *final(game), key) && r
                is None,
            GameState::SettingsSplash => *final(game) == *old(game) && r is None,
        },
{
    match game.gamestate {
        GameState::Setup => {
            handle_key_event_splash(game, key, now_ms);
            None
        },
        GameState::Inprogress => handle_key_event_game(game, key, now_ms),
        GameState::EndingSplash => {
            handle_end_event_splash(game, key);
            None
        },
        GameState::HistorySplash => {
            handle_key_event_history(game, key);
            None
        },
        GameState::SettingsSplash => None,
    }
}

/// Key handling on the start screen.
fn handle_key_event_splash(game: &mut MathGame, key: Key, now_ms: i64)
    requires
        old(game).wf(),
        valid_time(now_ms),
    ensures
        final(game).wf(),
        splash_post(*old(game), *final(game), key, now_ms),
{
    match key {
        Key::Char(c) => {
            if c == 113 {
                game.exit();
            } else if c == 115 {
                game.handle_game_start(now_ms);
            } else if c == 104 {
                game.gamestate = GameState::HistorySplash;
            }
        },
        Key::Delete => {
            game.input.pop();
        },
        _ => {},
    }
}

/// Key handling on the play screen.
fn handle_key_event_game(game: &mut MathGame, key: Key, now_ms: i64) -> (r: Option<Vec<u8>>)
    requires
        old(game).wf(),
        valid_time(now_ms),
        old(game).gamestate == GameState::Inprogress,
    ensures
        final(game).wf(),
        game_key_post(*old(game), *final(game), key, now_ms),
        key == Key::Char(101) ==> (r matches Some(b) && b@ == crate::codec::enc_history(
            final(game).game_history@,
        )),
        key != Key::Char(101) ==> r is None,
{
    match key {
        Key::Char(c) => {
            if c == 113 {
                game.exit();
                None
            } else if c == 114 {
                game.handle_game_start(now_ms);
                None
            } else if c == 101 {
                game.handle_game_end(true, now_ms)
            } else if c == 100 {
                game.handle_return_to_splash();
                None
            } else {
                game.input.push(c);
                check_solved(game, now_ms);
                None
            }
        },
        Key::Backspace | Key::Delete => {
            game.input.pop();
            check_solved(game, now_ms);
            None
        },
        Key::Up | Key::Down => None,
    }
}

/// After an edit, count the question as solved when the buffer reads as its
/// answer.
fn check_solved(game: &mut MathGame, now_ms: i64)
    requires
        old(game).wf(),
        valid_time(now_ms),
        old(game).gamestate == GameState::Inprogress,
    ensures
        final(game).wf(),
        buffer_frame(*old(game), *final(game)),
        ({
            let solved = solves(old(game).input@, old(game).current_question) && old(game).score
                < i32::MAX;
            if solved {
                &&& final(game).input@ == Seq::<u8>::empty()
                &&& final(game).score == old(game).score + 1
                &&& final(game).questions@ == old(game).questions@.push(
                    closed_question(old(game).current_question, now_ms),
                )
                &&& final(game).current_question.wf(old(game).gameconfig.qr)
                &&& final(game).current_question.question_answer is None
            } else {
                &&& *final(game) == *old(game)
            }
        }),
{
    let solved = match crate::numfmt::try_parse_i32(&game.input) {
        Some(v) => v == game.current_question.answer,
        None => false,
    };
    if solved && game.score < i32::MAX {
        game.score = game.score + 1;
        game.input.clear();
        game.current_question.question_answer = Some(now_ms);
        game.questions.push(game.current_question);
        game.current_question = MathQuestion::generate_new_question(&game.gameconfig.qr);
    }
}

/// Key handling on the end screen.
fn handle_end_event_splash(game: &mut MathGame, key: Key)
    requires
        old(game).wf(),
    ensures
        final(game).wf(),
        end_splash_post(*old(game), *final(game), key),
{
    match key {
        Key::Char(c) => {
            if c == 113 {
                game.exit();
            } else if c == 100 {
                game.handle_return_to_splash();
            }
        },
        Key::Up => {
            if game.result_table_index > 0 {
                game.result_table_index = game.result_table_index - 1;
            }
        },
        Key::Down => {
            let count = game.answers.len();
            if count == 0 {
                game.result_table_index = 0;
            } else if game.result_table_index < count - 1 {
                game.result_table_index = game.result_table_index + 1;
            } else {
                game.result_table_index = count - 1;
            }
        },
        _ => {},
    }
}

/// Key handling on the history screen.
fn handle_key_event_history(game: &mut MathGame, key: Key)
    requires
        old(game).wf(),
    ensures
        final(game).wf(),
        history_splash_post(*old(game), *final(game), key),
{
    match key {
        Key::Char(c) => {
            if c == 113 {
                game.exit();
            } else if c == 100 {
                game.handle_return_to_splash();
            }
        },
        Key::Up => {
            if game.history_table_index > 0 {
                game.history_table_index = game.history_table_index - 1;
            }
        },
        Key::Down => {
            let count = game.game_history.history.len();
            if count == 0 {
                game.history_table_index = 0;
            } else if game.history_table_index < count - 1 {
                game.history_table_index = game.history_table_index + 1;
            } else {
                game.history_table_index = count - 1;
            }
        },
        _ => {},
    }
}

} // verus!
