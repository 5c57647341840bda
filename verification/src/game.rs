use vstd::prelude::*;

use crate::codec::{enc_history, lemma_srep_wf, wf_answer_m, wf_record_m, AnswerM, RecordM};
use crate::config::GameConfiguration;
use crate::history::{GameHistory, GameRecord};
use crate::question::{close_time, ms_to_s, srep_of, MathAnswer, MathQuestion};
use crate::util::valid_time;

verus! {

/// The screen the game currently shows; every transition is driven by one
/// key or tick event.
#[derive(Clone, Copy, Debug, PartialEq, Eq, Structural)]
pub enum GameState {
    Setup,
    Inprogress,
    EndingSplash,
    HistorySplash,
    SettingsSplash,
}

/// The whole state of a running game: the live question, the typed input,
/// score and timing anchors of the current round, the closed questions and
/// derived answers of that round, the active screen, the configuration, the
/// persisted history, and the two screen-owned table cursors.
#[derive(Debug)]
pub struct MathGame {
    pub current_question: MathQuestion,
    pub exit: bool,
    pub input: Vec<u8>,
    pub score: i32,
    pub start_time: i64,
    pub current_time: i64,
    pub questions: Vec<MathQuestion>,
    pub answers: Vec<MathAnswer>,
    pub gamestate: GameState,
    pub gameconfig: GameConfiguration,
    pub result_table_index: usize,
    pub game_history: GameHistory,
    pub history_table_index: usize,
    pub save_failed: bool,
}

/// A question, closed at the instant `now`.
pub open spec fn closed_question(q: MathQuestion, now: i64) -> MathQuestion {
    MathQuestion { question_answer: Some(now), ..q }
}

/// The timed answer derived from question `q` when the round is closed out
/// at `now`.
pub open spec fn answer_m_of(q: MathQuestion, now: i64) -> AnswerM {
    AnswerM {
        q,
        srep: srep_of(q),
        dur_s: ms_to_s(close_time(q, now) - q.question_start) as i64,
        dur_m: (close_time(q, now) - q.question_start) as i64,
    }
}

/// The round record written when a round in state `pre` ends at `now`: the
/// end instant in nanoseconds, the score reached, and one timed answer per
/// question, the still-open one closed at `now` and appended last.
pub open spec fn end_record(pre: MathGame, now: i64) -> RecordM {
    RecordM {
        game_intant: (now * 1_000_000) as i64,
        score: pre.score,
        answers: pre.questions@.push(closed_question(pre.current_question, now)).map_values(
            |q: MathQuestion| answer_m_of(q, now),
        ),
    }
}

/// How ending the round at `now` changes the game: the live question is
/// closed and appended, every question is mapped to its timed answer, the
/// new record is appended to the history, and the end screen is shown;
/// score, input and everything else stay as they were.
pub open spec fn round_end_post(pre: MathGame, post: MathGame, now: i64) -> bool {
    let qs = pre.questions@.push(closed_question(pre.current_question, now));
    &&& post.gamestate == GameState::EndingSplash
    &&& post.current_question == closed_question(pre.current_question, now)
    &&& post.questions@ == qs
    &&& post.answers@.len() == qs.len()
    &&& (forall|i: int|
        0 <= i < qs.len() ==> (#[trigger] post.answers@[i])@ == answer_m_of(qs[i], now))
    &&& post.game_history@.path == pre.game_history@.path
    &&& post.game_history@.history == pre.game_history@.history.push(end_record(pre, now))
    &&& post.score == pre.score
    &&& post.input@ == pre.input@
    &&& post.exit == pre.exit
    &&& post.start_time == pre.start_time
    &&& post.current_time == pre.current_time
    &&& post.gameconfig == pre.gameconfig
    &&& post.result_table_index == pre.result_table_index
    &&& post.history_table_index == pre.history_table_index
    &&& post.save_failed == pre.save_failed
}

/// How starting (or restarting) a round at `now` changes the game: score,
/// questions and answers are reset, a fresh question is posed, both timing
/// anchors are set to `now`, and play begins.
pub open spec fn round_start_post(pre: MathGame, post: MathGame, now: i64) -> bool {
    &&& post.gamestate == GameState::Inprogress
    &&& post.score == 0
    &&& post.questions@ == Seq::<MathQuestion>::empty()
    &&& post.answers@ == Seq::<MathAnswer>::empty()
    &&& post.start_time == now
    &&& post.current_time == now
    &&& post.current_question.wf(pre.gameconfig.qr)
    &&& post.current_question.question_answer is None
    &&& post.input@ == pre.input@
    &&& post.exit == pre.exit
    &&& post.gameconfig == pre.gameconfig
    &&& post.game_history == pre.game_history
    &&& post.result_table_index == pre.result_table_index
    &&& post.history_table_index == pre.history_table_index
    &&& post.save_failed == pre.save_failed
}

impl MathGame {
    /// Everything the transitions preserve: a usable configuration, sane
    /// timestamps, a live question drawn from the configured ranges, a
    /// storable history, closed well-formed recorded questions, and, while
    /// a round runs, a score equal to the number of solved questions and a
    /// still-open live question.
    pub open spec fn wf(self) -> bool {
        &&& self.gameconfig.wf()
        &&& valid_time(self.start_time)
        &&& valid_time(self.current_time)
        &&& self.current_question.wf(self.gameconfig.qr)
        &&& self.game_history.wf()
        &&& 0 <= self.score
        &&& (forall|i: int|
            0 <= i < self.questions@.len() ==> (#[trigger] self.questions@[i]).wf(
                self.gameconfig.qr,
            ) && self.questions@[i].question_answer is Some)
        &&& (self.gamestate == GameState::Inprogress ==> self.score as int
            == self.questions@.len() && self.current_question.question_answer is None)
    }

    /// Whole seconds the round has been running at `now_ms`.
    pub fn get_elapsed_time_seconds(&self, now_ms: i64) -> (r: i64)
        requires
            valid_time(now_ms),
            valid_time(self.start_time),
        ensures
            r == ms_to_s(now_ms - self.start_time),
    {
        let d = now_ms - self.start_time;
        if d >= 0 {
            d / 1000
        } else {
            -((-d) / 1000)
        }
    }

    /// Begin a round at `now_ms`: reset the round state, pose a fresh
    /// question and start the clock.
    pub fn handle_game_start(&mut self, now_ms: i64)
        requires
            old(self).wf(),
            valid_time(now_ms),
        ensures
            final(self).wf(),
            round_start_post(*old(self), *final(self), now_ms),
    {
        self.score = 0;
        self.answers = Vec::new();
        self.questions = Vec::new();
        self.current_question = MathQuestion::generate_new_question(&self.gameconfig.qr);
        self.current_time = now_ms;
        self.start_time = now_ms;
        self.gamestate = GameState::Inprogress;
        proof {
            assert(self.questions@ =~= Seq::<MathQuestion>::empty());
            assert(self.answers@ =~= Seq::<MathAnswer>::empty());
        }
    }

    /// Go back to the start screen and rewind the result cursor.
    pub fn handle_return_to_splash(&mut self)
        requires
            old(self).wf(),
        ensures
            final(self).wf(),
            *final(self) == (MathGame {
                gamestate: GameState::Setup,
                result_table_index: 0,
                ..*old(self)
            }),
    {
        self.gamestate = GameState::Setup;
        self.result_table_index = 0;
    }

    /// End the running round at `now_ms`: close the live question, derive
    /// the timed answers, append the round to the history and show the end
    /// screen. When `save` is set, the full stored text of the updated
    /// history is returned for the caller to write out. Outside a running
    /// round this does nothing, so a round cannot be ended twice.
    #[verifier::loop_isolation(false)]
    #[verifier::rlimit(100)]
    pub fn handle_game_end(&mut self, save: bool, now_ms: i64) -> (r: Option<Vec<u8>>)
        requires
            old(self).wf(),
            valid_time(now_ms),
        ensures
            final(self).wf(),
            old(self).gamestate != GameState::Inprogress ==> *final(self) == *old(self) && r
                is None,
            old(self).gamestate == GameState::Inprogress ==> {
                &&& round_end_post(*old(self), *final(self), now_ms)
                &&& (save ==> (r matches Some(b) && b@ == enc_history(final(self).game_history@)))
                &&& (!save ==> r is None)
            },
    {
        match self.gamestate {
            GameState::Inprogress => {},
            _ => {
                return None;
            },
        }
        self.current_question.question_answer = Some(now_ms);
        self.questions.push(self.current_question);
        let ghost qs = self.questions@;
        let mut answers: Vec<MathAnswer> = Vec::new();
        let mut record_answers: Vec<MathAnswer> = Vec::new();
        let mut i: usize = 0;
        while i < self.questions.len()
            invariant
                answers@.len() == i,
                record_answers@.len() == i,
                0 <= i <= qs.len(),
                forall|t: int|
                    0 <= t < i ==> (#[trigger] answers@[t])@ == answer_m_of(qs[t], now_ms),
                forall|t: int|
                    0 <= t < i ==> (#[trigger] record_answers@[t])@ == answer_m_of(qs[t], now_ms),
            decreases qs.len() - i,
        {
            let q = self.questions[i];
            let a = q.generate_math_answer(now_ms);
            let b = q.generate_math_answer(now_ms);
            proof {
                assert(a@ =~= answer_m_of(qs[i as int], now_ms));
                assert(b@ =~= answer_m_of(qs[i as int], now_ms));
            }
            answers.push(a);
            record_answers.push(b);
            i = i + 1;
        }
        self.answers = answers;
        let record = GameRecord {
            game_intant: now_ms * 1_000_000,
            score: self.score,
            answers: record_answers,
        };
        proof {
            assert(record@.answers =~= qs.map_values(|q: MathQuestion| answer_m_of(q, now_ms)));
            assert(record@ =~= end_record(*old(self), now_ms));
            assert forall|t: int| 0 <= t < record@.answers.len() implies wf_answer_m(
                #[trigger] record@.answers[t],
            ) by {
                lemma_srep_wf(qs[t]);
            }
            assert(wf_record_m(record@));
        }
        self.game_history.add_game_result(record);
        let r = if save {
            proof {
                assert forall|t: int| 0 <= t < self.game_history@.history.len() implies
                    wf_record_m(#[trigger] self.game_history@.history[t]) by {
                    if t < old(self).game_history@.history.len() {
                        assert(old(self).game_history.wf());
                    }
                }
            }
            Some(self.game_history.save_bytes())
        } else {
            None
        };
        self.gamestate = GameState::EndingSplash;
        r
    }

    /// Restart the round: the same full reset a round start does.
    pub fn handle_game_restart(&mut self, now_ms: i64)
        requires
            old(self).wf(),
            valid_time(now_ms),
        ensures
            final(self).wf(),
            round_start_post(*old(self), *final(self), now_ms),
    {
        self.handle_game_start(now_ms);
    }

    /// Ask the surrounding loop to stop after this event.
    pub fn exit(&mut self)
        requires
            old(self).wf(),
        ensures
            final(self).wf(),
            *final(self) == (MathGame { exit: true, ..*old(self) }),
    {
        self.exit = true;
    }
}

impl Default for MathGame {
    /// A fresh game on the start screen with the stock configuration, a
    /// first question already posed, and an empty, unbound history; the
    /// caller may bind a loaded history afterwards.
    fn default() -> (g: MathGame)
        ensures
            g.wf(),
            g.gamestate == GameState::Setup,
            g.score == 0,
            !g.exit,
            !g.save_failed,
            g.input@ == Seq::<u8>::empty(),
            g.questions@ == Seq::<MathQuestion>::empty(),
            g.answers@ == Seq::<MathAnswer>::empty(),
            g.game_history@.history == Seq::<RecordM>::empty(),
            g.gameconfig.wf(),
            g.gameconfig.timer == 120,
    {
        let config = GameConfiguration::default();
        let first_question = MathQuestion::generate_new_question(&config.qr);
        let now = crate::util::current_time_millis();
        let g = MathGame {
            current_question: first_question,
            exit: false,
            input: Vec::new(),
            score: 0,
            start_time: now,
            current_time: now,
            questions: Vec::new(),
            answers: Vec::new(),
            gamestate: GameState::Setup,
            gameconfig: config,
            result_table_index: 0,
            game_history: GameHistory::default(),
            history_table_index: 0,
            save_failed: false,
        };
        proof {
            assert(g.input@ =~= Seq::<u8>::empty());
            assert(g.questions@ =~= Seq::<MathQuestion>::empty());
            assert(g.answers@ =~= Seq::<MathAnswer>::empty());
        }
        g
    }
}

} // verus!
