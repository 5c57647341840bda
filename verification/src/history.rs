use vstd::prelude::*;

use crate::codec::{
    enc_answer, enc_answer_items, enc_answers, enc_history, enc_question, enc_record,
    enc_record_items, enc_records, push_quoted, push_str, wf_history_m, AnswerM, HistoryM,
    RecordM,
};
use crate::numfmt::push_dec_i64;
use crate::question::{MathAnswer, MathQuestion};
use crate::util::Sign;

verus! {

/// One completed round: when it ended, the score reached, and the closed,
/// timed answers in the order the questions were posed.
#[derive(Clone, Debug)]
pub struct GameRecord {
    pub game_intant: i64,
    pub score: i32,
    pub answers: Vec<MathAnswer>,
}

/// The append-only log of past rounds, bound to the location it is stored
/// at.
#[derive(Clone, Debug)]
pub struct GameHistory {
    pub path: Vec<u8>,
    pub history: Vec<GameRecord>,
}

impl View for MathAnswer {
    type V = AnswerM;

    open spec fn view(&self) -> AnswerM {
        AnswerM {
            q: self.q,
            srep: self.string_representation@,
            dur_s: self.duration_s,
            dur_m: self.duration_m,
        }
    }
}

impl View for GameRecord {
    type V = RecordM;

    open spec fn view(&self) -> RecordM {
        RecordM {
            game_intant: self.game_intant,
            score: self.score,
            answers: self.answers@.map_values(|a: MathAnswer| a@),
        }
    }
}

impl View for GameHistory {
    type V = HistoryM;

    open spec fn view(&self) -> HistoryM {
        HistoryM {
            path: self.path@,
            history: self.history@.map_values(|r: GameRecord| r@),
        }
    }
}

impl GameHistory {
    /// A history whose contents the stored text can carry.
    pub open spec fn wf(self) -> bool {
        wf_history_m(self@)
    }

    /// A fresh, empty history bound to `path`.
    pub fn with_path(path: Vec<u8>) -> (h: GameHistory)
        ensures
            h@.path == path@,
            h@.history == Seq::<RecordM>::empty(),
    {
        let h = GameHistory { path, history: Vec::new() };
        proof {
            assert(h@.history =~= Seq::<RecordM>::empty());
        }
        h
    }

    /// Append one finished round to the in-memory log; nothing is written.
    pub fn add_game_result(&mut self, result: GameRecord)
        ensures
            final(self)@.path == old(self)@.path,
            final(self)@.history == old(self)@.history.push(result@),
    {
        self.history.push(result);
        proof {
            assert(self@.history =~= old(self)@.history.push(result@));
        }
    }

    /// The full stored text of this history, rewritten from scratch; the
    /// caller owns getting it onto disk.
    pub fn save_bytes(&self) -> (r: Vec<u8>)
        requires
            self.wf(),
        ensures
            r@ == enc_history(self@),
    {
        let mut out: Vec<u8> = Vec::new();
        proof {
            reveal_strlit("{\"path\":");
            reveal_strlit(",\"history\":");
            reveal_strlit("}");
        }
        push_str(&mut out, "{\"path\":");
        push_quoted(&mut out, &self.path);
        push_str(&mut out, ",\"history\":");
        proof {
            assert forall|t: int| 0 <= t < self.history@.len() implies crate::codec::wf_record_m(
                (#[trigger] self.history@[t])@,
            ) by {
                assert(self@.history[t] == self.history@[t]@);
            }
        }
        push_records(&mut out, &self.history);
        push_str(&mut out, "}");
        proof {
            assert(out@ =~= enc_history(self@));
        }
        out
    }
}

/// Read a stored round object at `i`, exactly as `parse_record` describes.
#[verifier::rlimit(100)]
fn scan_record(s: &Vec<u8>, i: usize) -> (r: Option<(GameRecord, usize)>)
    requires
        i <= s.len(),
    ensures
        match r {
            Some(rj) => crate::codec::parse_record(s@, i as int) == Some((rj.0@, rj.1 as int))
                && i < rj.1 <= s.len() && crate::codec::wf_record_m(rj.0@),
            None => crate::codec::parse_record(s@, i as int) is None,
        },
{
    proof {
        reveal_strlit("{\"game_intant\":");
        reveal_strlit(",\"score\":");
        reveal_strlit(",\"answers\":");
        reveal_strlit("}");
    }
    let i1 = match crate::codec::scan_tag(s, i, "{\"game_intant\":") {
        Some(j) => j,
        None => {
            return None;
        },
    };
    let (instant, i2) = match crate::codec::scan_num(s, i1) {
        Some(vj) => vj,
        None => {
            return None;
        },
    };
    let i3 = match crate::codec::scan_tag(s, i2, ",\"score\":") {
        Some(j) => j,
        None => {
            return None;
        },
    };
    let (score, i4) = match crate::codec::scan_num32(s, i3) {
        Some(vj) => vj,
        None => {
            return None;
        },
    };
    let i5 = match crate::codec::scan_tag(s, i4, ",\"answers\":") {
        Some(j) => j,
        None => {
            return None;
        },
    };
    let (answers, i6) = match crate::codec::scan_answers(s, i5) {
        Some(vj) => vj,
        None => {
            return None;
        },
    };
    let i7 = match crate::codec::scan_tag(s, i6, "}") {
        Some(j) => j,
        None => {
            return None;
        },
    };
    let rec = GameRecord { game_intant: instant, score, answers };
    Some((rec, i7))
}

/// Read the items of a non-empty stored round list, exactly as
/// `parse_record_items` describes.
fn scan_record_items(s: &Vec<u8>, i: usize) -> (r: Option<(Vec<GameRecord>, usize)>)
    requires
        i <= s.len(),
    ensures
        match r {
            Some(vj) => crate::codec::parse_record_items(s@, i as int) == Some(
                (vj.0@.map_values(|x: GameRecord| x@), vj.1 as int),
            ) && i < vj.1 <= s.len() && (forall|t: int|
                0 <= t < vj.0@.len() ==> crate::codec::wf_record_m((#[trigger] vj.0@[t])@)),
            None => crate::codec::parse_record_items(s@, i as int) is None,
        },
    decreases s.len() - i,
{
    let (rec, j) = match scan_record(s, i) {
        Some(rj) => rj,
        None => {
            return None;
        },
    };
    if j < s.len() && s[j] == 44 {
        match scan_record_items(s, j + 1) {
            Some(vk) => {
                let (rest, k) = vk;
                let ghost rest_view = rest@;
                let mut v = rest;
                v.insert(0, rec);
                proof {
                    assert(v@.map_values(|x: GameRecord| x@) =~= seq![rec@]
                        + rest_view.map_values(|x: GameRecord| x@));
                }
                Some((v, k))
            },
            None => None,
        }
    } else if j < s.len() && s[j] == 93 {
        let mut v: Vec<GameRecord> = Vec::new();
        v.push(rec);
        proof {
            assert(v@.map_values(|x: GameRecord| x@) =~= seq![rec@]);
        }
        Some((v, j + 1))
    } else {
        None
    }
}

/// Read a stored round list at `i`, exactly as `parse_records` describes.
fn scan_records(s: &Vec<u8>, i: usize) -> (r: Option<(Vec<GameRecord>, usize)>)
    requires
        i <= s.len(),
    ensures
        match r {
            Some(vj) => crate::codec::parse_records(s@, i as int) == Some(
                (vj.0@.map_values(|x: GameRecord| x@), vj.1 as int),
            ) && i < vj.1 <= s.len() && (forall|t: int|
                0 <= t < vj.0@.len() ==> crate::codec::wf_record_m((#[trigger] vj.0@[t])@)),
            None => crate::codec::parse_records(s@, i as int) is None,
        },
{
    if i == s.len() || s[i] != 91 {
        proof {
            if i < s@.len() {
                assert(s@.subrange(i as int, i + 1) != seq![91u8]) by {
                    assert(s@.subrange(i as int, i + 1)[0] == s@[i as int]);
                }
            }
        }
        return None;
    }
    proof {
        assert(s@.subrange(i as int, i + 1) =~= seq![91u8]);
    }
    if i + 1 < s.len() && s[i + 1] == 93 {
        proof {
            assert(s@.subrange(i + 1, i + 2) =~= seq![93u8]);
        }
        let v: Vec<GameRecord> = Vec::new();
        proof {
            assert(v@.map_values(|x: GameRecord| x@) =~= Seq::<RecordM>::empty());
        }
        return Some((v, i + 2));
    }
    proof {
        if i + 1 < s@.len() {
            assert(s@.subrange(i + 1, i + 2) != seq![93u8]) by {
                assert(s@.subrange(i + 1, i + 2)[0] == s@[i + 1]);
            }
        }
    }
    scan_record_items(s, i + 1)
}

impl GameHistory {
    /// Rebuild a history from the stored text of the file at `path`: the
    /// recorded rounds are read back and the history is bound to `path`
    /// itself (the stored copy of the path is read and discarded). `None`
    /// exactly when the text is not a stored history document.
    pub fn from_saved_bytes(path: Vec<u8>, bytes: &Vec<u8>) -> (r: Option<GameHistory>)
        requires
            crate::codec::wf_str(path@),
        ensures
            match r {
                Some(h) => {
                    &&& crate::codec::parse_history(bytes@) matches Some(m) && h@.history
                        == m.history
                    &&& h@.path == path@
                    &&& h.wf()
                },
                None => crate::codec::parse_history(bytes@) is None,
            },
    {
        proof {
            reveal_strlit("{\"path\":");
            reveal_strlit(",\"history\":");
            reveal_strlit("}");
        }
        let i1 = match crate::codec::scan_tag(bytes, 0, "{\"path\":") {
            Some(j) => j,
            None => {
                return None;
            },
        };
        let (_stored_path, i2) = match crate::codec::scan_quoted(bytes, i1) {
            Some(vj) => vj,
            None => {
                return None;
            },
        };
        let i3 = match crate::codec::scan_tag(bytes, i2, ",\"history\":") {
            Some(j) => j,
            None => {
                return None;
            },
        };
        let (records, i4) = match scan_records(bytes, i3) {
            Some(vj) => vj,
            None => {
                return None;
            },
        };
        let i5 = match crate::codec::scan_tag(bytes, i4, "}") {
            Some(j) => j,
            None => {
                return None;
            },
        };
        if i5 != bytes.len() {
            return None;
        }
        let h = GameHistory { path, history: records };
        Some(h)
    }
}

impl Default for GameHistory {
    /// The fallback history: empty, bound to no location.
    fn default() -> (h: GameHistory)
        ensures
            h@.path == Seq::<u8>::empty(),
            h@.history == Seq::<RecordM>::empty(),
    {
        let h = GameHistory { path: Vec::new(), history: Vec::new() };
        proof {
            assert(h@.path =~= Seq::<u8>::empty());
            assert(h@.history =~= Seq::<RecordM>::empty());
        }
        h
    }
}

/// Write one stored question object.
#[verifier::rlimit(100)]
fn push_question(out: &mut Vec<u8>, q: &MathQuestion)
    requires
        crate::codec::wf_question_times(*q),
    ensures
        final(out)@ == old(out)@ + enc_question(*q),
{
    proof {
        reveal_strlit("{\"lhs\":");
        reveal_strlit(",\"rhs\":");
        reveal_strlit(",\"answer\":");
        reveal_strlit(",\"sign\":\"");
        reveal_strlit("Add");
        reveal_strlit("Subtract");
        reveal_strlit("Multiply");
        reveal_strlit("Divide");
        reveal_strlit("\",\"question_start\":");
        reveal_strlit(",\"question_answer\":");
        reveal_strlit("null");
        reveal_strlit("}");
    }
    push_str(out, "{\"lhs\":");
    push_dec_i64(out, q.lhs as i64);
    push_str(out, ",\"rhs\":");
    push_dec_i64(out, q.rhs as i64);
    push_str(out, ",\"answer\":");
    push_dec_i64(out, q.answer as i64);
    push_str(out, ",\"sign\":\"");
    match q.sign {
        Sign::Add => push_str(out, "Add"),
        Sign::Subtract => push_str(out, "Subtract"),
        Sign::Multiply => push_str(out, "Multiply"),
        Sign::Divide => push_str(out, "Divide"),
    }
    push_str(out, "\",\"question_start\":");
    push_dec_i64(out, q.question_start);
    push_str(out, ",\"question_answer\":");
    match q.question_answer {
        Some(t) => push_dec_i64(out, t),
        None => push_str(out, "null"),
    }
    push_str(out, "}");
    proof {
        assert(out@ =~= old(out)@ + enc_question(*q));
    }
}

/// Write one stored answer object.
fn push_answer(out: &mut Vec<u8>, a: &MathAnswer)
    requires
        crate::codec::wf_answer_m(a@),
    ensures
        final(out)@ == old(out)@ + enc_answer(a@),
{
    proof {
        reveal_strlit("{\"q\":");
        reveal_strlit(",\"string_representation\":");
        reveal_strlit(",\"duration_s\":");
        reveal_strlit(",\"duration_m\":");
        reveal_strlit("}");
    }
    push_str(out, "{\"q\":");
    push_question(out, &a.q);
    push_str(out, ",\"string_representation\":");
    push_quoted(out, &a.string_representation);
    push_str(out, ",\"duration_s\":");
    push_dec_i64(out, a.duration_s);
    push_str(out, ",\"duration_m\":");
    push_dec_i64(out, a.duration_m);
    push_str(out, "}");
    proof {
        assert(out@ =~= old(out)@ + enc_answer(a@));
    }
}

/// Write the items of a non-empty answer list, from `i` on.
fn push_answer_items(out: &mut Vec<u8>, v: &Vec<MathAnswer>, i: usize)
    requires
        i < v.len(),
        forall|t: int| 0 <= t < v@.len() ==> crate::codec::wf_answer_m((#[trigger] v@[t])@),
    ensures
        final(out)@ == old(out)@ + enc_answer_items(
            v@.map_values(|a: MathAnswer| a@).subrange(i as int, v@.len() as int),
        ),
    decreases v.len() - i,
{
    let ghost tail = v@.map_values(|a: MathAnswer| a@).subrange(i as int, v@.len() as int);
    push_answer(out, &v[i]);
    if i + 1 < v.len() {
        out.push(44);
        push_answer_items(out, v, i + 1);
        proof {
            assert(tail.subrange(1, tail.len() as int) =~= v@.map_values(
                |a: MathAnswer| a@,
            ).subrange(i as int + 1, v@.len() as int));
            assert(out@ =~= old(out)@ + enc_answer_items(tail));
        }
    } else {
        proof {
            assert(tail.len() == 1);
            assert(tail[0] == v@.map_values(|a: MathAnswer| a@)[i as int]);
            assert(out@ =~= old(out)@ + enc_answer_items(tail));
        }
    }
}

/// Write a stored answer list.
fn push_answers(out: &mut Vec<u8>, v: &Vec<MathAnswer>)
    requires
        forall|t: int| 0 <= t < v@.len() ==> crate::codec::wf_answer_m((#[trigger] v@[t])@),
    ensures
        final(out)@ == old(out)@ + enc_answers(v@.map_values(|a: MathAnswer| a@)),
{
    out.push(91);
    if v.len() > 0 {
        push_answer_items(out, v, 0);
        proof {
            assert(v@.map_values(|a: MathAnswer| a@).subrange(0, v@.len() as int) =~= v@.map_values(
                |a: MathAnswer| a@,
            ));
        }
    }
    out.push(93);
    proof {
        assert(out@ =~= old(out)@ + enc_answers(v@.map_values(|a: MathAnswer| a@)));
    }
}

/// Write one stored round object.
fn push_record(out: &mut Vec<u8>, r: &GameRecord)
    requires
        crate::codec::wf_record_m(r@),
    ensures
        final(out)@ == old(out)@ + enc_record(r@),
{
    proof {
        reveal_strlit("{\"game_intant\":");
        reveal_strlit(",\"score\":");
        reveal_strlit(",\"answers\":");
        reveal_strlit("}");
    }
    push_str(out, "{\"game_intant\":");
    push_dec_i64(out, r.game_intant);
    push_str(out, ",\"score\":");
    push_dec_i64(out, r.score as i64);
    push_str(out, ",\"answers\":");
    proof {
        assert forall|t: int| 0 <= t < r.answers@.len() implies crate::codec::wf_answer_m(
            (#[trigger] r.answers@[t])@,
        ) by {
            assert(r@.answers[t] == r.answers@[t]@);
        }
    }
    push_answers(out, &r.answers);
    push_str(out, "}");
    proof {
        assert(out@ =~= old(out)@ + enc_record(r@));
    }
}

/// Write the items of a non-empty round list, from `i` on.
fn push_record_items(out: &mut Vec<u8>, v: &Vec<GameRecord>, i: usize)
    requires
        i < v.len(),
        forall|t: int| 0 <= t < v@.len() ==> crate::codec::wf_record_m((#[trigger] v@[t])@),
    ensures
        final(out)@ == old(out)@ + enc_record_items(
            v@.map_values(|r: GameRecord| r@).subrange(i as int, v@.len() as int),
        ),
    decreases v.len() - i,
{
    let ghost tail = v@.map_values(|r: GameRecord| r@).subrange(i as int, v@.len() as int);
    push_record(out, &v[i]);
    if i + 1 < v.len() {
        out.push(44);
        push_record_items(out, v, i + 1);
        proof {
            assert(tail.subrange(1, tail.len() as int) =~= v@.map_values(
                |r: GameRecord| r@,
            ).subrange(i as int + 1, v@.len() as int));
            assert(out@ =~= old(out)@ + enc_record_items(tail));
        }
    } else {
        proof {
            assert(tail.len() == 1);
            assert(tail[0] == v@.map_values(|r: GameRecord| r@)[i as int]);
            assert(out@ =~= old(out)@ + enc_record_items(tail));
        }
    }
}

/// Write a stored round list.
fn push_records(out: &mut Vec<u8>, v: &Vec<GameRecord>)
    requires
        forall|t: int| 0 <= t < v@.len() ==> crate::codec::wf_record_m((#[trigger] v@[t])@),
    ensures
        final(out)@ == old(out)@ + enc_records(v@.map_values(|r: GameRecord| r@)),
{
    out.push(91);
    if v.len() > 0 {
        push_record_items(out, v, 0);
        proof {
            assert(v@.map_values(|r: GameRecord| r@).subrange(0, v@.len() as int) =~= v@.map_values(
                |r: GameRecord| r@,
            ));
        }
    }
    out.push(93);
    proof {
        assert(out@ =~= old(out)@ + enc_records(v@.map_values(|r: GameRecord| r@)));
    }
}

} // verus!
