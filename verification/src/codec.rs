use vstd::prelude::*;

use crate::numfmt::{dec_i, dec_u, parse_i64};
use crate::question::MathQuestion;
use crate::util::Sign;

verus! {

// ---------------------------------------------------------------------------
// Mathematical models of the persisted data
// ---------------------------------------------------------------------------
/// Model of a closed, timed answer.
#[verifier::ext_equal]
pub ghost struct AnswerM {
    pub q: MathQuestion,
    pub srep: Seq<u8>,
    pub dur_s: i64,
    pub dur_m: i64,
}

/// Model of one completed round.
#[verifier::ext_equal]
pub ghost struct RecordM {
    pub game_intant: i64,
    pub score: i32,
    pub answers: Seq<AnswerM>,
}

/// Model of the whole persisted history.
#[verifier::ext_equal]
pub ghost struct HistoryM {
    pub path: Seq<u8>,
    pub history: Seq<RecordM>,
}

// ---------------------------------------------------------------------------
// What the stored text can carry
// ---------------------------------------------------------------------------
/// A byte a stored string may hold: printable ASCII, no quote, no backslash,
/// so the text between two quotes is exactly the string.
pub open spec fn wf_str_byte(b: u8) -> bool {
    32 <= b <= 126 && b != 34 && b != 92
}

/// A storable string.
pub open spec fn wf_str(s: Seq<u8>) -> bool {
    forall|i: int| 0 <= i < s.len() ==> wf_str_byte(#[trigger] s[i])
}

/// A storable number: its magnitude fits an `i64` (so in particular it can
/// be negated when it is read back).
pub open spec fn wf_num(n: int) -> bool {
    -(i64::MAX as int) <= n <= i64::MAX as int
}

/// A question whose timestamps can be negated when read back.
pub open spec fn wf_question_times(q: MathQuestion) -> bool {
    &&& q.question_start != i64::MIN
    &&& match q.question_answer {
        Some(t) => t != i64::MIN,
        None => true,
    }
}

pub open spec fn wf_answer_m(a: AnswerM) -> bool {
    &&& wf_question_times(a.q)
    &&& wf_str(a.srep)
    &&& a.dur_s != i64::MIN
    &&& a.dur_m != i64::MIN
}

pub open spec fn wf_record_m(r: RecordM) -> bool {
    &&& r.game_intant != i64::MIN
    &&& forall|i: int| 0 <= i < r.answers.len() ==> wf_answer_m(#[trigger] r.answers[i])
}

pub open spec fn wf_history_m(h: HistoryM) -> bool {
    &&& wf_str(h.path)
    &&& forall|i: int| 0 <= i < h.history.len() ==> wf_record_m(#[trigger] h.history[i])
}

// ---------------------------------------------------------------------------
// The stored text itself
// ---------------------------------------------------------------------------
/// Bytes of an ASCII string, one per character.
pub open spec fn str_bytes(s: Seq<char>) -> Seq<u8> {
    Seq::new(s.len(), |i: int| s[i] as u8)
}

/// A string field: its bytes between two quotes.
pub open spec fn enc_str(s: Seq<u8>) -> Seq<u8> {
    seq![34u8] + s + seq![34u8]
}

/// An optional timestamp: its digits, or `null`.
pub open spec fn enc_opt(o: Option<i64>) -> Seq<u8> {
    match o {
        Some(v) => dec_i(v as int),
        None => str_bytes("null"@),
    }
}

/// Name under which an operation is stored.
pub open spec fn sign_name(sign: Sign) -> Seq<char> {
    match sign {
        Sign::Add => "Add"@,
        Sign::Subtract => "Subtract"@,
        Sign::Multiply => "Multiply"@,
        Sign::Divide => "Divide"@,
    }
}

/// A stored question object.
pub open spec fn enc_question(q: MathQuestion) -> Seq<u8> {
    str_bytes("{\"lhs\":"@) + dec_i(q.lhs as int) + str_bytes(",\"rhs\":"@) + dec_i(q.rhs as int)
        + str_bytes(",\"answer\":"@) + dec_i(q.answer as int) + str_bytes(",\"sign\":\""@)
        + str_bytes(sign_name(q.sign)) + str_bytes("\",\"question_start\":"@) + dec_i(
        q.question_start as int,
    ) + str_bytes(",\"question_answer\":"@) + enc_opt(q.question_answer) + str_bytes("}"@)
}

/// A stored answer object.
pub open spec fn enc_answer(a: AnswerM) -> Seq<u8> {
    str_bytes("{\"q\":"@) + enc_question(a.q) + str_bytes(",\"string_representation\":"@)
        + enc_str(a.srep) + str_bytes(",\"duration_s\":"@) + dec_i(a.dur_s as int) + str_bytes(
        ",\"duration_m\":"@,
    ) + dec_i(a.dur_m as int) + str_bytes("}"@)
}

/// The comma-separated items of a non-empty answer list.
pub open spec fn enc_answer_items(s: Seq<AnswerM>) -> Seq<u8>
    decreases s.len(),
{
    if s.len() <= 1 {
        if s.len() == 0 {
            Seq::empty()
        } else {
            enc_answer(s[0])
        }
    } else {
        enc_answer(s[0]) + seq![44u8] + enc_answer_items(s.subrange(1, s.len() as int))
    }
}

/// A stored answer list.
pub open spec fn enc_answers(s: Seq<AnswerM>) -> Seq<u8> {
    seq![91u8] + enc_answer_items(s) + seq![93u8]
}

/// A stored round object.
pub open spec fn enc_record(r: RecordM) -> Seq<u8> {
    str_bytes("{\"game_intant\":"@) + dec_i(r.game_intant as int) + str_bytes(",\"score\":"@)
        + dec_i(r.score as int) + str_bytes(",\"answers\":"@) + enc_answers(r.answers)
        + str_bytes("}"@)
}

/// The comma-separated items of a non-empty round list.
pub open spec fn enc_record_items(s: Seq<RecordM>) -> Seq<u8>
    decreases s.len(),
{
    if s.len() <= 1 {
        if s.len() == 0 {
            Seq::empty()
        } else {
            enc_record(s[0])
        }
    } else {
        enc_record(s[0]) + seq![44u8] + enc_record_items(s.subrange(1, s.len() as int))
    }
}

/// A stored round list.
pub open spec fn enc_records(s: Seq<RecordM>) -> Seq<u8> {
    seq![91u8] + enc_record_items(s) + seq![93u8]
}

/// The whole stored document.
pub open spec fn enc_history(h: HistoryM) -> Seq<u8> {
    str_bytes("{\"path\":"@) + enc_str(h.path) + str_bytes(",\"history\":"@) + enc_records(
        h.history,
    ) + str_bytes("}"@)
}

// ---------------------------------------------------------------------------
// Reading the stored text back
// ---------------------------------------------------------------------------
/// Position after `tag` when it stands at `i`.
pub open spec fn expect(s: Seq<u8>, i: int, tag: Seq<u8>) -> Option<int> {
    if 0 <= i && i + tag.len() <= s.len() && s.subrange(i, i + tag.len() as int) == tag {
        Some(i + tag.len() as int)
    } else {
        None
    }
}

/// First position at or after `i` holding a quote.
pub open spec fn str_end(s: Seq<u8>, i: int) -> int
    decreases s.len() - i,
{
    if i < s.len() {
        if s[i] == 34 {
            i
        } else {
            str_end(s, i + 1)
        }
    } else {
        i
    }
}

/// A quoted storable string at `i`: its content and the position after the
/// closing quote.
pub open spec fn parse_str(s: Seq<u8>, i: int) -> Option<(Seq<u8>, int)> {
    if 0 <= i < s.len() && s[i] == 34 {
        let j = str_end(s, i + 1);
        if j < s.len() && wf_str(s.subrange(i + 1, j)) {
            Some((s.subrange(i + 1, j), j + 1))
        } else {
            None
        }
    } else {
        None
    }
}

/// A stored number at `i`.
pub open spec fn parse_num(s: Seq<u8>, i: int) -> Option<(i64, int)> {
    match parse_i64(s, i) {
        Some(vj) => Some((vj.0 as i64, vj.1)),
        None => None,
    }
}

/// A stored number at `i` that fits an `i32`.
pub open spec fn parse_num32(s: Seq<u8>, i: int) -> Option<(i32, int)> {
    match parse_i64(s, i) {
        Some(vj) => if i32::MIN <= vj.0 <= i32::MAX {
            Some((vj.0 as i32, vj.1))
        } else {
            None
        },
        None => None,
    }
}

/// A stored optional timestamp at `i`: `null`, or a number.
pub open spec fn parse_opt(s: Seq<u8>, i: int) -> Option<(Option<i64>, int)> {
    match expect(s, i, str_bytes("null"@)) {
        Some(j) => Some((None, j)),
        None => match parse_num(s, i) {
            Some(vj) => Some((Some(vj.0), vj.1)),
            None => None,
        },
    }
}

/// A stored operation name at `i`.
pub open spec fn parse_sign(s: Seq<u8>, i: int) -> Option<(Sign, int)> {
    match expect(s, i, str_bytes("Add"@)) {
        Some(j) => Some((Sign::Add, j)),
        None => match expect(s, i, str_bytes("Subtract"@)) {
            Some(j) => Some((Sign::Subtract, j)),
            None => match expect(s, i, str_bytes("Multiply"@)) {
                Some(j) => Some((Sign::Multiply, j)),
                None => match expect(s, i, str_bytes("Divide"@)) {
                    Some(j) => Some((Sign::Divide, j)),
                    None => None,
                },
            },
        },
    }
}

/// A stored question object at `i`.
pub open spec fn parse_question(s: Seq<u8>, i: int) -> Option<(MathQuestion, int)> {
    match expect(s, i, str_bytes("{\"lhs\":"@)) {
        None => None,
        Some(i1) => match parse_num32(s, i1) {
            None => None,
            Some((lhs, i2)) => match expect(s, i2, str_bytes(",\"rhs\":"@)) {
                None => None,
                Some(i3) => match parse_num32(s, i3) {
                    None => None,
                    Some((rhs, i4)) => match expect(s, i4, str_bytes(",\"answer\":"@)) {
                        None => None,
                        Some(i5) => match parse_num32(s, i5) {
                            None => None,
                            Some((answer, i6)) => match expect(
                                s,
                                i6,
                                str_bytes(",\"sign\":\""@),
                            ) {
                                None => None,
                                Some(i7) => match parse_sign(s, i7) {
                                    None => None,
                                    Some((sign, i8)) => match expect(
                                        s,
                                        i8,
                                        str_bytes("\",\"question_start\":"@),
                                    ) {
                                        None => None,
                                        Some(i9) => match parse_num(s, i9) {
                                            None => None,
                                            Some((start, i10)) => match expect(
                                                s,
                                                i10,
                                                str_bytes(",\"question_answer\":"@),
                                            ) {
                                                None => None,
                                                Some(i11) => match parse_opt(s, i11) {
                                                    None => None,
                                                    Some((qa, i12)) => match expect(
                                                        s,
                                                        i12,
                                                        str_bytes("}"@),
                                                    ) {
                                                        None => None,
                                                        Some(i13) => Some(
                                                            (
                                                                MathQuestion {
                                                                    lhs,
                                                                    rhs,
                                                                    answer,
                                                                    sign,
                                                                    question_start: start,
                                                                    question_answer: qa,
                                                                },
                                                                i13,
                                                            ),
                                                        ),
                                                    },
                                                },
                                            },
                                        },
                                    },
                                },
                            },
                        },
                    },
                },
            },
        },
    }
}

/// A stored answer object at `i`.
pub open spec fn parse_answer(s: Seq<u8>, i: int) -> Option<(AnswerM, int)> {
    match expect(s, i, str_bytes("{\"q\":"@)) {
        None => None,
        Some(i1) => match parse_question(s, i1) {
            None => None,
            Some((q, i2)) => match expect(s, i2, str_bytes(",\"string_representation\":"@)) {
                None => None,
                Some(i3) => match parse_str(s, i3) {
                    None => None,
                    Some((srep, i4)) => match expect(s, i4, str_bytes(",\"duration_s\":"@)) {
                        None => None,
                        Some(i5) => match parse_num(s, i5) {
                            None => None,
                            Some((dur_s, i6)) => match expect(
                                s,
                                i6,
                                str_bytes(",\"duration_m\":"@),
                            ) {
                                None => None,
                                Some(i7) => match parse_num(s, i7) {
                                    None => None,
                                    Some((dur_m, i8)) => match expect(s, i8, str_bytes("}"@)) {
                                        None => None,
                                        Some(i9) => Some(
                                            (AnswerM { q, srep, dur_s, dur_m }, i9),
                                        ),
                                    },
                                },
                            },
                        },
                    },
                },
            },
        },
    }
}

/// The items of a non-empty stored answer list, from `i` to just past the
/// closing bracket.
pub open spec fn parse_answer_items(s: Seq<u8>, i: int) -> Option<(Seq<AnswerM>, int)>
    decreases s.len() - i,
{
    match parse_answer(s, i) {
        None => None,
        Some((a, j)) => if !(i < j <= s.len()) {
            None
        } else if j < s.len() && s[j] == 44 {
            match parse_answer_items(s, j + 1) {
                None => None,
                Some((rest, k)) => Some((seq![a] + rest, k)),
            }
        } else if j < s.len() && s[j] == 93 {
            Some((seq![a], j + 1))
        } else {
            None
        },
    }
}

/// A stored answer list at `i`.
pub open spec fn parse_answers(s: Seq<u8>, i: int) -> Option<(Seq<AnswerM>, int)> {
    match expect(s, i, seq![91u8]) {
        None => None,
        Some(j) => match expect(s, j, seq![93u8]) {
            Some(k) => Some((Seq::<AnswerM>::empty(), k)),
            None => parse_answer_items(s, j),
        },
    }
}

/// A stored round object at `i`.
pub open spec fn parse_record(s: Seq<u8>, i: int) -> Option<(RecordM, int)> {
    match expect(s, i, str_bytes("{\"game_intant\":"@)) {
        None => None,
        Some(i1) => match parse_num(s, i1) {
            None => None,
            Some((instant, i2)) => match expect(s, i2, str_bytes(",\"score\":"@)) {
                None => None,
                Some(i3) => match parse_num32(s, i3) {
                    None => None,
                    Some((score, i4)) => match expect(s, i4, str_bytes(",\"answers\":"@)) {
                        None => None,
                        Some(i5) => match parse_answers(s, i5) {
                            None => None,
                            Some((answers, i6)) => match expect(s, i6, str_bytes("}"@)) {
                                None => None,
                                Some(i7) => Some(
                                    (RecordM { game_intant: instant, score, answers }, i7),
                                ),
                            },
                        },
                    },
                },
            },
        },
    }
}

/// The items of a non-empty stored round list, from `i` to just past the
/// closing bracket.
pub open spec fn parse_record_items(s: Seq<u8>, i: int) -> Option<(Seq<RecordM>, int)>
    decreases s.len() - i,
{
    match parse_record(s, i) {
        None => None,
        Some((r, j)) => if !(i < j <= s.len()) {
            None
        } else if j < s.len() && s[j] == 44 {
            match parse_record_items(s, j + 1) {
                None => None,
                Some((rest, k)) => Some((seq![r] + rest, k)),
            }
        } else if j < s.len() && s[j] == 93 {
            Some((seq![r], j + 1))
        } else {
            None
        },
    }
}

/// A stored round list at `i`.
pub open spec fn parse_records(s: Seq<u8>, i: int) -> Option<(Seq<RecordM>, int)> {
    match expect(s, i, seq![91u8]) {
        None => None,
        Some(j) => match expect(s, j, seq![93u8]) {
            Some(k) => Some((Seq::<RecordM>::empty(), k)),
            None => parse_record_items(s, j),
        },
    }
}

/// A whole stored document. The stored path is read and discarded by the
/// loader, which re-binds the history to the location it actually read.
pub open spec fn parse_history(s: Seq<u8>) -> Option<HistoryM> {
    match expect(s, 0, str_bytes("{\"path\":"@)) {
        None => None,
        Some(i1) => match parse_str(s, i1) {
            None => None,
            Some((path, i2)) => match expect(s, i2, str_bytes(",\"history\":"@)) {
                None => None,
                Some(i3) => match parse_records(s, i3) {
                    None => None,
                    Some((recs, i4)) => match expect(s, i4, str_bytes("}"@)) {
                        None => None,
                        Some(i5) => if i5 == s.len() {
                            Some(HistoryM { path, history: recs })
                        } else {
                            None
                        },
                    },
                },
            },
        },
    }
}

/// A formatted number is storable text.
pub proof fn lemma_dec_i_wf(n: int)
    ensures
        forall|i: int| 0 <= i < dec_i(n).len() ==> wf_str_byte(#[trigger] dec_i(n)[i]),
{
    if n < 0 {
        crate::numfmt::lemma_dec_u_digits((-n) as nat);
        assert forall|i: int| 0 <= i < dec_i(n).len() implies wf_str_byte(dec_i(n)[i]) by {
            if i > 0 {
                assert(dec_i(n)[i] == dec_u((-n) as nat)[i - 1]);
            }
        }
    } else {
        crate::numfmt::lemma_dec_u_digits(n as nat);
        assert forall|i: int| 0 <= i < dec_i(n).len() implies wf_str_byte(dec_i(n)[i]) by {
            assert(dec_i(n)[i] == dec_u(n as nat)[i]);
        }
    }
}

/// A question's rendered text is storable.
pub proof fn lemma_srep_wf(q: MathQuestion)
    ensures
        wf_str(crate::question::srep_of(q)),
{
    let a = dec_i(q.lhs as int);
    let mid = seq![32u8, crate::question::sign_byte(q.sign), 32u8];
    let b = dec_i(q.rhs as int);
    lemma_dec_i_wf(q.lhs as int);
    lemma_dec_i_wf(q.rhs as int);
    assert(wf_str_byte(crate::question::sign_byte(q.sign)));
    assert forall|i: int| 0 <= i < crate::question::srep_of(q).len() implies wf_str_byte(
        #[trigger] crate::question::srep_of(q)[i],
    ) by {
        if i < a.len() {
            assert(crate::question::srep_of(q)[i] == a[i]);
        } else if i < a.len() + 3 {
            assert(crate::question::srep_of(q)[i] == mid[i - a.len()]);
        } else {
            assert(crate::question::srep_of(q)[i] == b[i - a.len() - 3]);
        }
    }
}

// ---------------------------------------------------------------------------
// Byte-building helpers for the writers
// ---------------------------------------------------------------------------
/// Append the bytes of an ASCII string slice to `out`.
pub fn push_str(out: &mut Vec<u8>, s: &str)
    requires
        s.is_ascii(),
    ensures
        final(out)@ == old(out)@ + str_bytes(s@),
{
    let n = s.unicode_len();
    let mut k: usize = 0;
    while k < n
        invariant
            s.is_ascii(),
            n == s@.len(),
            0 <= k <= n,
            out@ == old(out)@ + str_bytes(s@).subrange(0, k as int),
        decreases n - k,
    {
        let b = s.get_ascii(k);
        out.push(b);
        assert(out@ =~= old(out)@ + str_bytes(s@).subrange(0, k as int + 1));
        k = k + 1;
    }
    assert(str_bytes(s@).subrange(0, n as int) =~= str_bytes(s@));
}

/// Append a quoted string field to `out`.
pub fn push_quoted(out: &mut Vec<u8>, s: &Vec<u8>)
    ensures
        final(out)@ == old(out)@ + enc_str(s@),
{
    out.push(34);
    assert(out@ =~= old(out)@ + seq![34u8] + s@.subrange(0, 0));
    let mut k: usize = 0;
    while k < s.len()
        invariant
            0 <= k <= s.len(),
            out@ == old(out)@ + seq![34u8] + s@.subrange(0, k as int),
        decreases s.len() - k,
    {
        out.push(s[k]);
        assert(out@ =~= old(out)@ + seq![34u8] + s@.subrange(0, k as int + 1));
        k = k + 1;
    }
    out.push(34);
    assert(out@ =~= old(out)@ + enc_str(s@));
}

/// Read `tag` at `i`, exactly as `expect` describes.
#[verifier::loop_isolation(false)]
pub fn scan_tag(s: &Vec<u8>, i: usize, tag: &str) -> (r: Option<usize>)
    requires
        tag.is_ascii(),
        i <= s.len(),
    ensures
        match r {
            Some(j) => expect(s@, i as int, str_bytes(tag@)) == Some(j as int) && j as int == i
                + str_bytes(tag@).len() && i <= j <= s.len(),
            None => expect(s@, i as int, str_bytes(tag@)) is None,
        },
{
    let n = tag.unicode_len();
    if n > s.len() - i {
        return None;
    }
    let mut k: usize = 0;
    while k < n
        invariant
            0 <= k <= n,
            forall|t: int| 0 <= t < k ==> s@[i + t] == str_bytes(tag@)[t],
        decreases n - k,
    {
        let b = tag.get_ascii(k);
        if s[i + k] != b {
            proof {
                assert(s@.subrange(i as int, i + n as int)[k as int] != str_bytes(tag@)[k as int]);
            }
            return None;
        }
        k = k + 1;
    }
    proof {
        assert(s@.subrange(i as int, i + n as int) =~= str_bytes(tag@));
    }
    Some(i + n)
}

/// Read a quoted storable string at `i`, exactly as `parse_str` describes.
#[verifier::loop_isolation(false)]
pub fn scan_quoted(s: &Vec<u8>, i: usize) -> (r: Option<(Vec<u8>, usize)>)
    requires
        i <= s.len(),
    ensures
        match r {
            Some(vj) => parse_str(s@, i as int) == Some((vj.0@, vj.1 as int)) && i < vj.1
                <= s.len(),
            None => parse_str(s@, i as int) is None,
        },
{
    if i == s.len() || s[i] != 34 {
        return None;
    }
    let mut k: usize = i + 1;
    let mut content: Vec<u8> = Vec::new();
    loop
        invariant
            i + 1 <= k <= s.len(),
            forall|t: int| i + 1 <= t < k ==> s@[t] != 34 && wf_str_byte(#[trigger] s@[t]),
            content@ == s@.subrange(i + 1, k as int),
            str_end(s@, i + 1) == str_end(s@, k as int),
        decreases s.len() - k,
    {
        if k == s.len() {
            proof {
                assert(str_end(s@, k as int) == k);
            }
            return None;
        }
        let b = s[k];
        if b == 34 {
            proof {
                assert(str_end(s@, k as int) == k);
                assert(s@.subrange(i + 1, k as int) == content@);
            }
            return Some((content, k + 1));
        }
        proof {
            assert(str_end(s@, k as int) == str_end(s@, k + 1));
            assert(str_end(s@, k + 1) >= k + 1) by {
                lemma_str_end_in_range(s@, k + 1);
            }
        }
        if !(32 <= b && b <= 126) || b == 92 {
            proof {
                let j = str_end(s@, i + 1);
                assert(j >= k + 1);
                assert(!wf_str_byte(s@[k as int]));
                if j < s@.len() {
                    assert(s@.subrange(i + 1, j)[k - (i + 1)] == s@[k as int]);
                    assert(!wf_str(s@.subrange(i + 1, j)));
                }
            }
            return None;
        }
        content.push(b);
        proof {
            assert(content@ =~= s@.subrange(i + 1, k + 1));
        }
        k = k + 1;
    }
}

/// The first quote at or after `i` lies between `i` and the end.
pub proof fn lemma_str_end_in_range(s: Seq<u8>, i: int)
    requires
        0 <= i <= s.len(),
    ensures
        i <= str_end(s, i) <= s.len(),
    decreases s.len() - i,
{
    if i < s.len() && s[i] != 34 {
        lemma_str_end_in_range(s, i + 1);
    }
}

/// Read a stored number at `i`, exactly as `parse_num` describes.
pub fn scan_num(s: &Vec<u8>, i: usize) -> (r: Option<(i64, usize)>)
    requires
        i <= s.len(),
    ensures
        match r {
            Some(vj) => parse_num(s@, i as int) == Some((vj.0, vj.1 as int)) && i < vj.1
                <= s.len(),
            None => parse_num(s@, i as int) is None,
        },
{
    match crate::numfmt::scan_i64(s, i) {
        Some(vj) => Some((vj.0, vj.1)),
        None => None,
    }
}

/// Read a stored `i32` at `i`, exactly as `parse_num32` describes.
pub fn scan_num32(s: &Vec<u8>, i: usize) -> (r: Option<(i32, usize)>)
    requires
        i <= s.len(),
    ensures
        match r {
            Some(vj) => parse_num32(s@, i as int) == Some((vj.0, vj.1 as int)) && i < vj.1
                <= s.len(),
            None => parse_num32(s@, i as int) is None,
        },
{
    match crate::numfmt::scan_i64(s, i) {
        Some(vj) => if -2_147_483_648 <= vj.0 && vj.0 <= 2_147_483_647 {
            Some((vj.0 as i32, vj.1))
        } else {
            None
        },
        None => None,
    }
}

/// Read a stored optional timestamp at `i`, exactly as `parse_opt`
/// describes.
pub fn scan_opt(s: &Vec<u8>, i: usize) -> (r: Option<(Option<i64>, usize)>)
    requires
        i <= s.len(),
    ensures
        match r {
            Some(vj) => parse_opt(s@, i as int) == Some((vj.0, vj.1 as int)) && i < vj.1
                <= s.len(),
            None => parse_opt(s@, i as int) is None,
        },
{
    proof {
        reveal_strlit("null");
    }
    match scan_tag(s, i, "null") {
        Some(j) => Some((None, j)),
        None => match scan_num(s, i) {
            Some(vj) => Some((Some(vj.0), vj.1)),
            None => None,
        },
    }
}

/// Read a stored operation name at `i`, exactly as `parse_sign` describes.
pub fn scan_sign(s: &Vec<u8>, i: usize) -> (r: Option<(Sign, usize)>)
    requires
        i <= s.len(),
    ensures
        match r {
            Some(vj) => parse_sign(s@, i as int) == Some((vj.0, vj.1 as int)) && i < vj.1
                <= s.len(),
            None => parse_sign(s@, i as int) is None,
        },
{
    proof {
        reveal_strlit("Add");
        reveal_strlit("Subtract");
        reveal_strlit("Multiply");
        reveal_strlit("Divide");
    }
    match scan_tag(s, i, "Add") {
        Some(j) => Some((Sign::Add, j)),
        None => match scan_tag(s, i, "Subtract") {
            Some(j) => Some((Sign::Subtract, j)),
            None => match scan_tag(s, i, "Multiply") {
                Some(j) => Some((Sign::Multiply, j)),
                None => match scan_tag(s, i, "Divide") {
                    Some(j) => Some((Sign::Divide, j)),
                    None => None,
                },
            },
        },
    }
}

/// Read a stored question object at `i`, exactly as `parse_question`
/// describes.
#[verifier::rlimit(100)]
pub fn scan_question(s: &Vec<u8>, i: usize) -> (r: Option<(MathQuestion, usize)>)
    requires
        i <= s.len(),
    ensures
        match r {
            Some(qj) => parse_question(s@, i as int) == Some((qj.0, qj.1 as int)) && i < qj.1
                <= s.len() && wf_question_times(qj.0),
            None => parse_question(s@, i as int) is None,
        },
{
    proof {
        reveal_strlit("{\"lhs\":");
        reveal_strlit(",\"rhs\":");
        reveal_strlit(",\"answer\":");
        reveal_strlit(",\"sign\":\"");
        reveal_strlit("\",\"question_start\":");
        reveal_strlit(",\"question_answer\":");
        reveal_strlit("}");
    }
    let i1 = match scan_tag(s, i, "{\"lhs\":") {
        Some(j) => j,
        None => {
            return None;
        },
    };
    let (lhs, i2) = match scan_num32(s, i1) {
        Some(vj) => vj,
        None => {
            return None;
        },
    };
    let i3 = match scan_tag(s, i2, ",\"rhs\":") {
        Some(j) => j,
        None => {
            return None;
        },
    };
    let (rhs, i4) = match scan_num32(s, i3) {
        Some(vj) => vj,
        None => {
            return None;
        },
    };
    let i5 = match scan_tag(s, i4, ",\"answer\":") {
        Some(j) => j,
        None => {
            return None;
        },
    };
    let (answer, i6) = match scan_num32(s, i5) {
        Some(vj) => vj,
        None => {
            return None;
        },
    };
    let i7 = match scan_tag(s, i6, ",\"sign\":\"") {
        Some(j) => j,
        None => {
            return None;
        },
    };
    let (sign, i8) = match scan_sign(s, i7) {
        Some(vj) => vj,
        None => {
            return None;
        },
    };
    let i9 = match scan_tag(s, i8, "\",\"question_start\":") {
        Some(j) => j,
        None => {
            return None;
        },
    };
    let (start, i10) = match scan_num(s, i9) {
        Some(vj) => vj,
        None => {
            return None;
        },
    };
    let i11 = match scan_tag(s, i10, ",\"question_answer\":") {
        Some(j) => j,
        None => {
            return None;
        },
    };
    let (qa, i12) = match scan_opt(s, i11) {
        Some(vj) => vj,
        None => {
            return None;
        },
    };
    let i13 = match scan_tag(s, i12, "}") {
        Some(j) => j,
        None => {
            return None;
        },
    };
    Some(
        (
            MathQuestion {
                lhs,
                rhs,
                answer,
                sign,
                question_start: start,
                question_answer: qa,
            },
            i13,
        ),
    )
}

/// Read a stored answer object at `i`, exactly as `parse_answer` describes.
#[verifier::rlimit(100)]
pub fn scan_answer(s: &Vec<u8>, i: usize) -> (r: Option<(crate::question::MathAnswer, usize)>)
    requires
        i <= s.len(),
    ensures
        match r {
            Some(aj) => parse_answer(s@, i as int) == Some((aj.0@, aj.1 as int)) && i < aj.1
                <= s.len() && wf_answer_m(aj.0@),
            None => parse_answer(s@, i as int) is None,
        },
{
    proof {
        reveal_strlit("{\"q\":");
        reveal_strlit(",\"string_representation\":");
        reveal_strlit(",\"duration_s\":");
        reveal_strlit(",\"duration_m\":");
        reveal_strlit("}");
    }
    let i1 = match scan_tag(s, i, "{\"q\":") {
        Some(j) => j,
        None => {
            return None;
        },
    };
    let (q, i2) = match scan_question(s, i1) {
        Some(qj) => qj,
        None => {
            return None;
        },
    };
    let i3 = match scan_tag(s, i2, ",\"string_representation\":") {
        Some(j) => j,
        None => {
            return None;
        },
    };
    let (srep, i4) = match scan_quoted(s, i3) {
        Some(vj) => vj,
        None => {
            return None;
        },
    };
    let i5 = match scan_tag(s, i4, ",\"duration_s\":") {
        Some(j) => j,
        None => {
            return None;
        },
    };
    let (dur_s, i6) = match scan_num(s, i5) {
        Some(vj) => vj,
        None => {
            return None;
        },
    };
    let i7 = match scan_tag(s, i6, ",\"duration_m\":") {
        Some(j) => j,
        None => {
            return None;
        },
    };
    let (dur_m, i8) = match scan_num(s, i7) {
        Some(vj) => vj,
        None => {
            return None;
        },
    };
    let i9 = match scan_tag(s, i8, "}") {
        Some(j) => j,
        None => {
            return None;
        },
    };
    let a = crate::question::MathAnswer {
        q,
        string_representation: srep,
        duration_s: dur_s,
        duration_m: dur_m,
    };
    Some((a, i9))
}

/// Read the items of a non-empty stored answer list, exactly as
/// `parse_answer_items` describes.
pub fn scan_answer_items(s: &Vec<u8>, i: usize) -> (r: Option<
    (Vec<crate::question::MathAnswer>, usize),
>)
    requires
        i <= s.len(),
    ensures
        match r {
            Some(vj) => parse_answer_items(s@, i as int) == Some(
                (vj.0@.map_values(|a: crate::question::MathAnswer| a@), vj.1 as int),
            ) && i < vj.1 <= s.len() && (forall|t: int|
                0 <= t < vj.0@.len() ==> wf_answer_m((#[trigger] vj.0@[t])@)),
            None => parse_answer_items(s@, i as int) is None,
        },
    decreases s.len() - i,
{
    let (a, j) = match scan_answer(s, i) {
        Some(aj) => aj,
        None => {
            return None;
        },
    };
    if j < s.len() && s[j] == 44 {
        match scan_answer_items(s, j + 1) {
            Some(vk) => {
                let (rest, k) = vk;
                let ghost rest_view = rest@;
                let mut v = rest;
                v.insert(0, a);
                proof {
                    assert(v@.map_values(|x: crate::question::MathAnswer| x@) =~= seq![a@]
                        + rest_view.map_values(|x: crate::question::MathAnswer| x@));
                }
                Some((v, k))
            },
            None => None,
        }
    } else if j < s.len() && s[j] == 93 {
        let mut v: Vec<crate::question::MathAnswer> = Vec::new();
        v.push(a);
        proof {
            assert(v@.map_values(|x: crate::question::MathAnswer| x@) =~= seq![a@]);
        }
        Some((v, j + 1))
    } else {
        None
    }
}

/// Read a stored answer list at `i`, exactly as `parse_answers` describes.
pub fn scan_answers(s: &Vec<u8>, i: usize) -> (r: Option<
    (Vec<crate::question::MathAnswer>, usize),
>)
    requires
        i <= s.len(),
    ensures
        match r {
            Some(vj) => parse_answers(s@, i as int) == Some(
                (vj.0@.map_values(|a: crate::question::MathAnswer| a@), vj.1 as int),
            ) && i < vj.1 <= s.len() && (forall|t: int|
                0 <= t < vj.0@.len() ==> wf_answer_m((#[trigger] vj.0@[t])@)),
            None => parse_answers(s@, i as int) is None,
        },
{
    if i == s.len() || s[i] != 91 {
        proof {
            if i < s@.len() {
                assert(s@.subrange(i as int, i + 1) != seq![91u8]) by {
                    assert(s@.subrange(i as int, i + 1)[0] == s@[i as int]);
                }
            }
        }
        return None;
    }
    proof {
        assert(s@.subrange(i as int, i + 1) =~= seq![91u8]);
    }
    if i + 1 < s.len() && s[i + 1] == 93 {
        proof {
            assert(s@.subrange(i + 1, i + 2) =~= seq![93u8]);
        }
        let v: Vec<crate::question::MathAnswer> = Vec::new();
        proof {
            assert(v@.map_values(|x: crate::question::MathAnswer| x@) =~= Seq::<AnswerM>::empty());
        }
        return Some((v, i + 2));
    }
    proof {
        if i + 1 < s@.len() {
            assert(s@.subrange(i + 1, i + 2) != seq![93u8]) by {
                assert(s@.subrange(i + 1, i + 2)[0] == s@[i + 1]);
            }
        }
    }
    scan_answer_items(s, i + 1)
}

} // verus!
