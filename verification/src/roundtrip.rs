use vstd::prelude::*;

use crate::codec::{
    enc_answer, enc_answer_items, enc_answers, enc_history, enc_opt, enc_question, enc_record,
    enc_record_items, enc_records, enc_str, expect, parse_answer, parse_answer_items,
    parse_answers, parse_history, parse_num, parse_num32, parse_opt, parse_question,
    parse_record, parse_record_items, parse_records, parse_sign, parse_str, sign_name, str_bytes,
    str_end, wf_answer_m, wf_history_m, wf_question_times, wf_record_m, wf_str, wf_str_byte,
    AnswerM, HistoryM, RecordM,
};
use crate::numfmt::{dec_i, is_digit, lemma_parse_dec_i};
use crate::question::MathQuestion;
use crate::util::Sign;

verus! {

/// The first quote at or after `i` is the one that is known to stand at
/// `j`, when nothing before it is a quote.
proof fn lemma_str_end_fixed(s: Seq<u8>, i: int, j: int)
    requires
        0 <= i <= j < s.len(),
        forall|t: int| i <= t < j ==> s[t] != 34,
        s[j] == 34,
    ensures
        str_end(s, i) == j,
    decreases j - i,
{
    if i < j {
        lemma_str_end_fixed(s, i + 1, j);
    }
}

/// Reading a written string field gives back its content.
proof fn lemma_parse_enc_str(s: Seq<u8>, i: int, content: Seq<u8>)
    requires
        wf_str(content),
        0 <= i,
        i + enc_str(content).len() <= s.len(),
        s.subrange(i, i + enc_str(content).len() as int) == enc_str(content),
    ensures
        parse_str(s, i) == Some((content, i + enc_str(content).len() as int)),
{
    let e = enc_str(content);
    let n = content.len() as int;
    assert(e.len() == n + 2);
    assert(s.subrange(i, i + e.len() as int)[0] == e[0]);
    assert(s[i] == 34);
    assert forall|t: int| i + 1 <= t < i + 1 + n implies s[t] != 34 by {
        assert(s.subrange(i, i + e.len() as int)[t - i] == e[t - i]);
        assert(e[t - i] == content[t - i - 1]);
        assert(wf_str_byte(content[t - i - 1]));
    }
    assert(s.subrange(i, i + e.len() as int)[n + 1] == e[n + 1]);
    assert(s[i + 1 + n] == 34);
    lemma_str_end_fixed(s, i + 1, i + 1 + n);
    assert forall|t: int| 0 <= t < n implies s.subrange(i + 1, i + 1 + n)[t] == content[t] by {
        assert(s.subrange(i, i + e.len() as int)[t + 1] == e[t + 1]);
        assert(e[t + 1] == content[t]);
    }
    assert(s.subrange(i + 1, i + 1 + n) =~= content);
}

/// Reading a written operation name gives back the operation.
proof fn lemma_parse_enc_sign(s: Seq<u8>, i: int, sign: Sign)
    requires
        0 <= i,
        i + str_bytes(sign_name(sign)).len() <= s.len(),
        s.subrange(i, i + str_bytes(sign_name(sign)).len() as int) == str_bytes(sign_name(sign)),
    ensures
        parse_sign(s, i) == Some((sign, i + str_bytes(sign_name(sign)).len() as int)),
{
    reveal_strlit("Add");
    reveal_strlit("Subtract");
    reveal_strlit("Multiply");
    reveal_strlit("Divide");
    let e = str_bytes(sign_name(sign));
    assert(s.subrange(i, i + e.len() as int)[0] == e[0]);
    assert forall|u: int| 0 <= u < e.len() implies s.subrange(i, i + e.len() as int)[u] == e[u]
        by {}
    match sign {
        Sign::Add => {
            assert forall|t: int| 0 <= t < 3 implies s.subrange(i, i + 3)[t] == str_bytes(
                "Add"@,
            )[t] by {
                assert(s.subrange(i, i + e.len() as int)[t] == e[t]);
            }
            assert(s.subrange(i, i + 3) =~= str_bytes("Add"@));
        },
        Sign::Subtract => {
            assert(s[i] == e[0]);
            assert(s[i] == 83);
            if i + 3 <= s.len() {
                assert(s.subrange(i, i + 3)[0] == 83);
                assert(str_bytes("Add"@)[0] == 65);
                assert(s.subrange(i, i + 3) != str_bytes("Add"@));
            }
            assert(expect(s, i, str_bytes("Add"@)) is None);
            assert forall|t: int| 0 <= t < 8 implies s.subrange(i, i + 8)[t] == str_bytes(
                "Subtract"@,
            )[t] by {
                assert(s.subrange(i, i + e.len() as int)[t] == e[t]);
            }
            assert(s.subrange(i, i + 8) =~= str_bytes("Subtract"@));
        },
        Sign::Multiply => {
            assert(s[i] == e[0]);
            assert(s[i] == 77);
            if i + 3 <= s.len() {
                assert(s.subrange(i, i + 3)[0] == 77);
                assert(str_bytes("Add"@)[0] == 65);
                assert(s.subrange(i, i + 3) != str_bytes("Add"@));
            }
            if i + 8 <= s.len() {
                assert(s.subrange(i, i + 8)[0] == 77);
                assert(str_bytes("Subtract"@)[0] == 83);
                assert(s.subrange(i, i + 8) != str_bytes("Subtract"@));
            }
            assert(expect(s, i, str_bytes("Add"@)) is None);
            assert(expect(s, i, str_bytes("Subtract"@)) is None);
            assert forall|t: int| 0 <= t < 8 implies s.subrange(i, i + 8)[t] == str_bytes(
                "Multiply"@,
            )[t] by {
                assert(s.subrange(i, i + e.len() as int)[t] == e[t]);
            }
            assert(s.subrange(i, i + 8) =~= str_bytes("Multiply"@));
        },
        Sign::Divide => {
            assert(s[i] == e[0]);
            assert(s[i] == 68);
            if i + 3 <= s.len() {
                assert(s.subrange(i, i + 3)[0] == 68);
                assert(str_bytes("Add"@)[0] == 65);
                assert(s.subrange(i, i + 3) != str_bytes("Add"@));
            }
            if i + 8 <= s.len() {
                assert(s.subrange(i, i + 8)[0] == 68);
                assert(str_bytes("Subtract"@)[0] == 83);
                assert(s.subrange(i, i + 8) != str_bytes("Subtract"@));
                assert(str_bytes("Multiply"@)[0] == 77);
                assert(s.subrange(i, i + 8) != str_bytes("Multiply"@));
            }
            assert(expect(s, i, str_bytes("Add"@)) is None);
            assert(expect(s, i, str_bytes("Subtract"@)) is None);
            assert(expect(s, i, str_bytes("Multiply"@)) is None);
            assert forall|t: int| 0 <= t < 6 implies s.subrange(i, i + 6)[t] == str_bytes(
                "Divide"@,
            )[t] by {
                assert(s.subrange(i, i + e.len() as int)[t] == e[t]);
            }
            assert(s.subrange(i, i + 6) =~= str_bytes("Divide"@));
        },
    }
}

/// Reading a written optional timestamp gives it back, provided a
/// non-digit follows it.
proof fn lemma_parse_enc_opt(s: Seq<u8>, i: int, o: Option<i64>)
    requires
        (o matches Some(v) ==> v != i64::MIN),
        0 <= i,
        i + enc_opt(o).len() <= s.len(),
        s.subrange(i, i + enc_opt(o).len() as int) == enc_opt(o),
        i + enc_opt(o).len() == s.len() || !is_digit(s[i + enc_opt(o).len()]),
    ensures
        parse_opt(s, i) == Some((o, i + enc_opt(o).len() as int)),
{
    reveal_strlit("null");
    let e = enc_opt(o);
    assert(s.subrange(i, i + e.len() as int)[0] == e[0]);
    match o {
        None => {
            assert(s.subrange(i, i + 4) =~= str_bytes("null"@)) by {
                assert(s.subrange(i, i + 4) =~= s.subrange(i, i + e.len() as int));
            }
        },
        Some(v) => {
            crate::codec::lemma_dec_i_wf(v as int);
            assert(s[i] == dec_i(v as int)[0]);
            crate::numfmt::lemma_dec_u_digits(
                if v < 0 {
                    (-(v as int)) as nat
                } else {
                    v as nat
                },
            );
            assert(s[i] == 45 || is_digit(s[i]));
            if i + 4 <= s.len() {
                assert(s.subrange(i, i + 4)[0] == s[i]);
                assert(str_bytes("null"@)[0] == 110);
                assert(s.subrange(i, i + 4) != str_bytes("null"@));
            }
            assert(expect(s, i, str_bytes("null"@)) is None);
            lemma_parse_dec_i(s, i, v as int);
        },
    }
}

/// Reading a written number field gives it back, provided a non-digit
/// follows it.
proof fn lemma_parse_enc_num(s: Seq<u8>, i: int, v: i64)
    requires
        v != i64::MIN,
        0 <= i,
        i + dec_i(v as int).len() <= s.len(),
        s.subrange(i, i + dec_i(v as int).len() as int) == dec_i(v as int),
        i + dec_i(v as int).len() == s.len() || !is_digit(s[i + dec_i(v as int).len()]),
    ensures
        parse_num(s, i) == Some((v, i + dec_i(v as int).len() as int)),
{
    lemma_parse_dec_i(s, i, v as int);
}

/// `lemma_parse_enc_num` for a value that fits an `i32`.
proof fn lemma_parse_enc_num32(s: Seq<u8>, i: int, v: i32)
    requires
        0 <= i,
        i + dec_i(v as int).len() <= s.len(),
        s.subrange(i, i + dec_i(v as int).len() as int) == dec_i(v as int),
        i + dec_i(v as int).len() == s.len() || !is_digit(s[i + dec_i(v as int).len()]),
    ensures
        parse_num32(s, i) == Some((v, i + dec_i(v as int).len() as int)),
{
    lemma_parse_dec_i(s, i, v as int);
}

/// A piece of the written text, cut out at its own offset.
proof fn lemma_sub_extract(s: Seq<u8>, i: int, e: Seq<u8>, o: int, c: Seq<u8>)
    requires
        0 <= i,
        i + e.len() <= s.len(),
        s.subrange(i, i + e.len() as int) == e,
        0 <= o,
        o + c.len() <= e.len(),
        e.subrange(o, o + c.len() as int) == c,
    ensures
        s.subrange(i + o, i + o + c.len() as int) == c,
{
    assert forall|t: int| 0 <= t < c.len() implies s.subrange(i + o, i + o + c.len() as int)[t]
        == c[t] by {
        assert(s.subrange(i, i + e.len() as int)[o + t] == e[o + t]);
        assert(e.subrange(o, o + c.len() as int)[t] == e[o + t]);
    }
    assert(s.subrange(i + o, i + o + c.len() as int) =~= c);
}

/// Splitting a concatenation at the seam gives back its two halves.
proof fn lemma_split_concat(x: Seq<u8>, y: Seq<u8>)
    ensures
        (x + y).subrange(0, x.len() as int) == x,
        (x + y).subrange(x.len() as int, (x + y).len() as int) == y,
{
    assert((x + y).subrange(0, x.len() as int) =~= x);
    assert((x + y).subrange(x.len() as int, (x + y).len() as int) =~= y);
}

/// Reading a written question object gives back the question.
#[verifier::rlimit(100)]
proof fn lemma_parse_enc_question(s: Seq<u8>, i: int, q: MathQuestion)
    requires
        wf_question_times(q),
        0 <= i,
        i + enc_question(q).len() <= s.len(),
        s.subrange(i, i + enc_question(q).len() as int) == enc_question(q),
    ensures
        parse_question(s, i) == Some((q, i + enc_question(q).len() as int)),
{
    reveal_strlit("{\"lhs\":");
    reveal_strlit(",\"rhs\":");
    reveal_strlit(",\"answer\":");
    reveal_strlit(",\"sign\":\"");
    reveal_strlit("\",\"question_start\":");
    reveal_strlit(",\"question_answer\":");
    reveal_strlit("}");
    let e = enc_question(q);
    let t1 = str_bytes("{\"lhs\":"@);
    let d1 = dec_i(q.lhs as int);
    let t2 = str_bytes(",\"rhs\":"@);
    let d2 = dec_i(q.rhs as int);
    let t3 = str_bytes(",\"answer\":"@);
    let d3 = dec_i(q.answer as int);
    let t4 = str_bytes(",\"sign\":\""@);
    let sn = str_bytes(sign_name(q.sign));
    let t5 = str_bytes("\",\"question_start\":"@);
    let d5 = dec_i(q.question_start as int);
    let t6 = str_bytes(",\"question_answer\":"@);
    let oa = enc_opt(q.question_answer);
    let t7 = str_bytes("}"@);
    let l12 = t1 + d1 + t2 + d2 + t3 + d3 + t4 + sn + t5 + d5 + t6 + oa;
    let l11 = t1 + d1 + t2 + d2 + t3 + d3 + t4 + sn + t5 + d5 + t6;
    let l10 = t1 + d1 + t2 + d2 + t3 + d3 + t4 + sn + t5 + d5;
    let l9 = t1 + d1 + t2 + d2 + t3 + d3 + t4 + sn + t5;
    let l8 = t1 + d1 + t2 + d2 + t3 + d3 + t4 + sn;
    let l7 = t1 + d1 + t2 + d2 + t3 + d3 + t4;
    let l6 = t1 + d1 + t2 + d2 + t3 + d3;
    let l5 = t1 + d1 + t2 + d2 + t3;
    let l4 = t1 + d1 + t2 + d2;
    let l3 = t1 + d1 + t2;
    let l2 = t1 + d1;
    assert(e == l12 + t7);
    lemma_split_concat(l12, t7);
    lemma_sub_extract(s, i, e, l12.len() as int, t7);
    lemma_sub_extract(s, i, e, 0, l12);
    lemma_split_concat(l11, oa);
    lemma_sub_extract(s, i, l12, l11.len() as int, oa);
    lemma_sub_extract(s, i, l12, 0, l11);
    lemma_split_concat(l10, t6);
    lemma_sub_extract(s, i, l11, l10.len() as int, t6);
    lemma_sub_extract(s, i, l11, 0, l10);
    lemma_split_concat(l9, d5);
    lemma_sub_extract(s, i, l10, l9.len() as int, d5);
    lemma_sub_extract(s, i, l10, 0, l9);
    lemma_split_concat(l8, t5);
    lemma_sub_extract(s, i, l9, l8.len() as int, t5);
    lemma_sub_extract(s, i, l9, 0, l8);
    lemma_split_concat(l7, sn);
    lemma_sub_extract(s, i, l8, l7.len() as int, sn);
    lemma_sub_extract(s, i, l8, 0, l7);
    lemma_split_concat(l6, t4);
    lemma_sub_extract(s, i, l7, l6.len() as int, t4);
    lemma_sub_extract(s, i, l7, 0, l6);
    lemma_split_concat(l5, d3);
    lemma_sub_extract(s, i, l6, l5.len() as int, d3);
    lemma_sub_extract(s, i, l6, 0, l5);
    lemma_split_concat(l4, t3);
    lemma_sub_extract(s, i, l5, l4.len() as int, t3);
    lemma_sub_extract(s, i, l5, 0, l4);
    lemma_split_concat(l3, d2);
    lemma_sub_extract(s, i, l4, l3.len() as int, d2);
    lemma_sub_extract(s, i, l4, 0, l3);
    lemma_split_concat(l2, t2);
    lemma_sub_extract(s, i, l3, l2.len() as int, t2);
    lemma_sub_extract(s, i, l3, 0, l2);
    lemma_split_concat(t1, d1);
    lemma_sub_extract(s, i, l2, t1.len() as int, d1);
    lemma_sub_extract(s, i, l2, 0, t1);
    // Walk the reader down the same offsets.
    let o1 = i + t1.len() as int;
    let o2 = o1 + d1.len() as int;
    let o3 = o2 + t2.len() as int;
    let o4 = o3 + d2.len() as int;
    let o5 = o4 + t3.len() as int;
    let o6 = o5 + d3.len() as int;
    let o7 = o6 + t4.len() as int;
    let o8 = o7 + sn.len() as int;
    let o9 = o8 + t5.len() as int;
    let o10 = o9 + d5.len() as int;
    let o11 = o10 + t6.len() as int;
    let o12 = o11 + oa.len() as int;
    assert(expect(s, i, t1) == Some(o1));
    assert(s.subrange(o2, o2 + t2.len() as int)[0] == t2[0]);
    assert(!is_digit(s[o2]));
    lemma_parse_enc_num32(s, o1, q.lhs);
    assert(expect(s, o2, t2) == Some(o3));
    assert(s.subrange(o4, o4 + t3.len() as int)[0] == t3[0]);
    assert(!is_digit(s[o4]));
    lemma_parse_enc_num32(s, o3, q.rhs);
    assert(expect(s, o4, t3) == Some(o5));
    assert(s.subrange(o6, o6 + t4.len() as int)[0] == t4[0]);
    assert(!is_digit(s[o6]));
    lemma_parse_enc_num32(s, o5, q.answer);
    assert(expect(s, o6, t4) == Some(o7));
    lemma_parse_enc_sign(s, o7, q.sign);
    assert(expect(s, o8, t5) == Some(o9));
    assert(s.subrange(o10, o10 + t6.len() as int)[0] == t6[0]);
    assert(!is_digit(s[o10]));
    lemma_parse_enc_num(s, o9, q.question_start);
    assert(expect(s, o10, t6) == Some(o11));
    assert(s.subrange(o12, o12 + t7.len() as int)[0] == t7[0]);
    assert(!is_digit(s[o12]));
    lemma_parse_enc_opt(s, o11, q.question_answer);
    assert(expect(s, o12, t7) == Some(i + e.len() as int));
}

/// Reading a written answer object gives back the answer.
#[verifier::rlimit(100)]
proof fn lemma_parse_enc_answer(s: Seq<u8>, i: int, a: AnswerM)
    requires
        wf_answer_m(a),
        0 <= i,
        i + enc_answer(a).len() <= s.len(),
        s.subrange(i, i + enc_answer(a).len() as int) == enc_answer(a),
    ensures
        parse_answer(s, i) == Some((a, i + enc_answer(a).len() as int)),
        enc_answer(a).len() >= 1,
{
    reveal_strlit("{\"q\":");
    reveal_strlit(",\"string_representation\":");
    reveal_strlit(",\"duration_s\":");
    reveal_strlit(",\"duration_m\":");
    reveal_strlit("}");
    let e = enc_answer(a);
    let t1 = str_bytes("{\"q\":"@);
    let qn = enc_question(a.q);
    let t2 = str_bytes(",\"string_representation\":"@);
    let st = enc_str(a.srep);
    let t3 = str_bytes(",\"duration_s\":"@);
    let d1 = dec_i(a.dur_s as int);
    let t4 = str_bytes(",\"duration_m\":"@);
    let d2 = dec_i(a.dur_m as int);
    let t5 = str_bytes("}"@);
    let l8 = t1 + qn + t2 + st + t3 + d1 + t4 + d2;
    let l7 = t1 + qn + t2 + st + t3 + d1 + t4;
    let l6 = t1 + qn + t2 + st + t3 + d1;
    let l5 = t1 + qn + t2 + st + t3;
    let l4 = t1 + qn + t2 + st;
    let l3 = t1 + qn + t2;
    let l2 = t1 + qn;
    assert(e == l8 + t5);
    lemma_split_concat(l8, t5);
    lemma_sub_extract(s, i, e, l8.len() as int, t5);
    lemma_sub_extract(s, i, e, 0, l8);
    lemma_split_concat(l7, d2);
    lemma_sub_extract(s, i, l8, l7.len() as int, d2);
    lemma_sub_extract(s, i, l8, 0, l7);
    lemma_split_concat(l6, t4);
    lemma_sub_extract(s, i, l7, l6.len() as int, t4);
    lemma_sub_extract(s, i, l7, 0, l6);
    lemma_split_concat(l5, d1);
    lemma_sub_extract(s, i, l6, l5.len() as int, d1);
    lemma_sub_extract(s, i, l6, 0, l5);
    lemma_split_concat(l4, t3);
    lemma_sub_extract(s, i, l5, l4.len() as int, t3);
    lemma_sub_extract(s, i, l5, 0, l4);
    lemma_split_concat(l3, st);
    lemma_sub_extract(s, i, l4, l3.len() as int, st);
    lemma_sub_extract(s, i, l4, 0, l3);
    lemma_split_concat(l2, t2);
    lemma_sub_extract(s, i, l3, l2.len() as int, t2);
    lemma_sub_extract(s, i, l3, 0, l2);
    lemma_split_concat(t1, qn);
    lemma_sub_extract(s, i, l2, t1.len() as int, qn);
    lemma_sub_extract(s, i, l2, 0, t1);
    let o1 = i + t1.len() as int;
    let o2 = o1 + qn.len() as int;
    let o3 = o2 + t2.len() as int;
    let o4 = o3 + st.len() as int;
    let o5 = o4 + t3.len() as int;
    let o6 = o5 + d1.len() as int;
    let o7 = o6 + t4.len() as int;
    let o8 = o7 + d2.len() as int;
    assert(expect(s, i, t1) == Some(o1));
    lemma_parse_enc_question(s, o1, a.q);
    assert(expect(s, o2, t2) == Some(o3));
    lemma_parse_enc_str(s, o3, a.srep);
    assert(expect(s, o4, t3) == Some(o5));
    assert(s.subrange(o6, o6 + t4.len() as int)[0] == t4[0]);
    assert(!is_digit(s[o6]));
    lemma_parse_enc_num(s, o5, a.dur_s);
    assert(expect(s, o6, t4) == Some(o7));
    assert(s.subrange(o8, o8 + t5.len() as int)[0] == t5[0]);
    assert(!is_digit(s[o8]));
    lemma_parse_enc_num(s, o7, a.dur_m);
    assert(expect(s, o8, t5) == Some(i + e.len() as int));
}

/// Reading written answer-list items, with the list's closing bracket
/// after them, gives back the items.
#[verifier::rlimit(100)]
proof fn lemma_parse_enc_answer_items(s: Seq<u8>, i: int, items: Seq<AnswerM>)
    requires
        items.len() >= 1,
        forall|t: int| 0 <= t < items.len() ==> wf_answer_m(#[trigger] items[t]),
        0 <= i,
        i + enc_answer_items(items).len() < s.len(),
        s.subrange(i, i + enc_answer_items(items).len() as int) == enc_answer_items(items),
        s[i + enc_answer_items(items).len()] == 93,
    ensures
        parse_answer_items(s, i) == Some((items, i + enc_answer_items(items).len() + 1)),
    decreases items.len(),
{
    let e = enc_answer_items(items);
    let h = enc_answer(items[0]);
    if items.len() == 1 {
        assert(e == h);
        lemma_parse_enc_answer(s, i, items[0]);
        let j = i + h.len() as int;
        assert(s[j] == 93);
        assert(seq![items[0]] =~= items);
    } else {
        let tail = items.subrange(1, items.len() as int);
        let te = enc_answer_items(tail);
        assert(e == h + seq![44u8] + te);
        let l2 = h + seq![44u8];
        assert(e == l2 + te);
        lemma_split_concat(l2, te);
        lemma_sub_extract(s, i, e, l2.len() as int, te);
        lemma_sub_extract(s, i, e, 0, l2);
        lemma_split_concat(h, seq![44u8]);
        lemma_sub_extract(s, i, l2, h.len() as int, seq![44u8]);
        lemma_sub_extract(s, i, l2, 0, h);
        lemma_parse_enc_answer(s, i, items[0]);
        let j = i + h.len() as int;
        assert(s.subrange(j, j + 1)[0] == 44);
        assert(s[j] == 44);
        assert forall|t: int| 0 <= t < tail.len() implies wf_answer_m(#[trigger] tail[t]) by {
            assert(tail[t] == items[t + 1]);
        }
        lemma_parse_enc_answer_items(s, j + 1, tail);
        assert(seq![items[0]] + tail =~= items);
    }
}

/// Reading a written answer list gives back the answers.
#[verifier::rlimit(100)]
proof fn lemma_parse_enc_answers(s: Seq<u8>, i: int, items: Seq<AnswerM>)
    requires
        forall|t: int| 0 <= t < items.len() ==> wf_answer_m(#[trigger] items[t]),
        0 <= i,
        i + enc_answers(items).len() <= s.len(),
        s.subrange(i, i + enc_answers(items).len() as int) == enc_answers(items),
    ensures
        parse_answers(s, i) == Some((items, i + enc_answers(items).len() as int)),
{
    let e = enc_answers(items);
    let ie = enc_answer_items(items);
    let l2 = seq![91u8] + ie;
    assert(e == l2 + seq![93u8]);
    lemma_split_concat(l2, seq![93u8]);
    lemma_sub_extract(s, i, e, l2.len() as int, seq![93u8]);
    lemma_sub_extract(s, i, e, 0, l2);
    lemma_split_concat(seq![91u8], ie);
    lemma_sub_extract(s, i, l2, 1, ie);
    lemma_sub_extract(s, i, l2, 0, seq![91u8]);
    assert(s.subrange(i, i + 1)[0] == 91);
    assert(expect(s, i, seq![91u8]) == Some(i + 1));
    let close = i + 1 + ie.len() as int;
    assert(s.subrange(close, close + 1)[0] == 93);
    assert(s[close] == 93);
    if items.len() == 0 {
        assert(ie.len() == 0);
        assert(s.subrange(i + 1, i + 2) =~= seq![93u8]);
        assert(expect(s, i + 1, seq![93u8]) == Some(i + 2));
    } else {
        reveal_strlit("{\"q\":");
        let h0 = enc_answer(items[0]);
        let t1h = str_bytes("{\"q\":"@);
        let resth = enc_question(items[0].q) + str_bytes(",\"string_representation\":"@)
            + enc_str(items[0].srep) + str_bytes(",\"duration_s\":"@) + dec_i(
            items[0].dur_s as int,
        ) + str_bytes(",\"duration_m\":"@) + dec_i(items[0].dur_m as int) + str_bytes("}"@);
        assert(h0 == t1h + (enc_question(items[0].q) + str_bytes(
            ",\"string_representation\":"@,
        ) + enc_str(items[0].srep) + str_bytes(",\"duration_s\":"@) + dec_i(
            items[0].dur_s as int,
        ) + str_bytes(",\"duration_m\":"@) + dec_i(items[0].dur_m as int) + str_bytes(
            "}"@,
        ))) by {
            assert(h0 =~= t1h + (enc_question(items[0].q) + str_bytes(
                ",\"string_representation\":"@,
            ) + enc_str(items[0].srep) + str_bytes(",\"duration_s\":"@) + dec_i(
                items[0].dur_s as int,
            ) + str_bytes(",\"duration_m\":"@) + dec_i(items[0].dur_m as int) + str_bytes(
                "}"@,
            )));
        }
        assert(h0[0] == t1h[0]);
        assert(ie[0] == h0[0]) by {
            if items.len() > 1 {
                assert(ie == h0 + seq![44u8] + enc_answer_items(
                    items.subrange(1, items.len() as int),
                ));
            }
        }
        assert(s.subrange(i + 1, i + 1 + ie.len() as int)[0] == ie[0]);
        assert(s[i + 1] == 123);
        if i + 2 <= s.len() {
            assert(s.subrange(i + 1, i + 2)[0] == s[i + 1]);
            assert(s.subrange(i + 1, i + 2) != seq![93u8]);
        }
        assert(expect(s, i + 1, seq![93u8]) is None);
        lemma_parse_enc_answer_items(s, i + 1, items);
    }
}

/// Reading a written round object gives back the round.
#[verifier::rlimit(100)]
proof fn lemma_parse_enc_record(s: Seq<u8>, i: int, r: RecordM)
    requires
        wf_record_m(r),
        0 <= i,
        i + enc_record(r).len() <= s.len(),
        s.subrange(i, i + enc_record(r).len() as int) == enc_record(r),
    ensures
        parse_record(s, i) == Some((r, i + enc_record(r).len() as int)),
        enc_record(r).len() >= 1,
    decreases r.answers.len(),
{
    reveal_strlit("{\"game_intant\":");
    reveal_strlit(",\"score\":");
    reveal_strlit(",\"answers\":");
    reveal_strlit("}");
    let e = enc_record(r);
    let t1 = str_bytes("{\"game_intant\":"@);
    let d1 = dec_i(r.game_intant as int);
    let t2 = str_bytes(",\"score\":"@);
    let d2 = dec_i(r.score as int);
    let t3 = str_bytes(",\"answers\":"@);
    let an = enc_answers(r.answers);
    let t4 = str_bytes("}"@);
    let l6 = t1 + d1 + t2 + d2 + t3 + an;
    let l5 = t1 + d1 + t2 + d2 + t3;
    let l4 = t1 + d1 + t2 + d2;
    let l3 = t1 + d1 + t2;
    let l2 = t1 + d1;
    assert(e == l6 + t4);
    lemma_split_concat(l6, t4);
    lemma_sub_extract(s, i, e, l6.len() as int, t4);
    lemma_sub_extract(s, i, e, 0, l6);
    lemma_split_concat(l5, an);
    lemma_sub_extract(s, i, l6, l5.len() as int, an);
    lemma_sub_extract(s, i, l6, 0, l5);
    lemma_split_concat(l4, t3);
    lemma_sub_extract(s, i, l5, l4.len() as int, t3);
    lemma_sub_extract(s, i, l5, 0, l4);
    lemma_split_concat(l3, d2);
    lemma_sub_extract(s, i, l4, l3.len() as int, d2);
    lemma_sub_extract(s, i, l4, 0, l3);
    lemma_split_concat(l2, t2);
    lemma_sub_extract(s, i, l3, l2.len() as int, t2);
    lemma_sub_extract(s, i, l3, 0, l2);
    lemma_split_concat(t1, d1);
    lemma_sub_extract(s, i, l2, t1.len() as int, d1);
    lemma_sub_extract(s, i, l2, 0, t1);
    let o1 = i + t1.len() as int;
    let o2 = o1 + d1.len() as int;
    let o3 = o2 + t2.len() as int;
    let o4 = o3 + d2.len() as int;
    let o5 = o4 + t3.len() as int;
    let o6 = o5 + an.len() as int;
    assert(expect(s, i, t1) == Some(o1));
    assert(s.subrange(o2, o2 + t2.len() as int)[0] == t2[0]);
    assert(!is_digit(s[o2]));
    lemma_parse_enc_num(s, o1, r.game_intant);
    assert(expect(s, o2, t2) == Some(o3));
    assert(s.subrange(o4, o4 + t3.len() as int)[0] == t3[0]);
    assert(!is_digit(s[o4]));
    lemma_parse_enc_num32(s, o3, r.score);
    assert(expect(s, o4, t3) == Some(o5));
    lemma_parse_enc_answers(s, o5, r.answers);
    assert(expect(s, o6, t4) == Some(i + e.len() as int));
}

/// Reading written round-list items, with the list's closing bracket after
/// them, gives back the items.
#[verifier::rlimit(100)]
proof fn lemma_parse_enc_record_items(s: Seq<u8>, i: int, items: Seq<RecordM>)
    requires
        items.len() >= 1,
        forall|t: int| 0 <= t < items.len() ==> wf_record_m(#[trigger] items[t]),
        0 <= i,
        i + enc_record_items(items).len() < s.len(),
        s.subrange(i, i + enc_record_items(items).len() as int) == enc_record_items(items),
        s[i + enc_record_items(items).len()] == 93,
    ensures
        parse_record_items(s, i) == Some((items, i + enc_record_items(items).len() + 1)),
    decreases items.len(),
{
    let e = enc_record_items(items);
    let h = enc_record(items[0]);
    if items.len() == 1 {
        assert(e == h);
        lemma_parse_enc_record(s, i, items[0]);
        let j = i + h.len() as int;
        assert(s[j] == 93);
        assert(seq![items[0]] =~= items);
    } else {
        let tail = items.subrange(1, items.len() as int);
        let te = enc_record_items(tail);
        assert(e == h + seq![44u8] + te);
        let l2 = h + seq![44u8];
        assert(e == l2 + te);
        lemma_split_concat(l2, te);
        lemma_sub_extract(s, i, e, l2.len() as int, te);
        lemma_sub_extract(s, i, e, 0, l2);
        lemma_split_concat(h, seq![44u8]);
        lemma_sub_extract(s, i, l2, h.len() as int, seq![44u8]);
        lemma_sub_extract(s, i, l2, 0, h);
        lemma_parse_enc_record(s, i, items[0]);
        let j = i + h.len() as int;
        assert(s.subrange(j, j + 1)[0] == 44);
        assert(s[j] == 44);
        assert forall|t: int| 0 <= t < tail.len() implies wf_record_m(#[trigger] tail[t]) by {
            assert(tail[t] == items[t + 1]);
        }
        lemma_parse_enc_record_items(s, j + 1, tail);
        assert(seq![items[0]] + tail =~= items);
    }
}

/// Reading a written round list gives back the rounds.
#[verifier::rlimit(100)]
proof fn lemma_parse_enc_records(s: Seq<u8>, i: int, items: Seq<RecordM>)
    requires
        forall|t: int| 0 <= t < items.len() ==> wf_record_m(#[trigger] items[t]),
        0 <= i,
        i + enc_records(items).len() <= s.len(),
        s.subrange(i, i + enc_records(items).len() as int) == enc_records(items),
    ensures
        parse_records(s, i) == Some((items, i + enc_records(items).len() as int)),
{
    let e = enc_records(items);
    let ie = enc_record_items(items);
    let l2 = seq![91u8] + ie;
    assert(e == l2 + seq![93u8]);
    lemma_split_concat(l2, seq![93u8]);
    lemma_sub_extract(s, i, e, l2.len() as int, seq![93u8]);
    lemma_sub_extract(s, i, e, 0, l2);
    lemma_split_concat(seq![91u8], ie);
    lemma_sub_extract(s, i, l2, 1, ie);
    lemma_sub_extract(s, i, l2, 0, seq![91u8]);
    assert(s.subrange(i, i + 1)[0] == 91);
    assert(expect(s, i, seq![91u8]) == Some(i + 1));
    let close = i + 1 + ie.len() as int;
    assert(s.subrange(close, close + 1)[0] == 93);
    assert(s[close] == 93);
    if items.len() == 0 {
        assert(ie.len() == 0);
        assert(s.subrange(i + 1, i + 2) =~= seq![93u8]);
        assert(expect(s, i + 1, seq![93u8]) == Some(i + 2));
    } else {
        reveal_strlit("{\"game_intant\":");
        let h0 = enc_record(items[0]);
        let t1h = str_bytes("{\"game_intant\":"@);
        assert(h0 == t1h + (dec_i(items[0].game_intant as int) + str_bytes(",\"score\":"@)
            + dec_i(items[0].score as int) + str_bytes(",\"answers\":"@) + enc_answers(
            items[0].answers,
        ) + str_bytes("}"@))) by {
            assert(h0 =~= t1h + (dec_i(items[0].game_intant as int) + str_bytes(
                ",\"score\":"@,
            ) + dec_i(items[0].score as int) + str_bytes(",\"answers\":"@) + enc_answers(
                items[0].answers,
            ) + str_bytes("}"@)));
        }
        assert(h0[0] == t1h[0]);
        assert(ie[0] == h0[0]) by {
            if items.len() > 1 {
                assert(ie == h0 + seq![44u8] + enc_record_items(
                    items.subrange(1, items.len() as int),
                ));
            }
        }
        assert(s.subrange(i + 1, i + 1 + ie.len() as int)[0] == ie[0]);
        assert(s[i + 1] == 123);
        if i + 2 <= s.len() {
            assert(s.subrange(i + 1, i + 2)[0] == s[i + 1]);
            assert(s.subrange(i + 1, i + 2) != seq![93u8]);
        }
        assert(expect(s, i + 1, seq![93u8]) is None);
        lemma_parse_enc_record_items(s, i + 1, items);
    }
}

/// Law: writing a history out and reading the text back yields the history
/// that was written — field for field, including every recorded round and
/// every timed answer inside it.
#[verifier::rlimit(100)]
pub proof fn lemma_history_round_trip(h: HistoryM)
    requires
        wf_history_m(h),
    ensures
        parse_history(enc_history(h)) == Some(h),
{
    reveal_strlit("{\"path\":");
    reveal_strlit(",\"history\":");
    reveal_strlit("}");
    let s = enc_history(h);
    let t1 = str_bytes("{\"path\":"@);
    let pt = enc_str(h.path);
    let t2 = str_bytes(",\"history\":"@);
    let rc = enc_records(h.history);
    let t3 = str_bytes("}"@);
    let l4 = t1 + pt + t2 + rc;
    let l3 = t1 + pt + t2;
    let l2 = t1 + pt;
    assert(s == l4 + t3);
    assert(s.subrange(0, s.len() as int) =~= s);
    lemma_split_concat(l4, t3);
    lemma_sub_extract(s, 0, s, l4.len() as int, t3);
    lemma_sub_extract(s, 0, s, 0, l4);
    lemma_split_concat(l3, rc);
    lemma_sub_extract(s, 0, l4, l3.len() as int, rc);
    lemma_sub_extract(s, 0, l4, 0, l3);
    lemma_split_concat(l2, t2);
    lemma_sub_extract(s, 0, l3, l2.len() as int, t2);
    lemma_sub_extract(s, 0, l3, 0, l2);
    lemma_split_concat(t1, pt);
    lemma_sub_extract(s, 0, l2, t1.len() as int, pt);
    lemma_sub_extract(s, 0, l2, 0, t1);
    let o1 = t1.len() as int;
    let o2 = o1 + pt.len() as int;
    let o3 = o2 + t2.len() as int;
    let o4 = o3 + rc.len() as int;
    assert(expect(s, 0, t1) == Some(o1));
    lemma_parse_enc_str(s, o1, h.path);
    assert(expect(s, o2, t2) == Some(o3));
    lemma_parse_enc_records(s, o3, h.history);
    assert(expect(s, o4, t3) == Some(s.len() as int));
    assert(h =~= (HistoryM { path: h.path, history: h.history }));
}

/// Law: a freshly created history written to a path that did not exist
/// reads back as an empty history.
pub proof fn lemma_fresh_history_round_trip(path: Seq<u8>)
    requires
        wf_str(path),
    ensures
        ({
            let m = HistoryM { path, history: Seq::<RecordM>::empty() };
            parse_history(enc_history(m)) == Some(m)
        }),
{
    let m = HistoryM { path, history: Seq::<RecordM>::empty() };
    lemma_history_round_trip(m);
}

} // verus!
