use vstd::prelude::*;

use crate::config::QuestionRanges;
use crate::numfmt::dec_i;
use crate::util::{current_time_millis, sample_range, valid_time, Sign, MAX_TIME_MS};

verus! {

/// One arithmetic problem: operands, operation, precomputed answer, and the
/// instants (milliseconds since the epoch) at which it was posed and closed.
#[derive(Clone, Copy, Debug, PartialEq)]
pub struct MathQuestion {
    pub lhs: i32,
    pub rhs: i32,
    pub answer: i32,
    pub sign: Sign,
    pub question_start: i64,
    pub question_answer: Option<i64>,
}

/// The closed, timed record of one question: the question itself, its
/// rendered text, and how long it stood, in seconds and in milliseconds.
#[derive(Clone, Debug, PartialEq)]
pub struct MathAnswer {
    pub q: MathQuestion,
    pub string_representation: Vec<u8>,
    pub duration_s: i64,
    pub duration_m: i64,
}

/// Display byte of an operation's symbol.
pub open spec fn sign_byte(sign: Sign) -> u8 {
    match sign {
        Sign::Multiply => 120,
        Sign::Add => 43,
        Sign::Subtract => 45,
        Sign::Divide => 47,
    }
}

/// Rendered text of a question: `lhs`, the operation symbol and `rhs`,
/// separated by single spaces.
pub open spec fn srep_of(q: MathQuestion) -> Seq<u8> {
    dec_i(q.lhs as int) + seq![32u8, sign_byte(q.sign), 32u8] + dec_i(q.rhs as int)
}

/// The instant a question was closed; a question still open when the round
/// ends is closed at the round's end instant `now`.
pub open spec fn close_time(q: MathQuestion, now: i64) -> int {
    match q.question_answer {
        Some(t) => t as int,
        None => now as int,
    }
}

/// Milliseconds to whole seconds, rounding toward zero.
pub open spec fn ms_to_s(d: int) -> int {
    if d >= 0 {
        d / 1000
    } else {
        -((-d) / 1000)
    }
}

impl MathQuestion {
    /// The answer is what the operation gives on the operands, a generated
    /// subtraction never goes negative, and a generated division is exact.
    pub open spec fn sound(self) -> bool {
        match self.sign {
            Sign::Add => self.answer == self.lhs + self.rhs,
            Sign::Subtract => self.lhs >= self.rhs && self.answer == self.lhs - self.rhs,
            Sign::Multiply => self.answer == self.lhs * self.rhs,
            Sign::Divide => self.rhs >= 1 && self.answer >= 0 && self.lhs == self.answer
                * self.rhs,
        }
    }

    /// The operands lie in the configured half-open ranges for the
    /// question's operation family.
    pub open spec fn in_ranges(self, qr: QuestionRanges) -> bool {
        match self.sign {
            Sign::Add | Sign::Subtract => {
                &&& qr.add_lower <= self.lhs < qr.add_upper
                &&& qr.add_lower <= self.rhs < qr.add_upper
            },
            Sign::Multiply => {
                &&& qr.mult_lhs_lower <= self.lhs < qr.mult_lhs_upper
                &&& qr.mult_rhs_lower <= self.rhs < qr.mult_rhs_upper
            },
            Sign::Divide => {
                &&& qr.mult_lhs_lower <= self.answer < qr.mult_lhs_upper
                &&& qr.mult_rhs_lower <= self.rhs < qr.mult_rhs_upper
            },
        }
    }

    /// A question as the generator hands it out.
    pub open spec fn wf(self, qr: QuestionRanges) -> bool {
        &&& self.sound()
        &&& self.in_ranges(qr)
        &&& valid_time(self.question_start)
        &&& match self.question_answer {
            Some(t) => valid_time(t),
            None => true,
        }
    }

    /// Build the question determined by an operation and the two sampled
    /// values, posed at `now_ms`: a subtraction reorders the pair so the
    /// larger operand comes first, a division multiplies the second draw in
    /// so dividing is exact, and the answer is computed once, here.
    pub fn from_draws(sign: Sign, d1: i32, d2: i32, now_ms: i64) -> (q: MathQuestion)
        requires
            valid_time(now_ms),
            sign == Sign::Add ==> i32::MIN <= d1 + d2 <= i32::MAX,
            sign == Sign::Subtract ==> -(i32::MAX as int) <= d1 - d2 <= i32::MAX,
            sign == Sign::Multiply ==> i32::MIN <= d1 * d2 <= i32::MAX,
            sign == Sign::Divide ==> 0 <= d1 && 1 <= d2 && d1 * d2 <= i32::MAX,
        ensures
            q.sign == sign,
            q.question_start == now_ms,
            q.question_answer is None,
            q.sound(),
            sign == Sign::Add ==> q.lhs == d1 && q.rhs == d2 && q.answer == d1 + d2,
            sign == Sign::Subtract ==> q.answer == q.lhs - q.rhs && (if d1 >= d2 {
                q.lhs == d1 && q.rhs == d2
            } else {
                q.lhs == d2 && q.rhs == d1
            }),
            sign == Sign::Multiply ==> q.lhs == d1 && q.rhs == d2 && q.answer == d1 * d2,
            sign == Sign::Divide ==> q.lhs == d1 * d2 && q.rhs == d2 && q.answer == d1,
    {
        match sign {
            Sign::Add => MathQuestion {
                lhs: d1,
                rhs: d2,
                answer: d1 + d2,
                sign,
                question_start: now_ms,
                question_answer: None,
            },
            Sign::Subtract => {
                let (lhs, rhs) = if d1 >= d2 {
                    (d1, d2)
                } else {
                    (d2, d1)
                };
                MathQuestion {
                    lhs,
                    rhs,
                    answer: lhs - rhs,
                    sign,
                    question_start: now_ms,
                    question_answer: None,
                }
            },
            Sign::Multiply => MathQuestion {
                lhs: d1,
                rhs: d2,
                answer: d1 * d2,
                sign,
                question_start: now_ms,
                question_answer: None,
            },
            Sign::Divide => MathQuestion {
                lhs: d1 * d2,
                rhs: d2,
                answer: d1,
                sign,
                question_start: now_ms,
                question_answer: None,
            },
        }
    }

    /// Generate a fresh question: pick one of the four operations uniformly,
    /// sample the operands from the configured ranges, and derive the rest.
    pub fn generate_new_question(qr: &QuestionRanges) -> (q: MathQuestion)
        requires
            qr.wf(),
        ensures
            q.wf(*qr),
            q.question_answer is None,
    {
        let now_ms = current_time_millis();
        let pick = sample_range(1, 5);
        let sign = if pick == 1 {
            Sign::Add
        } else if pick == 2 {
            Sign::Subtract
        } else if pick == 3 {
            Sign::Multiply
        } else {
            Sign::Divide
        };
        match sign {
            Sign::Add | Sign::Subtract => {
                let d1 = sample_range(qr.add_lower, qr.add_upper);
                let d2 = sample_range(qr.add_lower, qr.add_upper);
                Self::from_draws(sign, d1, d2, now_ms)
            },
            Sign::Multiply | Sign::Divide => {
                let d1 = sample_range(qr.mult_lhs_lower, qr.mult_lhs_upper);
                let d2 = sample_range(qr.mult_rhs_lower, qr.mult_rhs_upper);
                proof {
                    assert(d1 * d2 <= (qr.mult_lhs_upper - 1) * (qr.mult_rhs_upper - 1)
                        && d1 * d2 >= 0) by (nonlinear_arith)
                        requires
                            0 <= d1 <= qr.mult_lhs_upper - 1,
                            0 <= d2 <= qr.mult_rhs_upper - 1,
                    ;
                }
                Self::from_draws(sign, d1, d2, now_ms)
            },
        }
    }

    /// Close out this question as a timed answer; a question never solved is
    /// timed against `now_ms`, the instant the round ended.
    pub fn generate_math_answer(self, now_ms: i64) -> (a: MathAnswer)
        requires
            valid_time(now_ms),
            valid_time(self.question_start),
            match self.question_answer {
                Some(t) => valid_time(t),
                None => true,
            },
        ensures
            a.q == self,
            a.string_representation@ == srep_of(self),
            a.duration_m == close_time(self, now_ms) - self.question_start,
            a.duration_s == ms_to_s(a.duration_m as int),
            -MAX_TIME_MS <= a.duration_m <= MAX_TIME_MS,
    {
        let mut srep: Vec<u8> = Vec::new();
        push_dec_i32(&mut srep, self.lhs);
        srep.push(32);
        srep.push(
            match self.sign {
                Sign::Multiply => 120,
                Sign::Add => 43,
                Sign::Subtract => 45,
                Sign::Divide => 47,
            },
        );
        srep.push(32);
        push_dec_i32(&mut srep, self.rhs);
        proof {
            assert(srep@ =~= srep_of(self));
        }
        let closed_at = match self.question_answer {
            Some(t) => t,
            None => now_ms,
        };
        let duration_m = closed_at - self.question_start;
        let duration_s = if duration_m >= 0 {
            duration_m / 1000
        } else {
            -((-duration_m) / 1000)
        };
        MathAnswer { q: self, string_representation: srep, duration_s, duration_m }
    }
}

/// Law: a generated Subtract question keeps its operands ordered, so its
/// answer is their difference and never negative.
pub proof fn lemma_generated_subtract(q: MathQuestion, qr: QuestionRanges)
    requires
        q.wf(qr),
        q.sign == Sign::Subtract,
    ensures
        q.lhs >= q.rhs,
        q.answer == q.lhs - q.rhs,
        q.answer >= 0,
        qr.add_lower <= q.lhs < qr.add_upper,
        qr.add_lower <= q.rhs < qr.add_upper,
{
}

/// Law: a generated Divide question divides exactly: its divisor is never
/// zero, the division leaves no remainder, and the answer is the exact
/// quotient, drawn from the configured range.
pub proof fn lemma_generated_divide(q: MathQuestion, qr: QuestionRanges)
    requires
        q.wf(qr),
        q.sign == Sign::Divide,
    ensures
        q.rhs != 0,
        q.lhs % q.rhs == 0,
        q.answer == q.lhs / q.rhs,
        qr.mult_lhs_lower <= q.answer < qr.mult_lhs_upper,
        qr.mult_rhs_lower <= q.rhs < qr.mult_rhs_upper,
{
    let a = q.answer as int;
    let b = q.rhs as int;
    assert((a * b) % b == 0 && (a * b) / b == a) by (nonlinear_arith)
        requires
            b >= 1,
    ;
}

/// Law: a generated Add or Multiply question carries the sum or product of
/// its operands, each drawn from the configured half-open range.
pub proof fn lemma_generated_add_mult(q: MathQuestion, qr: QuestionRanges)
    requires
        q.wf(qr),
        q.sign == Sign::Add || q.sign == Sign::Multiply,
    ensures
        q.sign == Sign::Add ==> q.answer == q.lhs + q.rhs && qr.add_lower <= q.lhs < qr.add_upper
            && qr.add_lower <= q.rhs < qr.add_upper,
        q.sign == Sign::Multiply ==> q.answer == q.lhs * q.rhs && qr.mult_lhs_lower <= q.lhs
            < qr.mult_lhs_upper && qr.mult_rhs_lower <= q.rhs < qr.mult_rhs_upper,
{
}

/// Append the decimal representation of an `i32` to `out`.
fn push_dec_i32(out: &mut Vec<u8>, n: i32)
    ensures
        final(out)@ == old(out)@ + dec_i(n as int),
{
    crate::numfmt::push_dec_i64(out, n as i64);
}

} // verus!
