use vstd::prelude::*;

verus! {

/// Sampling bounds for generated questions: a half-open `[lower, upper)`
/// pair for the Add/Subtract operands, and split half-open pairs for the
/// two Multiply/Divide operands.
#[derive(Clone, Copy, Debug)]
pub struct QuestionRanges {
    pub add_lower: i32,
    pub add_upper: i32,
    pub mult_rhs_lower: i32,
    pub mult_rhs_upper: i32,
    pub mult_lhs_lower: i32,
    pub mult_lhs_upper: i32,
}

impl QuestionRanges {
    /// A usable configuration: every pair is a non-empty half-open range,
    /// the Multiply/Divide rhs range excludes zero (division must be by a
    /// positive factor), and every reachable sum and product fits an `i32`.
    pub open spec fn wf(self) -> bool {
        &&& -1_000_000_000 <= self.add_lower < self.add_upper <= 1_000_000_000
        &&& 0 <= self.mult_lhs_lower < self.mult_lhs_upper
        &&& 1 <= self.mult_rhs_lower < self.mult_rhs_upper
        &&& (self.mult_lhs_upper - 1) * (self.mult_rhs_upper - 1) <= i32::MAX
    }
}

impl Default for QuestionRanges {
    /// The stock ranges: sums over `[2, 100)`, products of a factor in
    /// `[2, 12)` with a factor in `[2, 100)`.
    fn default() -> (qr: QuestionRanges)
        ensures
            qr.wf(),
            qr.add_lower == 2 && qr.add_upper == 100,
            qr.mult_lhs_lower == 2 && qr.mult_lhs_upper == 12,
            qr.mult_rhs_lower == 2 && qr.mult_rhs_upper == 100,
    {
        QuestionRanges {
            add_lower: 2,
            add_upper: 100,
            mult_lhs_lower: 2,
            mult_lhs_upper: 12,
            mult_rhs_lower: 2,
            mult_rhs_upper: 100,
        }
    }
}

/// Game-wide configuration, fixed for the lifetime of a game.
#[derive(Clone, Copy, Debug)]
pub struct GameConfiguration {
    pub endless: bool,
    pub timer: i32,
    pub qr: QuestionRanges,
    pub debug: bool,
    pub debug_questions: i32,
}

impl GameConfiguration {
    /// A usable configuration: a non-negative round length and usable ranges.
    pub open spec fn wf(self) -> bool {
        &&& 0 <= self.timer
        &&& self.qr.wf()
    }
}

impl Default for GameConfiguration {
    /// The stock configuration: a 120-second timed round over the stock ranges.
    fn default() -> (c: GameConfiguration)
        ensures
            c.wf(),
            c.timer == 120,
            !c.endless,
            !c.debug,
            c.qr.add_lower == 2 && c.qr.add_upper == 100,
            c.qr.mult_lhs_lower == 2 && c.qr.mult_lhs_upper == 12,
            c.qr.mult_rhs_lower == 2 && c.qr.mult_rhs_upper == 100,
    {
        GameConfiguration {
            endless: false,
            timer: 120,
            qr: QuestionRanges::default(),
            debug: false,
            debug_questions: 72,
        }
    }
}

} // verus!
