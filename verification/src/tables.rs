use vstd::prelude::*;

verus! {

/// The logistic lookup tables the predictor works with: `stretch` maps a
/// 12-bit probability to a logit, `squash` maps a logit (offset by 2048) to a
/// 12-bit probability, `stretch16` maps a 16-bit probability to a logit and
/// `squash16` maps a logit (offset by 2048) to a 16-bit probability.
pub struct Tables {
    pub stretch: Vec<i32>,
    pub squash: Vec<i32>,
    pub stretch16: Vec<i32>,
    pub squash16: Vec<i32>,
}

impl Tables {
    /// Sizes and value ranges the predictor relies on.
    pub open spec fn wf(&self) -> bool {
        &&& self.stretch@.len() == 4096
        &&& self.squash@.len() == 4096
        &&& self.stretch16@.len() == 65536
        &&& self.squash16@.len() == 4096
        &&& forall|i: int| 0 <= i < 4096 ==> 0 <= #[trigger] self.squash@[i] <= 4095
        &&& forall|i: int| 0 <= i < 4096 ==> 0 <= #[trigger] self.squash16@[i] <= 65535
        &&& forall|i: int| 0 <= i < 65536 ==> -2048 <= #[trigger] self.stretch16@[i] <= 2047
    }
}

/// Table position of logit `d`: `d + 2048`, clamped to the table.
pub open spec fn logit_index(d: int) -> int {
    if d < -2048 {
        0
    } else if d > 2047 {
        4095
    } else {
        d + 2048
    }
}

/// Probability (12-bit) of logit `d`.
pub fn squash_d(squash: &Vec<i32>, d: i32) -> (r: i32)
    requires
        squash@.len() == 4096,
    ensures
        r == squash@[logit_index(d as int)],
{
    let i = if d < -2048 {
        0
    } else if d > 2047 {
        4095
    } else {
        d + 2048
    };
    squash[i as usize]
}

/// Probability (16-bit) of logit `d`.
pub fn squash16_d(squash16: &Vec<i32>, d: i32) -> (r: i32)
    requires
        squash16@.len() == 4096,
    ensures
        r == squash16@[logit_index(d as int)],
{
    squash_d(squash16, d)
}

} // verus!
