//! The sine and cosine table: one 16.16 fixed-point entry per whole degree.
use vstd::prelude::*;

verus! {

/// The fixed-point value that stands for 1.
pub const SCALE: i32 = 65536;

/// Number of entries of the table: one per degree of the full turn.
pub const DEGREES: usize = 360;

/// `cs` and `sn` can be the cosine and sine of one angle in fixed point:
/// neither exceeds `SCALE` in magnitude, and the sum of their squares is
/// within `2 * SCALE` of `SCALE` squared. Entries rounded to the nearest
/// integer always are.
pub open spec fn unit_pair(cs: int, sn: int) -> bool {
    &&& -SCALE <= cs <= SCALE
    &&& -SCALE <= sn <= SCALE
    &&& -2 * SCALE <= cs * cs + sn * sn - SCALE * SCALE <= 2 * SCALE
}

/// `cos` and `sin` are tables of `DEGREES` entries each, and every pair of
/// entries is a `unit_pair`.
pub open spec fn valid_tables(cos: Seq<i32>, sin: Seq<i32>) -> bool {
    &&& cos.len() == DEGREES
    &&& sin.len() == DEGREES
    &&& forall|a: int| 0 <= a < DEGREES ==> unit_pair(#[trigger] cos[a] as int, sin[a] as int)
}

/// Cosine and sine of every whole degree, as fixed-point numbers.
pub struct TrigTable {
    cos: Vec<i32>,
    sin: Vec<i32>,
}

/// Tests one pair of entries.
fn is_unit_pair(cs: i32, sn: i32) -> (ok: bool)
    ensures
        ok == unit_pair(cs as int, sn as int),
{
    if cs < -SCALE || cs > SCALE || sn < -SCALE || sn > SCALE {
        return false;
    }
    assert(0 <= cs * cs <= 0x1_0000_0000) by (nonlinear_arith)
        requires
            -65536 <= cs <= 65536,
    ;
    assert(0 <= sn * sn <= 0x1_0000_0000) by (nonlinear_arith)
        requires
            -65536 <= sn <= 65536,
    ;
    let norm: i64 = (cs as i64) * (cs as i64) + (sn as i64) * (sn as i64);
    let one: i64 = 0x1_0000_0000;
    let slack: i64 = 0x2_0000;
    one - slack <= norm && norm <= one + slack
}

impl TrigTable {
    /// The cosine entries, by degree.
    pub closed spec fn cos_table(&self) -> Seq<i32> {
        self.cos@
    }

    /// The sine entries, by degree.
    pub closed spec fn sin_table(&self) -> Seq<i32> {
        self.sin@
    }

    /// The table is complete and every entry is plausible.
    pub open spec fn wf(&self) -> bool {
        valid_tables(self.cos_table(), self.sin_table())
    }

    /// Makes a table of the given entries, which are the cosines and sines
    /// of the degrees 0 to 359 times `SCALE`. Tables of another length, or
    /// with a pair of entries that is no `unit_pair`, are refused.
    pub fn new(cos: Vec<i32>, sin: Vec<i32>) -> (table: Option<TrigTable>)
        ensures
            table.is_some() == valid_tables(cos@, sin@),
            table matches Some(t) ==> t.wf() && t.cos_table() == cos@ && t.sin_table() == sin@,
    {
        if cos.len() != DEGREES || sin.len() != DEGREES {
            return None;
        }
        let mut a: usize = 0;
        while a < DEGREES
            invariant
                a <= DEGREES,
                cos@.len() == DEGREES,
                sin@.len() == DEGREES,
                forall|k: int| 0 <= k < a ==> unit_pair(#[trigger] cos@[k] as int, sin@[k] as int),
            decreases DEGREES - a,
        {
            if !is_unit_pair(cos[a], sin[a]) {
                return None;
            }
            a = a + 1;
        }
        Some(TrigTable { cos, sin })
    }

    /// The cosine of `a` degrees times `SCALE`.
    pub fn cos(&self, a: i32) -> (cs: i32)
        requires
            self.wf(),
            0 <= a < DEGREES,
        ensures
            cs == self.cos_table()[a as int],
            unit_pair(cs as int, self.sin_table()[a as int] as int),
    {
        self.cos[a as usize]
    }

    /// The sine of `a` degrees times `SCALE`.
    pub fn sin(&self, a: i32) -> (sn: i32)
        requires
            self.wf(),
            0 <= a < DEGREES,
        ensures
            sn == self.sin_table()[a as int],
            unit_pair(self.cos_table()[a as int] as int, sn as int),
    {
        self.sin[a as usize]
    }
}

} // verus!
