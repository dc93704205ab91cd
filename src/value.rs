use vstd::prelude::*;

verus! {

/// An exact axis reading `num / den`, with `den > 0`.
///
/// Device axes are normalized into `[-1, 1]`; injected mouse axes carry raw counts
/// (`den == 1`) or wheel ticks (`den == 120`).
#[derive(Clone, Copy, Debug, PartialEq, Eq, Structural)]
pub struct AxisValue {
    pub num: i64,
    pub den: i64,
}

impl AxisValue {
    pub open spec fn wf(self) -> bool {
        self.den > 0
    }

    /// The value lies in `[-1, 1]`.
    pub open spec fn is_unit(self) -> bool {
        self.den > 0 && -self.den <= self.num <= self.den
    }

    /// `|self - o| > p / q`, written without division.
    pub open spec fn differs_by_more(self, o: AxisValue, p: int, q: int) -> bool {
        abs(self.num * o.den - o.num * self.den) * q > p * self.den * o.den
    }

    pub fn zero() -> (r: AxisValue)
        ensures
            r.num == 0 && r.den == 1,
    {
        AxisValue { num: 0, den: 1 }
    }

    pub fn neg(self) -> (r: AxisValue)
        requires
            self.num > i64::MIN,
        ensures
            r.num == -self.num && r.den == self.den,
    {
        AxisValue { num: -self.num, den: self.den }
    }
}

pub open spec fn abs(x: int) -> int {
    if x < 0 { -x } else { x }
}

/// Decides `|a - b| > p / q` exactly, for values whose parts fit in 34 bits.
pub fn moved_more_than(a: AxisValue, b: AxisValue, p: i64, q: i64) -> (r: bool)
    requires
        a.wf(),
        b.wf(),
        -0x4_0000_0000 <= a.num <= 0x4_0000_0000,
        -0x4_0000_0000 <= b.num <= 0x4_0000_0000,
        a.den <= 0x4_0000_0000,
        b.den <= 0x4_0000_0000,
        0 <= p <= 0x1_0000_0000,
        0 < q <= 0x1_0000_0000,
    ensures
        r == a.differs_by_more(b, p as int, q as int),
{
    assert(-0x10_0000_0000_0000_0000 <= a.num * b.den <= 0x10_0000_0000_0000_0000) by (nonlinear_arith)
        requires
            -0x4_0000_0000 <= a.num <= 0x4_0000_0000,
            0 < b.den <= 0x4_0000_0000,
    ;
    assert(-0x10_0000_0000_0000_0000 <= b.num * a.den <= 0x10_0000_0000_0000_0000) by (nonlinear_arith)
        requires
            -0x4_0000_0000 <= b.num <= 0x4_0000_0000,
            0 < a.den <= 0x4_0000_0000,
    ;
    let x: i128 = a.num as i128 * b.den as i128;
    let y: i128 = b.num as i128 * a.den as i128;
    let d: i128 = if x >= y { x - y } else { y - x };
    assert(0 <= d <= 0x20_0000_0000_0000_0000);
    assert(d == abs(a.num * b.den - b.num * a.den));
    assert(d * q <= 0x20_0000_0000_0000_0000 * 0x1_0000_0000) by (nonlinear_arith)
        requires
            0 <= d <= 0x20_0000_0000_0000_0000,
            0 < q <= 0x1_0000_0000,
    ;
    assert(0 < a.den * b.den <= 0x10_0000_0000_0000_0000) by (nonlinear_arith)
        requires
            0 < a.den <= 0x4_0000_0000,
            0 < b.den <= 0x4_0000_0000,
    ;
    let dd: i128 = a.den as i128 * b.den as i128;
    assert(0 <= p * dd <= 0x1_0000_0000 * 0x10_0000_0000_0000_0000) by (nonlinear_arith)
        requires
            0 <= p <= 0x1_0000_0000,
            0 < dd <= 0x10_0000_0000_0000_0000,
    ;
    assert(0 <= d * q) by (nonlinear_arith)
        requires
            0 <= d,
            0 < q,
    ;
    assert(p * a.den * b.den == p * dd) by (nonlinear_arith)
        requires
            dd == a.den * b.den,
    ;
    d * (q as i128) > (p as i128) * dd
}

} // verus!
