//! How a correction is shared between two bodies.

use crate::geometry::Vec2;
use vstd::arithmetic::div_mod::lemma_div_multiples_vanish_quotient;
use vstd::math::abs;
use vstd::prelude::*;

verus! {

/// A share of a whole, more than nothing and at most all of it, kept as an
/// exact fraction.
#[derive(Clone, Copy, PartialEq, Eq, Structural, Debug)]
pub struct Ratio {
    pub num: u128,
    pub den: u128,
}

/// The largest sum of the magnitudes of two `i64` speeds.
pub const SPEED_SUM_MAX: u128 = 0x1_0000_0000_0000_0000;

impl Ratio {
    /// The fraction is a share: `0 < num <= den`, and small enough to be
    /// applied to any coordinate.
    pub open spec fn wf(self) -> bool {
        0 < self.num <= self.den <= SPEED_SUM_MAX
    }

    /// The whole: `1/1`.
    pub open spec fn spec_one() -> Ratio {
        Ratio { num: 1, den: 1 }
    }

    /// An even split: `1/2`.
    pub open spec fn spec_half() -> Ratio {
        Ratio { num: 1, den: 2 }
    }

    /// The part of `amount` that this share takes: `amount * num / den`,
    /// rounded toward zero.
    pub open spec fn spec_of(self, amount: int) -> int {
        if amount >= 0 {
            (amount * self.num) / (self.den as int)
        } else {
            -(((-amount) * self.num) / (self.den as int))
        }
    }

    #[verifier::when_used_as_spec(spec_one)]
    pub fn one() -> (r: Ratio)
        ensures
            r == Ratio::spec_one(),
    {
        Ratio { num: 1, den: 1 }
    }

    #[verifier::when_used_as_spec(spec_half)]
    pub fn half() -> (r: Ratio)
        ensures
            r == Ratio::spec_half(),
    {
        Ratio { num: 1, den: 2 }
    }

    /// The part of `amount` that this share takes, rounded toward zero.
    pub fn of(&self, amount: i64) -> (part: i64)
        requires
            self.wf(),
        ensures
            part == self.spec_of(amount as int),
            amount >= 0 ==> 0 <= part <= amount,
            amount <= 0 ==> amount <= part <= 0,
    {
        let size: u128 = if amount < 0 {
            (-(amount as i128)) as u128
        } else {
            amount as u128
        };
        proof {
            lemma_share_bounds(size as int, self.num as int, self.den as int);
        }
        let taken: u128 = size * self.num / self.den;
        if amount < 0 {
            -(taken as i128) as i64
        } else {
            taken as i64
        }
    }
}

/// A share of a non-negative amount lies between zero and the amount, and the
/// product it is computed from fits in 128 bits.
pub proof fn lemma_share_bounds(size: int, num: int, den: int)
    requires
        0 <= size <= 0x8000_0000_0000_0000,
        0 < num <= den <= SPEED_SUM_MAX,
    ensures
        0 <= size * num <= 0x8000_0000_0000_0000 * 0x1_0000_0000_0000_0000,
        0 <= (size * num) / den <= size,
{
    assert(0 <= size * num <= 0x8000_0000_0000_0000 * 0x1_0000_0000_0000_0000) by (nonlinear_arith)
        requires
            0 <= size <= 0x8000_0000_0000_0000,
            0 < num <= 0x1_0000_0000_0000_0000,
    ;
    assert(0 <= (size * num) / den <= size) by (nonlinear_arith)
        requires
            0 <= size,
            0 < num <= den,
    ;
}

/// The whole share takes the whole amount.
pub proof fn lemma_whole_share(amount: int)
    ensures
        Ratio::spec_one().spec_of(amount) == amount,
{
    assert(amount * 1 == amount);
    assert((-amount) * 1 == -amount);
}

/// The even share takes half the amount, rounded toward zero.
pub proof fn lemma_half_share(amount: int)
    ensures
        Ratio::spec_half().spec_of(amount) == if amount >= 0 {
            amount / 2
        } else {
            -((-amount) / 2)
        },
{
    assert(amount * 1 == amount);
    assert((-amount) * 1 == -amount);
}

/// No share takes anything of nothing.
pub proof fn lemma_share_of_nothing(r: Ratio)
    requires
        r.wf(),
    ensures
        r.spec_of(0) == 0,
{
    assert(0 * r.num == 0);
}

/// The share of a correction that falls to a body moving at `speed_i` along an
/// axis, when the other body moves at `speed_j` along it.
///
/// The share is `|speed_i| / (|speed_i| + |speed_j|)`. Where both bodies are at
/// rest on the axis the split is even. Where that fraction would be zero, the
/// body at rest takes the whole correction.
pub open spec fn spec_speed_share(speed_i: int, speed_j: int) -> Ratio {
    let a = abs(speed_i);
    let b = abs(speed_j);
    if a + b == 0 {
        Ratio::spec_half()
    } else if a == 0 {
        Ratio::spec_one()
    } else {
        Ratio { num: a as u128, den: (a + b) as u128 }
    }
}

/// The shares of a correction along `x` and along `y`.
#[derive(Clone, Copy, PartialEq, Eq, Structural, Debug)]
pub struct SpeedRatio {
    pub x: Ratio,
    pub y: Ratio,
}

impl SpeedRatio {
    pub open spec fn wf(self) -> bool {
        self.x.wf() && self.y.wf()
    }

    /// The whole correction, on both axes.
    pub open spec fn spec_one() -> SpeedRatio {
        SpeedRatio { x: Ratio::spec_one(), y: Ratio::spec_one() }
    }

    #[verifier::when_used_as_spec(spec_one)]
    pub fn one() -> (r: SpeedRatio)
        ensures
            r == SpeedRatio::spec_one(),
            r.wf(),
    {
        SpeedRatio { x: Ratio::one(), y: Ratio::one() }
    }
}

/// The shares of the first of two bodies, axis by axis, from their velocities.
pub open spec fn spec_get_speed_ratio(vel_i: Vec2, vel_j: Vec2) -> SpeedRatio {
    SpeedRatio {
        x: spec_speed_share(vel_i.x as int, vel_j.x as int),
        y: spec_speed_share(vel_i.y as int, vel_j.y as int),
    }
}

/// The share of a correction that falls to a body moving at `speed_i` along an
/// axis, when the other body moves at `speed_j` along it.
pub fn speed_share(speed_i: i64, speed_j: i64) -> (r: Ratio)
    ensures
        r == spec_speed_share(speed_i as int, speed_j as int),
        r.wf(),
{
    let a: u128 = crate::geometry::magnitude(speed_i) as u128;
    let b: u128 = crate::geometry::magnitude(speed_j) as u128;
    let sum: u128 = a + b;
    if sum == 0 {
        Ratio::half()
    } else if a == 0 {
        Ratio::one()
    } else {
        Ratio { num: a, den: sum }
    }
}

/// How much of a correction the first of two unfixed bodies is responsible
/// for, on each axis: a share in proportion to its speed there.
pub fn get_speed_ratio(vel_i: Vec2, vel_j: Vec2) -> (r: SpeedRatio)
    ensures
        r == spec_get_speed_ratio(vel_i, vel_j),
        r.wf(),
{
    SpeedRatio { x: speed_share(vel_i.x, vel_j.x), y: speed_share(vel_i.y, vel_j.y) }
}

/// Two bodies with the same speed along an axis share a correction evenly: the
/// first takes half of it, rounded toward zero.
pub proof fn lemma_equal_speeds_halve(speed_i: int, speed_j: int, amount: int)
    requires
        abs(speed_i) == abs(speed_j),
        abs(speed_i) <= 0x8000_0000_0000_0000,
    ensures
        amount >= 0 ==> spec_speed_share(speed_i, speed_j).spec_of(amount) == amount / 2,
        amount <= 0 ==> spec_speed_share(speed_i, speed_j).spec_of(amount) == -((-amount) / 2),
        amount % 2 == 0 ==> 2 * spec_speed_share(speed_i, speed_j).spec_of(amount) == amount,
{
    let a = abs(speed_i) as int;
    let size = abs(amount) as int;
    if a > 0 {
        assert(size * a == a * size) by (nonlinear_arith);
        assert(a + a == a * 2) by (nonlinear_arith);
        lemma_div_multiples_vanish_quotient(a, size, 2);
    } else {
        assert(size * 1 == size);
    }
}

} // verus!
