use std::ops::{Add, Div, Mul, Sub};
use vstd::prelude::*;
use vstd::std_specs::ops::{AddSpecImpl, DivSpecImpl, MulSpecImpl, SubSpecImpl};

verus! {

/// A pair of coordinates of one type.
#[derive(Copy, Clone, Debug, PartialEq, Eq, Structural)]
pub struct Vector2Generic<T> {
    pub x: T,
    pub y: T,
}

/// A position or an extent on the cell grid, in whole cells.
pub type Vector2 = Vector2Generic<i32>;

impl<T> Vector2Generic<T> {
    #[inline]
    pub fn new(x: T, y: T) -> (v: Self)
        ensures
            v.x == x,
            v.y == y,
    {
        Self { x, y }
    }
}

impl AddSpecImpl<Vector2Generic<i32>> for Vector2Generic<i32> {
    open spec fn obeys_add_spec() -> bool {
        true
    }

    open spec fn add_req(self, rhs: Vector2Generic<i32>) -> bool {
        &&& i32::MIN <= self.x + rhs.x <= i32::MAX
        &&& i32::MIN <= self.y + rhs.y <= i32::MAX
    }

    open spec fn add_spec(self, rhs: Vector2Generic<i32>) -> Vector2Generic<i32> {
        Vector2Generic { x: (self.x + rhs.x) as i32, y: (self.y + rhs.y) as i32 }
    }
}

impl Add<Vector2Generic<i32>> for Vector2Generic<i32> {
    type Output = Vector2Generic<i32>;

    fn add(self, rhs: Vector2Generic<i32>) -> (sum: Vector2Generic<i32>) {
        Vector2Generic { x: self.x + rhs.x, y: self.y + rhs.y }
    }
}

impl SubSpecImpl<Vector2Generic<i32>> for Vector2Generic<i32> {
    open spec fn obeys_sub_spec() -> bool {
        true
    }

    open spec fn sub_req(self, rhs: Vector2Generic<i32>) -> bool {
        &&& i32::MIN <= self.x - rhs.x <= i32::MAX
        &&& i32::MIN <= self.y - rhs.y <= i32::MAX
    }

    open spec fn sub_spec(self, rhs: Vector2Generic<i32>) -> Vector2Generic<i32> {
        Vector2Generic { x: (self.x - rhs.x) as i32, y: (self.y - rhs.y) as i32 }
    }
}

impl Sub<Vector2Generic<i32>> for Vector2Generic<i32> {
    type Output = Vector2Generic<i32>;

    #[inline]
    fn sub(self, rhs: Vector2Generic<i32>) -> (difference: Vector2Generic<i32>) {
        Vector2Generic { x: self.x - rhs.x, y: self.y - rhs.y }
    }
}

/// The quotient of `a` by `b`, rounded toward zero.
pub open spec fn quotient(a: int, b: int) -> int {
    if a >= 0 && b > 0 {
        a / b
    } else if a < 0 && b > 0 {
        -((-a) / b)
    } else if a >= 0 {
        -(a / (-b))
    } else {
        (-a) / (-b)
    }
}

/// Divides `a` by `b`, rounding toward zero.
fn divide(a: i32, b: i32) -> (q: i32)
    requires
        b != 0,
        b == -1 ==> a != i32::MIN,
    ensures
        q == quotient(a as int, b as int),
{
    let n: i64 = a as i64;
    let d: i64 = b as i64;
    let q: i64 = if n >= 0 && d > 0 {
        n / d
    } else if n < 0 && d > 0 {
        -((-n) / d)
    } else if n >= 0 {
        -(n / (-d))
    } else {
        (-n) / (-d)
    };
    proof {
        let m: int = if n >= 0 { n as int } else { -n };
        let e: int = if d > 0 { d as int } else { -d };
        assert(0 <= m / e <= m) by (nonlinear_arith)
            requires
                0 <= m,
                0 < e,
        ;
        if b == -1 {
            assert(m / e == m) by (nonlinear_arith)
                requires
                    e == 1,
                    0 <= m,
            ;
        } else if b < 0 && a == i32::MIN {
            assert(m / e < m) by (nonlinear_arith)
                requires
                    e >= 2,
                    0 < m,
            ;
        }
    }
    q as i32
}

impl MulSpecImpl<i32> for Vector2Generic<i32> {
    open spec fn obeys_mul_spec() -> bool {
        true
    }

    open spec fn mul_req(self, rhs: i32) -> bool {
        &&& i32::MIN <= self.x * rhs <= i32::MAX
        &&& i32::MIN <= self.y * rhs <= i32::MAX
    }

    open spec fn mul_spec(self, rhs: i32) -> Vector2Generic<i32> {
        Vector2Generic { x: (self.x * rhs) as i32, y: (self.y * rhs) as i32 }
    }
}

impl Mul<i32> for Vector2Generic<i32> {
    type Output = Vector2Generic<i32>;

    fn mul(self, rhs: i32) -> (product: Vector2Generic<i32>) {
        Vector2Generic { x: self.x * rhs, y: self.y * rhs }
    }
}

impl DivSpecImpl<i32> for Vector2Generic<i32> {
    open spec fn obeys_div_spec() -> bool {
        true
    }

    open spec fn div_req(self, rhs: i32) -> bool {
        &&& rhs != 0
        &&& rhs == -1 ==> self.x != i32::MIN && self.y != i32::MIN
    }

    open spec fn div_spec(self, rhs: i32) -> Vector2Generic<i32> {
        Vector2Generic {
            x: quotient(self.x as int, rhs as int) as i32,
            y: quotient(self.y as int, rhs as int) as i32,
        }
    }
}

impl Div<i32> for Vector2Generic<i32> {
    type Output = Vector2Generic<i32>;

    fn div(self, rhs: i32) -> (quotient: Vector2Generic<i32>) {
        Vector2Generic { x: divide(self.x, rhs), y: divide(self.y, rhs) }
    }
}

} // verus!
