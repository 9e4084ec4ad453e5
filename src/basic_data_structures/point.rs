use vstd::prelude::*;
use crate::algorithms::k_means::PointProperties;

verus! {

/// A point of the plane with integer coordinates.
#[derive(Debug, Copy, Clone, PartialEq, Eq, Structural)]
pub struct Point {
    pub x: i32,
    pub y: i32,
}

/// The offset that maps every `i32` onto a non-negative integer.
pub const COORD_SHIFT: i64 = 2147483648;

/// The largest coordinate after shifting by `COORD_SHIFT`.
pub const SHIFTED_MAX: u128 = 4294967295;

pub open spec fn square(a: int) -> int {
    a * a
}

/// Sum of the x coordinates of `pts`.
pub open spec fn sum_x(pts: Seq<Point>) -> int
    decreases pts.len(),
{
    if pts.len() == 0 {
        0
    } else {
        sum_x(pts.drop_last()) + pts.last().x
    }
}

/// Sum of the y coordinates of `pts`.
pub open spec fn sum_y(pts: Seq<Point>) -> int
    decreases pts.len(),
{
    if pts.len() == 0 {
        0
    } else {
        sum_y(pts.drop_last()) + pts.last().y
    }
}

/// The coordinate-wise mean of `pts`, each coordinate rounded down.
pub open spec fn mean_point(pts: Seq<Point>) -> (int, int) {
    (sum_x(pts) / pts.len() as int, sum_y(pts) / pts.len() as int)
}

impl Point {
    pub open spec fn spec_sq_dist(&self, p: &Point) -> int {
        square(p.x - self.x) + square(p.y - self.y)
    }

    pub fn new(pos_x: i32, pos_y: i32) -> (r: Self)
        ensures
            r.x == pos_x,
            r.y == pos_y,
    {
        Point { x: pos_x, y: pos_y }
    }

    pub fn copy_point(poi: &Point) -> (r: Self)
        ensures
            r == *poi,
    {
        Point::new(poi.x, poi.y)
    }

    pub fn move_point(&mut self, x_axis: i32, y_axis: i32)
        requires
            i32::MIN <= old(self).x + x_axis <= i32::MAX,
            i32::MIN <= old(self).y + y_axis <= i32::MAX,
        ensures
            final(self).x == old(self).x + x_axis,
            final(self).y == old(self).y + y_axis,
    {
        self.x = self.x + x_axis;
        self.y = self.y + y_axis;
    }
}

/// The distance of a point to itself is zero, and the distance between two
/// points does not depend on their order.
pub proof fn lemma_distance_laws(p: Point, q: Point)
    ensures
        p.spec_sq_dist(&p) == 0,
        p.spec_sq_dist(&q) == q.spec_sq_dist(&p),
        p.spec_sq_dist(&q) >= 0,
{
    assert(square(q.x - p.x) == square(p.x - q.x)) by (nonlinear_arith);
    assert(square(q.y - p.y) == square(p.y - q.y)) by (nonlinear_arith);
    assert(square(q.x - p.x) >= 0) by (nonlinear_arith);
    assert(square(q.y - p.y) >= 0) by (nonlinear_arith);
}

proof fn lemma_shifted_mean(sum: int, n: int, shifted: int)
    requires
        n > 0,
        shifted == sum + n * COORD_SHIFT,
        0 <= shifted <= n * SHIFTED_MAX,
    ensures
        shifted / n == sum / n + COORD_SHIFT,
        0 <= shifted / n <= SHIFTED_MAX,
{
    let q = sum / n;
    let r = sum % n;
    vstd::arithmetic::div_mod::lemma_fundamental_div_mod(sum, n);
    assert(shifted == (q + COORD_SHIFT) * n + r) by (nonlinear_arith)
        requires
            shifted == sum + n * COORD_SHIFT,
            sum == n * q + r,
    ;
    vstd::arithmetic::div_mod::lemma_fundamental_div_mod_converse(shifted, n, q + COORD_SHIFT, r);
    vstd::arithmetic::div_mod::lemma_div_is_ordered(shifted, n * SHIFTED_MAX, n);
    vstd::arithmetic::div_mod::lemma_div_by_multiple(SHIFTED_MAX as int, n);
    assert(n * SHIFTED_MAX == SHIFTED_MAX * n) by (nonlinear_arith);
    vstd::arithmetic::div_mod::lemma_div_pos_is_pos(shifted, n);
}

/// Sums of the shifted x and y coordinates of `points`, as non-negative
/// integers.
fn shifted_sums(points: &Vec<Point>) -> (r: (u128, u128))
    ensures
        r.0 == sum_x(points@) + points@.len() * COORD_SHIFT,
        r.1 == sum_y(points@) + points@.len() * COORD_SHIFT,
        r.0 <= points@.len() * SHIFTED_MAX,
        r.1 <= points@.len() * SHIFTED_MAX,
{
    let mut sx: u128 = 0;
    let mut sy: u128 = 0;
    let mut i: usize = 0;
    while i < points.len()
        invariant
            i <= points@.len(),
            sx == sum_x(points@.take(i as int)) + i * COORD_SHIFT,
            sy == sum_y(points@.take(i as int)) + i * COORD_SHIFT,
            sx <= i * SHIFTED_MAX,
            sy <= i * SHIFTED_MAX,
        decreases points@.len() - i,
    {
        let p = points[i];
        assert(points@.take(i + 1).drop_last() =~= points@.take(i as int));
        sx = sx + (p.x as i64 + COORD_SHIFT) as u128;
        sy = sy + (p.y as i64 + COORD_SHIFT) as u128;
        i = i + 1;
    }
    assert(points@.take(i as int) =~= points@);
    (sx, sy)
}

impl PointProperties for Point {
    open spec fn spec_squared_distance(&self, other: &Self) -> int {
        self.spec_sq_dist(other)
    }

    open spec fn spec_dimensionality(&self) -> nat {
        2
    }

    open spec fn spec_recentered(&self, points: Seq<Self>) -> Self {
        if points.len() == 0 {
            *self
        } else {
            Point { x: mean_point(points).0 as i32, y: mean_point(points).1 as i32 }
        }
    }

    fn squared_distance(&self, p: &Point) -> (r: u128) {
        let dx: i64 = p.x as i64 - self.x as i64;
        let dy: i64 = p.y as i64 - self.y as i64;
        let ax: u128 = if dx < 0 { (-dx) as u128 } else { dx as u128 };
        let ay: u128 = if dy < 0 { (-dy) as u128 } else { dy as u128 };
        assert(ax * ax <= SHIFTED_MAX * SHIFTED_MAX) by (nonlinear_arith)
            requires ax <= SHIFTED_MAX;
        assert(ay * ay <= SHIFTED_MAX * SHIFTED_MAX) by (nonlinear_arith)
            requires ay <= SHIFTED_MAX;
        assert(ax * ax == square(p.x - self.x)) by (nonlinear_arith)
            requires ax == p.x - self.x || ax == self.x - p.x;
        assert(ay * ay == square(p.y - self.y)) by (nonlinear_arith)
            requires ay == p.y - self.y || ay == self.y - p.y;
        ax * ax + ay * ay
    }

    fn dimensionality(&self) -> (r: u64) {
        2
    }

    fn calculate_new_center_for_given_points(&mut self, points: &Vec<Point>) {
        if points.len() == 0 {
            return;
        }
        let (sx, sy) = shifted_sums(points);
        let n: u128 = points.len() as u128;
        proof {
            lemma_shifted_mean(sum_x(points@), n as int, sx as int);
            lemma_shifted_mean(sum_y(points@), n as int, sy as int);
        }
        let mx: u128 = sx / n;
        let my: u128 = sy / n;
        self.x = (mx as i64 - COORD_SHIFT) as i32;
        self.y = (my as i64 - COORD_SHIFT) as i32;
    }
}

} // verus!
