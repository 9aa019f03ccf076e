//! Conductor attraction: where a tip of the bolt is drawn to.
//!
//! Two policies are offered. Under the first a tip is attracted by the
//! conductor closest to it, the earliest one among equally close ones. Under
//! the second it is attracted by the centroid of all conductors, each
//! weighted by the inverse of its squared distance from the tip.

use vstd::prelude::*;
use crate::error::StrikeError;
use crate::geometry::{
    clamp_coord, clamp_coord_spec, dist_sq, dist_sq_spec, div_toward_zero, fallback_axis,
    is_sqrt_floor, isqrt, scale_down, Vec3, UNIT,
};

verus! {

/// How the target of a tip is chosen among the conductors.
#[derive(Clone, Copy, Debug, PartialEq, Eq, Structural)]
pub enum Targeting {
    /// The nearest conductor is the target.
    Nearest,
    /// The inverse-square-distance-weighted centroid of the conductors is
    /// the target.
    WeightedCentroid,
}

/// The weight of the nearest conductor. The other conductors weigh less, in
/// proportion, rounded down to a whole number.
pub const WEIGHT_ONE: u128 = 0x1_0000_0000;

/// The pull that the conductors exert on one point.
#[derive(Clone, Copy, Debug, PartialEq, Eq, Structural)]
pub struct Attraction {
    /// The place that the point grows toward.
    pub target: Vec3,
    /// The distance from the point to the target, rounded down.
    pub remaining_distance: u64,
    /// The direction to the target, of length one, in thousandths.
    pub direction: Vec3,
}

/// `i` is the index of the conductor nearest to `point`, the first such
/// index where several conductors are equally near.
pub open spec fn is_nearest(point: Vec3, conductors: Seq<Vec3>, i: int) -> bool {
    &&& 0 <= i < conductors.len()
    &&& forall|j: int|
        0 <= j < conductors.len() ==> dist_sq_spec(point, conductors[i]) <= #[trigger] dist_sq_spec(
            point,
            conductors[j],
        )
    &&& forall|j: int|
        0 <= j < i ==> dist_sq_spec(point, conductors[i]) < #[trigger] dist_sq_spec(
            point,
            conductors[j],
        )
}

/// One component of the direction from `from` to `to`, `distance` apart.
pub open spec fn direction_coord(from: int, to: int, distance: int) -> int {
    clamp_coord_spec(div_toward_zero((to - from) * UNIT, distance))
}

/// The direction from `from` to `to`, scaled to length one (in thousandths),
/// or the fallback axis where the two are less than one unit apart.
pub open spec fn direction_spec(from: Vec3, to: Vec3, distance: int) -> Vec3 {
    if distance <= 0 {
        fallback_axis()
    } else {
        Vec3 {
            x: direction_coord(from.x as int, to.x as int, distance) as i32,
            y: direction_coord(from.y as int, to.y as int, distance) as i32,
            z: direction_coord(from.z as int, to.z as int, distance) as i32,
        }
    }
}

/// The index of the conductor nearest to `point`.
pub open spec fn nearest_index(point: Vec3, conductors: Seq<Vec3>) -> int {
    choose|i: int| is_nearest(point, conductors, i)
}

/// The integer square root of `n`.
pub open spec fn sqrt_floor(n: int) -> int {
    choose|r: int| is_sqrt_floor(n, r)
}

/// The squared distance from `point` to `c`, taken as one where the two
/// are closer than that: no weight is infinite.
pub open spec fn softened(point: Vec3, c: Vec3) -> int {
    if dist_sq_spec(point, c) < 1 {
        1
    } else {
        dist_sq_spec(point, c)
    }
}

/// The weight of the `i`-th conductor: the inverse of its softened squared
/// distance, as a fraction of the weight of the nearest conductor.
pub open spec fn weight_spec(point: Vec3, conductors: Seq<Vec3>, i: int) -> int {
    softened(point, conductors[nearest_index(point, conductors)]) * WEIGHT_ONE / softened(
        point,
        conductors[i],
    )
}

/// The sum of the weights of the first `n` conductors.
pub open spec fn weight_total(point: Vec3, conductors: Seq<Vec3>, n: int) -> int
    decreases n,
{
    if n <= 0 {
        0
    } else {
        weight_total(point, conductors, n - 1) + weight_spec(point, conductors, n - 1)
    }
}

/// The coordinate of `v` on `axis`: 0 for x, 1 for y, any other for z.
pub open spec fn coord(v: Vec3, axis: int) -> int {
    if axis == 0 {
        v.x as int
    } else if axis == 1 {
        v.y as int
    } else {
        v.z as int
    }
}

/// The sum over the first `n` conductors of weight times coordinate.
pub open spec fn moment(point: Vec3, conductors: Seq<Vec3>, axis: int, n: int) -> int
    decreases n,
{
    if n <= 0 {
        0
    } else {
        moment(point, conductors, axis, n - 1) + weight_spec(point, conductors, n - 1) * coord(
            conductors[n - 1],
            axis,
        )
    }
}

/// One coordinate of the weighted centroid of the conductors.
pub open spec fn centroid_coord(point: Vec3, conductors: Seq<Vec3>, axis: int) -> int {
    clamp_coord_spec(
        div_toward_zero(
            moment(point, conductors, axis, conductors.len() as int),
            weight_total(point, conductors, conductors.len() as int),
        ),
    )
}

/// The centroid of the conductors, each weighted by the inverse of its
/// squared distance from `point`.
pub open spec fn centroid_spec(point: Vec3, conductors: Seq<Vec3>) -> Vec3 {
    Vec3 {
        x: centroid_coord(point, conductors, 0) as i32,
        y: centroid_coord(point, conductors, 1) as i32,
        z: centroid_coord(point, conductors, 2) as i32,
    }
}

/// The point that `point` is drawn to.
pub open spec fn target_of(point: Vec3, conductors: Seq<Vec3>, targeting: Targeting) -> Vec3 {
    match targeting {
        Targeting::Nearest => conductors[nearest_index(point, conductors)],
        Targeting::WeightedCentroid => centroid_spec(point, conductors),
    }
}

/// The attraction of `point` by a non-empty set of conductors.
pub open spec fn attraction_of(
    point: Vec3,
    conductors: Seq<Vec3>,
    targeting: Targeting,
) -> Attraction {
    let target = target_of(point, conductors, targeting);
    let distance = sqrt_floor(dist_sq_spec(point, target));
    Attraction {
        target,
        remaining_distance: distance as u64,
        direction: direction_spec(point, target, distance),
    }
}

/// Only one index is that of the nearest conductor.
pub proof fn lemma_nearest_unique(point: Vec3, conductors: Seq<Vec3>, i: int, j: int)
    requires
        is_nearest(point, conductors, i),
        is_nearest(point, conductors, j),
    ensures
        i == j,
{
    if i < j {
        assert(dist_sq_spec(point, conductors[j]) < dist_sq_spec(point, conductors[i]));
        assert(dist_sq_spec(point, conductors[i]) <= dist_sq_spec(point, conductors[j]));
    } else if j < i {
        assert(dist_sq_spec(point, conductors[i]) < dist_sq_spec(point, conductors[j]));
        assert(dist_sq_spec(point, conductors[j]) <= dist_sq_spec(point, conductors[i]));
    }
}

/// A number has only one integer square root.
pub proof fn lemma_sqrt_unique(n: int, r: int, s: int)
    requires
        is_sqrt_floor(n, r),
        is_sqrt_floor(n, s),
    ensures
        r == s,
{
    if r < s {
        assert((r + 1) * (r + 1) <= s * s) by (nonlinear_arith)
            requires
                0 <= r,
                r + 1 <= s,
        ;
    } else if s < r {
        assert((s + 1) * (s + 1) <= r * r) by (nonlinear_arith)
            requires
                0 <= s,
                s + 1 <= r,
        ;
    }
}

/// `a` is the attraction of `point` by `conductors`: its target is the one
/// that the policy names, its distance is the distance to that target
/// rounded down, and its direction points to the target.
pub open spec fn is_attraction(
    point: Vec3,
    conductors: Seq<Vec3>,
    targeting: Targeting,
    a: Attraction,
) -> bool {
    &&& a.target == target_of(point, conductors, targeting)
    &&& targeting == Targeting::Nearest ==> exists|i: int|
        is_nearest(point, conductors, i) && conductors[i] == a.target
    &&& is_sqrt_floor(dist_sq_spec(point, a.target), a.remaining_distance as int)
    &&& a.direction == direction_spec(point, a.target, a.remaining_distance as int)
}

/// Finds the nearest of the conductors, of which there is at least one.
fn nearest_of(point: Vec3, conductors: &Vec<Vec3>) -> (best: usize)
    requires
        conductors@.len() > 0,
    ensures
        is_nearest(point, conductors@, best as int),
        best == nearest_index(point, conductors@),
{
    let mut best: usize = 0;
    let mut best_d: u128 = dist_sq(point, conductors[0]);
    let mut j: usize = 1;
    while j < conductors.len()
        invariant
            0 <= best < j <= conductors@.len(),
            best_d == dist_sq_spec(point, conductors@[best as int]),
            forall|k: int|
                0 <= k < j ==> best_d <= #[trigger] dist_sq_spec(point, conductors@[k]),
            forall|k: int|
                0 <= k < best ==> best_d < #[trigger] dist_sq_spec(point, conductors@[k]),
        decreases conductors@.len() - j,
    {
        let d: u128 = dist_sq(point, conductors[j]);
        if d < best_d {
            best = j;
            best_d = d;
        }
        j = j + 1;
    }
    proof {
        lemma_nearest_unique(point, conductors@, best as int, nearest_index(point, conductors@));
    }
    best
}

/// Finds the conductor nearest to `point`, if there is any conductor.
pub fn nearest_conductor(point: Vec3, conductors: &Vec<Vec3>) -> (r: Option<usize>)
    ensures
        r is None <==> conductors@.len() == 0,
        r is Some ==> is_nearest(point, conductors@, r->Some_0 as int),
{
    if conductors.len() == 0 {
        None
    } else {
        Some(nearest_of(point, conductors))
    }
}

/// One component of the unit direction.
fn direction_component(from: i32, to: i32, distance: u64) -> (r: i32)
    requires
        distance > 0,
    ensures
        r == direction_coord(from as int, to as int, distance as int),
{
    let diff: i128 = to as i128 - from as i128;
    assert(i32::MIN * 2000 <= diff * 1000 <= i32::MAX * 2000 + 1000);
    clamp_coord(scale_down(diff * (UNIT as i128), distance as u128))
}

/// The unit direction from `from` to `to`, which are `distance` apart.
pub fn direction(from: Vec3, to: Vec3, distance: u64) -> (r: Vec3)
    ensures
        r == direction_spec(from, to, distance as int),
{
    if distance == 0 {
        Vec3 { x: 0, y: 1000, z: 0 }
    } else {
        Vec3 {
            x: direction_component(from.x, to.x, distance),
            y: direction_component(from.y, to.y, distance),
            z: direction_component(from.z, to.z, distance),
        }
    }
}

/// The squared distance from `point` to `c`, but at least one.
fn soften(point: Vec3, c: Vec3) -> (r: u128)
    ensures
        r == softened(point, c),
        1 <= r <= 3 * (0xffff_ffff * 0xffff_ffff),
{
    let d: u128 = dist_sq(point, c);
    if d < 1 {
        1
    } else {
        d
    }
}

/// The weight of a conductor at softened squared distance `d`, where the
/// nearest is at `least`.
fn weigh_conductor(least: u128, d: u128) -> (w: u128)
    requires
        1 <= least <= d,
        least <= 3 * (0xffff_ffff * 0xffff_ffff),
    ensures
        w == least * WEIGHT_ONE / (d as int),
        w <= WEIGHT_ONE,
        least == d ==> w == WEIGHT_ONE,
{
    assert(least * WEIGHT_ONE <= 3 * (0xffff_ffff * 0xffff_ffff) * 0x1_0000_0000)
        by (nonlinear_arith)
        requires
            0 <= least <= 3 * (0xffff_ffff * 0xffff_ffff),
            WEIGHT_ONE == 0x1_0000_0000,
    ;
    assert(least * WEIGHT_ONE / (d as int) <= WEIGHT_ONE) by (nonlinear_arith)
        requires
            1 <= least <= d,
            WEIGHT_ONE == 0x1_0000_0000,
    ;
    assert(least == d ==> least * WEIGHT_ONE / (d as int) == WEIGHT_ONE) by (nonlinear_arith)
        requires
            1 <= least <= d,
            WEIGHT_ONE == 0x1_0000_0000,
    ;
    least * WEIGHT_ONE / d
}

/// A weight times a coordinate.
fn weighted(w: u128, c: i32) -> (r: i128)
    requires
        w <= WEIGHT_ONE,
    ensures
        r == w * c,
        -0x8000_0000_0000_0000 <= r <= 0x8000_0000_0000_0000,
{
    assert(-0x8000_0000_0000_0000 <= w * c <= 0x8000_0000_0000_0000) by (nonlinear_arith)
        requires
            0 <= w <= 0x1_0000_0000,
            -0x8000_0000 <= c <= 0x7fff_ffff,
    ;
    (w as i128) * (c as i128)
}

/// The inverse-square-distance-weighted centroid of the conductors.
pub fn centroid(point: Vec3, conductors: &Vec<Vec3>) -> (r: Vec3)
    requires
        conductors@.len() > 0,
    ensures
        r == centroid_spec(point, conductors@),
{
    let near: usize = nearest_of(point, conductors);
    let least: u128 = soften(point, conductors[near]);
    let mut total: u128 = 0;
    let mut mx: i128 = 0;
    let mut my: i128 = 0;
    let mut mz: i128 = 0;
    let mut i: usize = 0;
    while i < conductors.len()
        invariant
            i <= conductors@.len(),
            near < conductors@.len(),
            near == nearest_index(point, conductors@),
            is_nearest(point, conductors@, near as int),
            least == softened(point, conductors@[near as int]),
            least <= 3 * (0xffff_ffff * 0xffff_ffff),
            total == weight_total(point, conductors@, i as int),
            mx == moment(point, conductors@, 0, i as int),
            my == moment(point, conductors@, 1, i as int),
            mz == moment(point, conductors@, 2, i as int),
            0 <= total <= i * 0x1_0000_0000,
            i > near ==> total >= 1,
            -(i * 0x8000_0000_0000_0000) <= mx <= i * 0x8000_0000_0000_0000,
            -(i * 0x8000_0000_0000_0000) <= my <= i * 0x8000_0000_0000_0000,
            -(i * 0x8000_0000_0000_0000) <= mz <= i * 0x8000_0000_0000_0000,
        decreases conductors@.len() - i,
    {
        let c = conductors[i];
        let d: u128 = soften(point, c);
        assert(dist_sq_spec(point, conductors@[near as int]) <= dist_sq_spec(
            point,
            conductors@[i as int],
        ));
        let w: u128 = weigh_conductor(least, d);
        total = total + w;
        mx = mx + weighted(w, c.x);
        my = my + weighted(w, c.y);
        mz = mz + weighted(w, c.z);
        i = i + 1;
    }
    Vec3 {
        x: clamp_coord(scale_down(mx, total)),
        y: clamp_coord(scale_down(my, total)),
        z: clamp_coord(scale_down(mz, total)),
    }
}

/// The attraction of `point` under the policy `targeting`, where a
/// conductor is known to be present.
pub fn pull(point: Vec3, conductors: &Vec<Vec3>, targeting: Targeting) -> (a: Attraction)
    requires
        conductors@.len() > 0,
    ensures
        a == attraction_of(point, conductors@, targeting),
        is_attraction(point, conductors@, targeting, a),
{
    let target = match targeting {
        Targeting::Nearest => conductors[nearest_of(point, conductors)],
        Targeting::WeightedCentroid => centroid(point, conductors),
    };
    let remaining_distance: u64 = isqrt(dist_sq(point, target));
    proof {
        let n = dist_sq_spec(point, target);
        lemma_sqrt_unique(n, remaining_distance as int, sqrt_floor(n));
        if targeting == Targeting::Nearest {
            let i = nearest_index(point, conductors@);
            assert(is_nearest(point, conductors@, i) && conductors@[i] == target);
        }
    }
    Attraction { target, remaining_distance, direction: direction(point, target, remaining_distance) }
}

/// Computes the attraction target of `point` under the policy `targeting`,
/// the distance that remains to it and the direction to it. Fails exactly
/// when there is no conductor.
pub fn attraction(point: Vec3, conductors: &Vec<Vec3>, targeting: Targeting) -> (r: Result<
    Attraction,
    StrikeError,
>)
    ensures
        conductors@.len() == 0 <==> r is Err,
        r is Err ==> r == Err::<Attraction, StrikeError>(StrikeError::NoConductors),
        r is Ok ==> is_attraction(point, conductors@, targeting, r->Ok_0),
        r is Ok ==> r->Ok_0 == attraction_of(point, conductors@, targeting),
{
    if conductors.len() == 0 {
        Err(StrikeError::NoConductors)
    } else {
        Ok(pull(point, conductors, targeting))
    }
}

} // verus!
