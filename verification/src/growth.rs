//! The rules of one branch of a growth step, each a function of the values
//! drawn for it.

use vstd::prelude::*;
use crate::attraction::Attraction;
use crate::config::Config;
use crate::geometry::{
    clamp_coord, clamp_coord_spec, div_toward_zero, scale_down, zero_vec, Vec3, UNIT,
};

verus! {

/// One line of the bolt, from a tip to the point grown from it.
#[derive(Clone, Copy, Debug, PartialEq, Eq, Structural)]
pub struct Segment {
    pub start: Vec3,
    pub end: Vec3,
}

/// The standard deviation of the noise at `remaining` from the target, in
/// thousandths: proportional to the distance, within the configured band.
pub open spec fn noise_sigma_spec(remaining: int, cfg: Config) -> int {
    let raw = remaining * UNIT / (cfg.noise_falloff as int);
    if raw < cfg.noise_range.0 {
        cfg.noise_range.0 as int
    } else if raw > cfg.noise_range.1 {
        cfg.noise_range.1 as int
    } else {
        raw
    }
}

/// The bounds of the number of branches of a tip: exactly one for the first
/// tip of a step, the configured band for the others.
pub open spec fn branch_bounds_spec(first: bool, cfg: Config) -> (u32, u32) {
    if first {
        (1u32, 1u32)
    } else {
        cfg.branch_count_range
    }
}

/// Whether a tip at `remaining` from its target makes contact.
pub open spec fn is_contact_spec(remaining: int, cfg: Config) -> bool {
    remaining < cfg.contact_threshold
}

/// The longest step that may be drawn at `remaining` from the target: the
/// distance itself, kept above the shortest step and within the longest.
pub open spec fn step_length_cap_spec(remaining: int, cfg: Config) -> int {
    if remaining <= cfg.step_length_range.0 {
        cfg.step_length_range.0 + 1
    } else if remaining > cfg.step_length_range.1 {
        cfg.step_length_range.1 as int
    } else {
        remaining
    }
}

/// The length of a step: the whole remaining distance on contact, else the
/// length drawn for it.
pub open spec fn step_length_spec(remaining: int, drawn: u32, cfg: Config) -> int {
    if is_contact_spec(remaining, cfg) {
        remaining
    } else {
        drawn as int
    }
}

/// The noise of the `k`-th branch: the `k`-th triple supplied, or none where
/// fewer were supplied. A triple holds three standard normal draws, in
/// thousandths.
pub open spec fn noise_at_spec(noise: Seq<Vec3>, k: int) -> Vec3 {
    if 0 <= k < noise.len() {
        noise[k]
    } else {
        zero_vec()
    }
}

/// One coordinate of the end of a branch: the start, moved by the length of
/// the step along the direction with the scaled noise added to it.
pub open spec fn advance_coord(p: int, dir: int, sigma: int, z: int, length: int) -> int {
    clamp_coord_spec(
        p + div_toward_zero((dir + div_toward_zero(sigma * z, UNIT as int)) * length, UNIT as int),
    )
}

/// The end of a branch that starts at `point`.
pub open spec fn branch_point_spec(
    point: Vec3,
    direction: Vec3,
    sigma: int,
    z: Vec3,
    length: int,
) -> Vec3 {
    Vec3 {
        x: advance_coord(point.x as int, direction.x as int, sigma, z.x as int, length) as i32,
        y: advance_coord(point.y as int, direction.y as int, sigma, z.y as int, length) as i32,
        z: advance_coord(point.z as int, direction.z as int, sigma, z.z as int, length) as i32,
    }
}

/// The branch grown from `point` under attraction `a`, with noise `z` and
/// the drawn length `drawn`.
pub open spec fn branch_spec(point: Vec3, a: Attraction, z: Vec3, drawn: u32, cfg: Config) -> Segment {
    Segment {
        start: point,
        end: branch_point_spec(
            point,
            a.direction,
            noise_sigma_spec(a.remaining_distance as int, cfg),
            z,
            step_length_spec(a.remaining_distance as int, drawn, cfg),
        ),
    }
}

/// The standard deviation of the noise at `remaining` from the target.
pub fn noise_sigma(remaining: u64, cfg: &Config) -> (r: u32)
    requires
        cfg.valid(),
    ensures
        r == noise_sigma_spec(remaining as int, *cfg),
{
    assert(remaining * UNIT <= 0xffff_ffff_ffff_ffff * 1000) by (nonlinear_arith)
        requires
            0 <= remaining <= 0xffff_ffff_ffff_ffff,
            UNIT == 1000,
    ;
    let raw: u128 = (remaining as u128) * (UNIT as u128) / (cfg.noise_falloff as u128);
    if raw < cfg.noise_range.0 as u128 {
        cfg.noise_range.0
    } else if raw > cfg.noise_range.1 as u128 {
        cfg.noise_range.1
    } else {
        raw as u32
    }
}

/// The bounds of the number of branches of a tip.
pub fn branch_bounds(first: bool, cfg: &Config) -> (r: (u32, u32))
    ensures
        r == branch_bounds_spec(first, *cfg),
        cfg.valid() ==> r.0 <= r.1,
{
    if first {
        (1, 1)
    } else {
        cfg.branch_count_range
    }
}

/// Whether a tip at `remaining` from its target makes contact.
pub fn is_contact(remaining: u64, cfg: &Config) -> (r: bool)
    ensures
        r == is_contact_spec(remaining as int, *cfg),
{
    remaining < cfg.contact_threshold as u64
}

/// The longest step that may be drawn at `remaining` from the target.
pub fn step_length_cap(remaining: u64, cfg: &Config) -> (r: u32)
    requires
        cfg.valid(),
    ensures
        r == step_length_cap_spec(remaining as int, *cfg),
        cfg.step_length_range.0 < r <= cfg.step_length_range.1,
{
    if remaining <= cfg.step_length_range.0 as u64 {
        cfg.step_length_range.0 + 1
    } else if remaining > cfg.step_length_range.1 as u64 {
        cfg.step_length_range.1
    } else {
        remaining as u32
    }
}

/// The noise of the `k`-th branch after `offset`.
pub fn noise_at(noise: &Vec<Vec3>, offset: usize, k: usize) -> (r: Vec3)
    ensures
        r == noise_at_spec(noise@, offset + k),
{
    if offset < noise.len() && k < noise.len() - offset {
        noise[offset + k]
    } else {
        Vec3 { x: 0, y: 0, z: 0 }
    }
}

/// One coordinate of the end of a branch.
fn advance_component(p: i32, dir: i32, sigma: u32, z: i32, length: u64) -> (r: i32)
    requires
        length <= u32::MAX,
    ensures
        r == advance_coord(p as int, dir as int, sigma as int, z as int, length as int),
{
    assert(-0x1_0000_0000 * 0x1_0000_0000 <= sigma * z <= 0x1_0000_0000 * 0x1_0000_0000)
        by (nonlinear_arith)
        requires
            0 <= sigma <= 0xffff_ffff,
            -0x8000_0000 <= z <= 0x7fff_ffff,
    ;
    let jitter: i128 = scale_down((sigma as i128) * (z as i128), UNIT as u128);
    assert(-0x1_0000_0000 * 0x1_0000_0000 <= jitter <= 0x1_0000_0000 * 0x1_0000_0000)
        by (nonlinear_arith)
        requires
            jitter == div_toward_zero(sigma * z, 1000),
            -0x1_0000_0000 * 0x1_0000_0000 <= sigma * z <= 0x1_0000_0000 * 0x1_0000_0000,
    ;
    let heading: i128 = dir as i128 + jitter;
    assert(-0x2_0000_0000_0000_0000 * 0x1_0000_0000 <= heading * length
        <= 0x2_0000_0000_0000_0000 * 0x1_0000_0000) by (nonlinear_arith)
        requires
            -0x2_0000_0000_0000_0000 <= heading <= 0x2_0000_0000_0000_0000,
            0 <= length <= 0xffff_ffff,
    ;
    let moved: i128 = scale_down(heading * (length as i128), UNIT as u128);
    assert(-0x2_0000_0000_0000_0000 * 0x1_0000_0000 <= moved <= 0x2_0000_0000_0000_0000
        * 0x1_0000_0000) by (nonlinear_arith)
        requires
            moved == div_toward_zero(heading * length, 1000),
            -0x2_0000_0000_0000_0000 * 0x1_0000_0000 <= heading * length
                <= 0x2_0000_0000_0000_0000 * 0x1_0000_0000,
    ;
    clamp_coord(p as i128 + moved)
}

/// The end of a branch that starts at `point` and runs for `length` along
/// `direction`, disturbed by the noise `z` scaled by `sigma`.
pub fn branch_point(point: Vec3, direction: Vec3, sigma: u32, z: Vec3, length: u32) -> (r: Vec3)
    ensures
        r == branch_point_spec(point, direction, sigma as int, z, length as int),
{
    Vec3 {
        x: advance_component(point.x, direction.x, sigma, z.x, length as u64),
        y: advance_component(point.y, direction.y, sigma, z.y, length as u64),
        z: advance_component(point.z, direction.z, sigma, z.z, length as u64),
    }
}

/// Grows one branch from `point` under attraction `a`: a step of the whole
/// remaining distance on contact, of the drawn length otherwise.
pub fn branch(point: Vec3, a: &Attraction, z: Vec3, drawn: u32, cfg: &Config) -> (r: Segment)
    requires
        cfg.valid(),
    ensures
        r == branch_spec(point, *a, z, drawn, *cfg),
{
    let sigma: u32 = noise_sigma(a.remaining_distance, cfg);
    let length: u32 = if is_contact(a.remaining_distance, cfg) {
        a.remaining_distance as u32
    } else {
        drawn
    };
    Segment { start: point, end: branch_point(point, a.direction, sigma, z, length) }
}

} // verus!
