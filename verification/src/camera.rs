//! The orbit camera: the viewer's navigation state machine.
//!
//! The camera is in one of two modes. **Free** flight translates the position
//! along the camera's own axes. **Locked** orbit keeps the offset from the
//! lock centre in spherical form and pans and zooms it: the polar angle is
//! clamped away from the poles, the azimuth wraps around the full turn, and
//! the distance to the locked surface scales pan speed and caps zooming.
//!
//! The surrounding application supplies the two quantities that need
//! floating-point work: the spherical form of the camera's offset when a lock
//! is taken (an arc-cosine and an arc-tangent), and the per-frame zoom factor
//! (an exponential in the elapsed time). Everything done with those values is
//! verified here; an offset whose conversion degenerated arrives as `None`
//! and makes the next move reset the camera to a canonical point rather than
//! carry the damage along.

use crate::coords::{SphericalPoint, Vec3Fix, RADIUS_LIMIT_FIX};
use crate::fixmath::{
    clamp_spec, emod128, lemma_product_bound, lemma_tdiv_bound, lemma_tdiv_exact,
    lemma_tdiv_of_divisible, mul_wide, sin_fix, sin_fix_spec, tdiv, tdiv128, HALF_PI_FIX, PI_FIX,
    SCALE, TWO_PI_FIX,
};
use vstd::prelude::*;

verus! {

/// The largest configured speed: one thousand units, radians or zoom factors
/// per second.
pub const SPEED_LIMIT_FIX: i64 = 1_000_000_000;

/// The largest input-vector component: a speed multiplier of one thousand.
pub const INPUT_LIMIT_FIX: i64 = 1_000_000_000;

/// The longest frame the camera accepts: a thousand seconds.
pub const ELAPSED_LIMIT_FIX: i64 = 1_000_000_000;

/// The pole guard: the polar angle is kept this far from `0` and `PI_FIX`.
pub const MIN_THETA_FIX: i64 = 10;

/// Zoom inputs below this magnitude (one hundredth) are ignored.
pub const ZOOM_DEADZONE_FIX: i64 = 10_000;

/// The coordinate range of free flight; positions saturate here.
pub const POS_LIMIT_FIX: i64 = 4_000_000_000_000_000;

/// The state of a taken lock: the orbit centre, the reference distance of
/// the locked surface, and the camera's offset from the centre in spherical
/// form — `None` when the conversion that produced it degenerated.
#[derive(Clone, Copy, Debug, PartialEq, Eq, Structural)]
pub struct LockData {
    pub rotate_point: Vec3Fix,
    pub zoom_dist: i64,
    pub offset: Option<SphericalPoint>,
}

/// The orbit camera.
#[derive(Clone, Copy, Debug, PartialEq, Eq, Structural)]
pub struct Camera {
    pub pos: Vec3Fix,
    pub dir: Vec3Fix,
    pub up: Vec3Fix,
    pub lock: Option<LockData>,
    /// World units per second of free flight.
    pub move_speed: i64,
    /// Radians per second of locked panning, at one radius from the surface
    /// at the equator.
    pub pan_speed: i64,
    /// Zoom factor per second of locked zooming.
    pub zoom_speed: i64,
}

/// The canonical point the camera resets to when a degenerate offset reaches
/// the rotation path: two units straight out at the equator.
pub open spec fn reset_offset_spec() -> SphericalPoint {
    SphericalPoint { radius: (2 * SCALE) as i64, theta: HALF_PI_FIX, phi: 0 }
}

/// The azimuth speedup that keeps ground speed even across latitudes:
/// one over `max(sin(theta), 1/4)`, floored so the speedup never exceeds
/// four.
pub open spec fn speedup_spec(theta: int) -> int {
    let s = if sin_fix_spec(theta) < SCALE / 4 {
        SCALE as int / 4
    } else {
        sin_fix_spec(theta)
    };
    (SCALE * SCALE) / s
}

/// The input scale common to both pan angles: pan speed times elapsed time.
pub open spec fn pan_base_spec(pan_speed: int, elapsed: int) -> int {
    tdiv(pan_speed * elapsed, SCALE as int)
}

/// The raw azimuth delta of one pan step: base times the sideways input,
/// times the latitude speedup, times the distance to the locked surface.
pub open spec fn pan_dphi_spec(
    pan_speed: int,
    elapsed: int,
    vx: int,
    theta: int,
    dist_mult: int,
) -> int {
    tdiv(
        tdiv(tdiv(pan_base_spec(pan_speed, elapsed) * vx, SCALE as int) * speedup_spec(theta), SCALE as int)
            * dist_mult,
        SCALE as int,
    )
}

/// The raw polar delta of one pan step: base times the forward input, times
/// the distance to the locked surface.
pub open spec fn pan_dtheta_spec(pan_speed: int, elapsed: int, vz: int, dist_mult: int) -> int {
    tdiv(tdiv(pan_base_spec(pan_speed, elapsed) * vz, SCALE as int) * dist_mult, SCALE as int)
}

/// The new orbit distance after one zoom step: the offset from the locked
/// surface divided by the factor, capped above so the radius stays in the
/// coordinate range and below so it stays nonnegative.
pub open spec fn zoom_radius_spec(radius: int, zoom_dist: int, factor: int) -> int {
    let scaled = tdiv((radius - zoom_dist) * SCALE, factor);
    let capped = if scaled > RADIUS_LIMIT_FIX - zoom_dist {
        RADIUS_LIMIT_FIX - zoom_dist
    } else {
        scaled
    };
    let floored = if capped < -zoom_dist {
        -zoom_dist
    } else {
        capped
    };
    zoom_dist + floored
}

/// One pan step applied to a spherical offset: the polar angle moves by the
/// raw delta but is clamped to `[MIN_THETA_FIX, PI_FIX - MIN_THETA_FIX]`,
/// and the azimuth wraps modulo the full turn.
pub open spec fn pan_offset_spec(
    s: SphericalPoint,
    zoom_dist: int,
    pan_speed: int,
    v: Vec3Fix,
    elapsed: int,
) -> SphericalPoint {
    let dist_mult = s.radius - zoom_dist;
    let dtheta = pan_dtheta_spec(pan_speed, elapsed, v.z as int, dist_mult);
    let dphi = pan_dphi_spec(pan_speed, elapsed, v.x as int, s.theta as int, dist_mult);
    SphericalPoint {
        radius: s.radius,
        theta: clamp_spec(
            s.theta + dtheta,
            MIN_THETA_FIX as int,
            PI_FIX - MIN_THETA_FIX,
        ) as i64,
        phi: ((s.phi + dphi) % (TWO_PI_FIX as int)) as i64,
    }
}

/// Whether an input vector's vertical component asks for a zoom.
pub open spec fn zooming_spec(v: Vec3Fix) -> bool {
    v.y >= ZOOM_DEADZONE_FIX || v.y <= -ZOOM_DEADZONE_FIX
}

/// One full locked step on a spherical offset: pan, then zoom when asked.
/// A degenerate offset (`None`) becomes the canonical reset point before the
/// zoom, and the pan deltas of that frame are absorbed.
pub open spec fn locked_offset_spec(
    offset: Option<SphericalPoint>,
    zoom_dist: int,
    pan_speed: int,
    v: Vec3Fix,
    elapsed: int,
    zoom_factor: int,
) -> SphericalPoint {
    let panned = match offset {
        Some(s) => pan_offset_spec(s, zoom_dist, pan_speed, v, elapsed),
        None => reset_offset_spec(),
    };
    if zooming_spec(v) {
        SphericalPoint {
            radius: zoom_radius_spec(panned.radius as int, zoom_dist, zoom_factor) as i64,
            theta: panned.theta,
            phi: panned.phi,
        }
    } else {
        panned
    }
}

/// The rightward axis of free flight: the unit cross product of the view
/// direction and the up vector, or the zero vector when the two are
/// parallel.
pub open spec fn free_right_spec(dir: Vec3Fix, up: Vec3Fix) -> Vec3Fix {
    let c = dir.cross_spec(up);
    if c.is_zero_spec() {
        c
    } else {
        c.normalize_spec()
    }
}

/// One coordinate after a free-flight step: the right, up and backward axis
/// coordinates weighted by the input vector, rescaled, scaled by speed and
/// time, added to the position, saturating at the coordinate range.
pub open spec fn free_pos_component_spec(
    pc: int,
    rc: int,
    uc: int,
    dc: int,
    vx: int,
    vy: int,
    vz: int,
    k: int,
) -> int {
    clamp_spec(
        pc + tdiv(k * tdiv(rc * vx + uc * vy - dc * vz, SCALE as int), SCALE as int),
        -POS_LIMIT_FIX as int,
        POS_LIMIT_FIX as int,
    )
}

/// The position after one free-flight step.
pub open spec fn free_pos_spec(
    pos: Vec3Fix,
    dir: Vec3Fix,
    up: Vec3Fix,
    v: Vec3Fix,
    move_speed: int,
    elapsed: int,
) -> Vec3Fix {
    let right = free_right_spec(dir, up);
    let k = tdiv(move_speed * elapsed, SCALE as int);
    Vec3Fix {
        x: free_pos_component_spec(
            pos.x as int,
            right.x as int,
            up.x as int,
            dir.x as int,
            v.x as int,
            v.y as int,
            v.z as int,
            k,
        ) as i64,
        y: free_pos_component_spec(
            pos.y as int,
            right.y as int,
            up.y as int,
            dir.y as int,
            v.x as int,
            v.y as int,
            v.z as int,
            k,
        ) as i64,
        z: free_pos_component_spec(
            pos.z as int,
            right.z as int,
            up.z as int,
            dir.z as int,
            v.x as int,
            v.y as int,
            v.z as int,
            k,
        ) as i64,
    }
}

/// The view direction after a locked step whose new offset is `disp`:
/// looking back at the centre, or unchanged when the offset has no
/// direction.
pub open spec fn locked_dir_spec(disp: Vec3Fix, old_dir: Vec3Fix) -> Vec3Fix {
    if disp.is_zero_spec() {
        old_dir
    } else {
        disp.normalize_spec().neg_spec()
    }
}

impl Camera {
    /// The camera's configuration and state lie in the library's ranges.
    pub open spec fn wf(self) -> bool {
        0 <= self.move_speed <= SPEED_LIMIT_FIX && 0 <= self.pan_speed <= SPEED_LIMIT_FIX && 0
            <= self.zoom_speed <= SPEED_LIMIT_FIX && self.dir.bounded(2 * SCALE)
            && self.up.bounded(2 * SCALE) && self.pos.bounded(POS_LIMIT_FIX as int)
            && match self.lock {
            Some(l) => l.rotate_point.bounded(RADIUS_LIMIT_FIX as int) && 0 <= l.zoom_dist
                <= RADIUS_LIMIT_FIX && match l.offset {
                Some(s) => s.wf() && s.radius <= RADIUS_LIMIT_FIX,
                None => true,
            },
            None => true,
        }
    }

    pub fn new(
        pos: Vec3Fix,
        dir: Vec3Fix,
        up: Vec3Fix,
        move_speed: i64,
        pan_speed: i64,
        zoom_speed: i64,
    ) -> (r: Camera)
        requires
            pos.bounded(POS_LIMIT_FIX as int),
            dir.bounded(2 * SCALE),
            up.bounded(2 * SCALE),
            0 <= move_speed <= SPEED_LIMIT_FIX,
            0 <= pan_speed <= SPEED_LIMIT_FIX,
            0 <= zoom_speed <= SPEED_LIMIT_FIX,
        ensures
            r == (Camera { pos, dir, up, lock: None, move_speed, pan_speed, zoom_speed }),
            r.wf(),
    {
        Camera { pos, dir, up, lock: None, move_speed, pan_speed, zoom_speed }
    }

    /// Take a lock: orbit the given centre at the given reference distance.
    /// The view turns toward the centre, and the spherical form of the
    /// camera's offset — computed outside, since it takes inverse
    /// trigonometry — is carried into the lock, `None` when that computation
    /// degenerated.
    pub fn lock(&mut self, to_point: Vec3Fix, zoom_dist: i64, offset: Option<SphericalPoint>)
        requires
            old(self).wf(),
            to_point.bounded(RADIUS_LIMIT_FIX as int),
            0 <= zoom_dist <= RADIUS_LIMIT_FIX,
            match offset {
                Some(s) => s.wf() && s.radius <= RADIUS_LIMIT_FIX,
                None => true,
            },
        ensures
            final(self).wf(),
            final(self).lock == Some(LockData { rotate_point: to_point, zoom_dist, offset }),
            final(self).pos == old(self).pos,
            final(self).up == old(self).up,
            final(self).move_speed == old(self).move_speed,
            final(self).pan_speed == old(self).pan_speed,
            final(self).zoom_speed == old(self).zoom_speed,
            final(self).dir == ({
                let d = to_point.sub_spec(old(self).pos);
                if d.is_zero_spec() {
                    old(self).dir
                } else {
                    d.normalize_spec()
                }
            }),
    {
        let d = to_point.sub(&self.pos);
        if !(d.x == 0 && d.y == 0 && d.z == 0) {
            proof {
                lemma_nonzero_vec_sq_len(d);
            }
            self.dir = d.normalize();
        }
        self.lock = Some(LockData { rotate_point: to_point, zoom_dist, offset });
    }

    /// Release the lock; position, direction and configuration stay.
    pub fn unlock(&mut self)
        ensures
            *final(self) == (Camera { lock: None, ..*old(self) }),
    {
        self.lock = None;
    }

    pub fn is_locked(&self) -> (r: bool)
        ensures
            r == (self.lock is Some),
    {
        self.lock.is_some()
    }

    pub fn get_pos(&self) -> (r: Vec3Fix)
        ensures
            r == self.pos,
    {
        self.pos
    }

    /// One navigation step. In free mode the position moves along the
    /// camera's axes by the input vector, speed and elapsed time. In locked
    /// mode the offset from the centre pans and zooms as
    /// [`locked_offset_spec`] says, the position follows it, and the view
    /// turns back toward the centre. `zoom_factor` is the exponential
    /// per-frame factor, computed outside; it is ignored unless the input
    /// asks for a zoom.
    pub fn move_cam(&mut self, v: &Vec3Fix, elapsed: i64, zoom_factor: i64)
        requires
            old(self).wf(),
            v.bounded(INPUT_LIMIT_FIX as int),
            0 <= elapsed <= ELAPSED_LIMIT_FIX,
            zoom_factor >= 1,
        ensures
            final(self).wf(),
            final(self).up == old(self).up,
            final(self).move_speed == old(self).move_speed,
            final(self).pan_speed == old(self).pan_speed,
            final(self).zoom_speed == old(self).zoom_speed,
            old(self).lock is None ==> final(self).lock is None && final(self).dir == old(self).dir
                && final(self).pos == free_pos_spec(
                old(self).pos,
                old(self).dir,
                old(self).up,
                *v,
                old(self).move_speed as int,
                elapsed as int,
            ),
            match old(self).lock {
                Some(l) => ({
                    let s2 = locked_offset_spec(
                        l.offset,
                        l.zoom_dist as int,
                        old(self).pan_speed as int,
                        *v,
                        elapsed as int,
                        zoom_factor as int,
                    );
                    final(self).lock == Some(
                        LockData {
                            rotate_point: l.rotate_point,
                            zoom_dist: l.zoom_dist,
                            offset: Some(s2),
                        },
                    ) && final(self).pos == l.rotate_point.add_spec(s2.to_vec_spec())
                        && final(self).dir == locked_dir_spec(s2.to_vec_spec(), old(self).dir)
                }),
                None => true,
            },
    {
        let lock_copy = self.lock;
        match lock_copy {
            None => {
                let cross = self.dir.cross(&self.up);
                proof {
                    lemma_free_cross_bounds(self.dir, self.up);
                }
                let right: Vec3Fix = if cross.x == 0 && cross.y == 0 && cross.z == 0 {
                    cross
                } else {
                    proof {
                        lemma_nonzero_vec_sq_len(cross);
                    }
                    cross.normalize()
                };
                proof {
                    lemma_product_bound(
                        self.move_speed as int,
                        elapsed as int,
                        SPEED_LIMIT_FIX as int,
                        ELAPSED_LIMIT_FIX as int,
                    );
                    lemma_tdiv_bound(
                        self.move_speed as int * elapsed as int,
                        1_000_000_000_000,
                        SCALE as int,
                    );
                }
                let k: i64 = tdiv128(mul_wide(self.move_speed, elapsed), SCALE as i128) as i64;
                let nx: i64 = self.free_component(
                    right.x,
                    self.up.x,
                    self.dir.x,
                    v,
                    k,
                    self.pos.x,
                );
                let ny: i64 = self.free_component(
                    right.y,
                    self.up.y,
                    self.dir.y,
                    v,
                    k,
                    self.pos.y,
                );
                let nz: i64 = self.free_component(
                    right.z,
                    self.up.z,
                    self.dir.z,
                    v,
                    k,
                    self.pos.z,
                );
                self.pos = Vec3Fix { x: nx, y: ny, z: nz };
            },
            Some(l) => {
                let s2 = locked_offset_step(
                    l.offset,
                    l.zoom_dist,
                    self.pan_speed,
                    v,
                    elapsed,
                    zoom_factor,
                );
                let disp = s2.to_vec();
                let new_pos = l.rotate_point.add(&disp);
                let new_dir: Vec3Fix = if disp.x == 0 && disp.y == 0 && disp.z == 0 {
                    self.dir
                } else {
                    proof {
                        lemma_nonzero_vec_sq_len(disp);
                    }
                    disp.normalize().neg()
                };
                self.lock = Some(
                    LockData {
                        rotate_point: l.rotate_point,
                        zoom_dist: l.zoom_dist,
                        offset: Some(s2),
                    },
                );
                self.pos = new_pos;
                self.dir = new_dir;
            },
        }
    }

    /// One coordinate of a free-flight step: the world-space combination of
    /// the three axes, scaled and added to the position, saturating at the
    /// coordinate range.
    fn free_component(&self, rc: i64, uc: i64, dc: i64, v: &Vec3Fix, k: i64, pc: i64) -> (r: i64)
        requires
            -SCALE <= rc <= SCALE,
            -2 * SCALE <= uc <= 2 * SCALE,
            -2 * SCALE <= dc <= 2 * SCALE,
            v.bounded(INPUT_LIMIT_FIX as int),
            -1_000_000_000_000 <= k <= 1_000_000_000_000,
            -POS_LIMIT_FIX <= pc <= POS_LIMIT_FIX,
        ensures
            r == free_pos_component_spec(
                pc as int,
                rc as int,
                uc as int,
                dc as int,
                v.x as int,
                v.y as int,
                v.z as int,
                k as int,
            ),
    {
        proof {
            lemma_product_bound(rc as int, v.x as int, SCALE as int, INPUT_LIMIT_FIX as int);
            lemma_product_bound(uc as int, v.y as int, 2 * SCALE, INPUT_LIMIT_FIX as int);
            lemma_product_bound(dc as int, v.z as int, 2 * SCALE, INPUT_LIMIT_FIX as int);
            lemma_tdiv_bound(
                rc as int * v.x as int + uc as int * v.y as int - dc as int * v.z as int,
                5_000_000_000,
                SCALE as int,
            );
        }
        let combo: i64 = tdiv128(
            mul_wide(rc, v.x) + mul_wide(uc, v.y) - mul_wide(dc, v.z),
            SCALE as i128,
        ) as i64;
        proof {
            lemma_product_bound(k as int, combo as int, 1_000_000_000_000, 5_000_000_000);
            lemma_tdiv_bound(k as int * combo as int, 5_000_000_000_000_000, SCALE as int);
        }
        let d: i64 = tdiv128(mul_wide(k, combo), SCALE as i128) as i64;
        let sum: i64 = pc + d;
        if sum < -POS_LIMIT_FIX {
            -POS_LIMIT_FIX
        } else if sum > POS_LIMIT_FIX {
            POS_LIMIT_FIX
        } else {
            sum
        }
    }
}

/// The polar angle after `n` pan steps, each adding the same raw delta and
/// clamping to `[MIN_THETA_FIX, PI_FIX - MIN_THETA_FIX]`; this is what
/// repeated locked moves with a constant forward input do to `theta` while
/// the distance to the surface stays put.
pub open spec fn iterate_theta_spec(theta: int, dtheta: int, n: nat) -> int
    decreases n,
{
    if n == 0 {
        theta
    } else {
        clamp_spec(
            iterate_theta_spec(theta, dtheta, (n - 1) as nat) + dtheta,
            MIN_THETA_FIX as int,
            PI_FIX - MIN_THETA_FIX,
        )
    }
}

/// However many pan steps are taken and however large their delta, the polar
/// angle never leaves `[MIN_THETA_FIX, PI_FIX - MIN_THETA_FIX]`.
pub proof fn lemma_pan_theta_in_range(theta: int, dtheta: int, n: nat)
    requires
        MIN_THETA_FIX <= theta <= PI_FIX - MIN_THETA_FIX,
    ensures
        MIN_THETA_FIX <= iterate_theta_spec(theta, dtheta, n) <= PI_FIX - MIN_THETA_FIX,
    decreases n,
{
    if n > 0 {
        lemma_pan_theta_in_range(theta, dtheta, (n - 1) as nat);
    }
}

/// Panning toward the pole with a constant negative delta converges: after
/// enough steps the polar angle sits exactly on the pole guard and stays
/// there.
pub proof fn lemma_pan_theta_converges(theta: int, dtheta: int, n: nat)
    requires
        MIN_THETA_FIX <= theta <= PI_FIX - MIN_THETA_FIX,
        dtheta <= -1,
        n >= theta - MIN_THETA_FIX,
    ensures
        iterate_theta_spec(theta, dtheta, n) == MIN_THETA_FIX,
{
    lemma_pan_theta_descends(theta, dtheta, n);
    lemma_pan_theta_in_range(theta, dtheta, n);
    assert(theta + n * dtheta <= theta - n) by (nonlinear_arith)
        requires
            dtheta <= -1,
            n >= 0,
    ;
}

/// Each pan step with a negative delta either tracks the linear descent or
/// has already reached the pole guard.
proof fn lemma_pan_theta_descends(theta: int, dtheta: int, n: nat)
    requires
        MIN_THETA_FIX <= theta <= PI_FIX - MIN_THETA_FIX,
        dtheta <= -1,
    ensures
        iterate_theta_spec(theta, dtheta, n) <= theta + n * dtheta || iterate_theta_spec(
            theta,
            dtheta,
            n,
        ) == MIN_THETA_FIX,
    decreases n,
{
    if n == 0 {
        assert(n * dtheta == 0) by (nonlinear_arith)
            requires
                n == 0,
        ;
    } else {
        let m = (n - 1) as nat;
        let prev = iterate_theta_spec(theta, dtheta, m);
        lemma_pan_theta_descends(theta, dtheta, m);
        lemma_pan_theta_in_range(theta, dtheta, m);
        assert(theta + m * dtheta + dtheta == theta + n * dtheta) by (nonlinear_arith)
            requires
                m == n - 1,
        ;
        if prev == MIN_THETA_FIX {
            assert(iterate_theta_spec(theta, dtheta, n) == clamp_spec(
                prev + dtheta,
                MIN_THETA_FIX as int,
                PI_FIX - MIN_THETA_FIX,
            ));
            assert(iterate_theta_spec(theta, dtheta, n) == MIN_THETA_FIX);
        } else {
            assert(prev <= theta + m * dtheta);
            assert(prev + dtheta <= theta + n * dtheta);
        }
    }
}

/// After any pan step the azimuth lies in `[0, 2 pi)`: each step wraps it
/// modulo the full turn, so it stays there through any sequence of pans.
pub proof fn lemma_pan_phi_in_range(
    s: SphericalPoint,
    zoom_dist: int,
    pan_speed: int,
    v: Vec3Fix,
    elapsed: int,
)
    ensures
        0 <= pan_offset_spec(s, zoom_dist, pan_speed, v, elapsed).phi < TWO_PI_FIX,
{
    let dist_mult = s.radius - zoom_dist;
    let dphi = pan_dphi_spec(pan_speed, elapsed, v.x as int, s.theta as int, dist_mult);
    vstd::arithmetic::div_mod::lemma_mod_bound(s.phi + dphi, TWO_PI_FIX as int);
}

/// Zoom steps compose exponentially: zooming by `f1` and then by `f2` lands
/// at the same distance as one zoom by the product factor `f1 * f2`. Stated
/// on the fixed-point grid for the inputs on which no rounding and no cap
/// intervenes: each division is exact and every intermediate offset lies in
/// the coordinate range.
pub proof fn lemma_zoom_composition(radius: int, zoom_dist: int, f1: int, f2: int)
    requires
        f1 >= 1,
        f2 >= 1,
        f1 * f2 >= SCALE,
        ((radius - zoom_dist) * SCALE) % f1 == 0,
        (f1 * f2) % (SCALE as int) == 0,
        (tdiv((radius - zoom_dist) * SCALE, f1) * SCALE) % f2 == 0,
        -zoom_dist <= tdiv((radius - zoom_dist) * SCALE, f1) <= RADIUS_LIMIT_FIX - zoom_dist,
        -zoom_dist <= tdiv(tdiv((radius - zoom_dist) * SCALE, f1) * SCALE, f2) <= RADIUS_LIMIT_FIX
            - zoom_dist,
    ensures
        zoom_radius_spec(zoom_radius_spec(radius, zoom_dist, f1), zoom_dist, f2)
            == zoom_radius_spec(radius, zoom_dist, tdiv(f1 * f2, SCALE as int)),
{
    let o = radius - zoom_dist;
    let k1 = tdiv(o * SCALE, f1);
    let k2 = tdiv(k1 * SCALE, f2);
    let m = tdiv(f1 * f2, SCALE as int);
    lemma_tdiv_of_divisible(o * SCALE, f1);
    lemma_tdiv_of_divisible(k1 * SCALE, f2);
    assert(f1 * f2 >= 0);
    lemma_tdiv_of_divisible(f1 * f2, SCALE as int);
    assert(m >= 1) by (nonlinear_arith)
        requires
            m * SCALE == f1 * f2,
            f1 * f2 >= SCALE,
            SCALE == 1_000_000,
    ;
    assert(o * SCALE == k2 * m) by (nonlinear_arith)
        requires
            k1 * f1 == o * SCALE,
            k2 * f2 == k1 * SCALE,
            m * SCALE == f1 * f2,
            SCALE == 1_000_000,
    ;
    lemma_tdiv_exact(o * SCALE, m, k2);
    assert(zoom_radius_spec(radius, zoom_dist, f1) == zoom_dist + k1);
    assert(zoom_radius_spec(zoom_dist + k1, zoom_dist, f2) == zoom_dist + k2);
    assert(zoom_radius_spec(radius, zoom_dist, m) == zoom_dist + k2);
}

/// A vector with a nonzero component has positive squared length.
proof fn lemma_nonzero_vec_sq_len(v: Vec3Fix)
    requires
        !v.is_zero_spec(),
    ensures
        v.sq_len_spec() > 0,
{
    assert(v.x * v.x + v.y * v.y + v.z * v.z > 0) by (nonlinear_arith)
        requires
            v.x != 0 || v.y != 0 || v.z != 0,
    ;
}

/// The cross product of the view axes stays well inside the vector range.
proof fn lemma_free_cross_bounds(dir: Vec3Fix, up: Vec3Fix)
    requires
        dir.bounded(2 * SCALE),
        up.bounded(2 * SCALE),
    ensures
        dir.cross_spec(up).bounded(1_000_000_000_000_000_000),
        -8 * SCALE <= dir.cross_spec(up).x <= 8 * SCALE,
        -8 * SCALE <= dir.cross_spec(up).y <= 8 * SCALE,
        -8 * SCALE <= dir.cross_spec(up).z <= 8 * SCALE,
{
    assert(-8_000_000_000_000 <= dir.y * up.z - dir.z * up.y <= 8_000_000_000_000
        && -8_000_000_000_000 <= dir.z * up.x - dir.x * up.z <= 8_000_000_000_000
        && -8_000_000_000_000 <= dir.x * up.y - dir.y * up.x <= 8_000_000_000_000)
        by (nonlinear_arith)
        requires
            -2_000_000 <= dir.x <= 2_000_000,
            -2_000_000 <= dir.y <= 2_000_000,
            -2_000_000 <= dir.z <= 2_000_000,
            -2_000_000 <= up.x <= 2_000_000,
            -2_000_000 <= up.y <= 2_000_000,
            -2_000_000 <= up.z <= 2_000_000,
    ;
    lemma_tdiv_bound(dir.y * up.z - dir.z * up.y, 8_000_000, SCALE as int);
    lemma_tdiv_bound(dir.z * up.x - dir.x * up.z, 8_000_000, SCALE as int);
    lemma_tdiv_bound(dir.x * up.y - dir.y * up.x, 8_000_000, SCALE as int);
}

/// One locked step, executably: the verified heart of locked navigation.
fn locked_offset_step(
    offset: Option<SphericalPoint>,
    zoom_dist: i64,
    pan_speed: i64,
    v: &Vec3Fix,
    elapsed: i64,
    zoom_factor: i64,
) -> (r: SphericalPoint)
    requires
        match offset {
            Some(s) => s.wf() && s.radius <= RADIUS_LIMIT_FIX,
            None => true,
        },
        0 <= zoom_dist <= RADIUS_LIMIT_FIX,
        0 <= pan_speed <= SPEED_LIMIT_FIX,
        v.bounded(INPUT_LIMIT_FIX as int),
        0 <= elapsed <= ELAPSED_LIMIT_FIX,
        zoom_factor >= 1,
    ensures
        r == locked_offset_spec(
            offset,
            zoom_dist as int,
            pan_speed as int,
            *v,
            elapsed as int,
            zoom_factor as int,
        ),
        r.wf(),
        r.radius <= RADIUS_LIMIT_FIX,
{
    let panned: SphericalPoint = match offset {
        Some(s) => {
            proof {
                lemma_product_bound(
                    pan_speed as int,
                    elapsed as int,
                    SPEED_LIMIT_FIX as int,
                    ELAPSED_LIMIT_FIX as int,
                );
                lemma_tdiv_bound(
                    pan_speed as int * elapsed as int,
                    1_000_000_000_000,
                    SCALE as int,
                );
            }
            let base: i64 = tdiv128(mul_wide(pan_speed, elapsed), SCALE as i128) as i64;
            proof {
                lemma_product_bound(
                    base as int,
                    v.z as int,
                    1_000_000_000_000,
                    INPUT_LIMIT_FIX as int,
                );
                lemma_tdiv_bound(
                    base as int * v.z as int,
                    1_000_000_000_000_000,
                    SCALE as int,
                );
                lemma_product_bound(
                    base as int,
                    v.x as int,
                    1_000_000_000_000,
                    INPUT_LIMIT_FIX as int,
                );
                lemma_tdiv_bound(
                    base as int * v.x as int,
                    1_000_000_000_000_000,
                    SCALE as int,
                );
            }
            let raw_x: i64 = tdiv128(mul_wide(base, v.x), SCALE as i128) as i64;
            let raw_z: i64 = tdiv128(mul_wide(base, v.z), SCALE as i128) as i64;
            let sin_t: i64 = sin_fix(s.theta);
            let floor_s: i64 = if sin_t < SCALE / 4 {
                SCALE / 4
            } else {
                sin_t
            };
            let speedup: i64 = (SCALE * SCALE) / floor_s;
            proof {
                vstd::arithmetic::div_mod::lemma_div_pos_is_pos(
                    (SCALE * SCALE) as int,
                    floor_s as int,
                );
                vstd::arithmetic::div_mod::lemma_div_is_ordered_by_denominator(
                    (SCALE * SCALE) as int,
                    (SCALE / 4) as int,
                    floor_s as int,
                );
                lemma_product_bound(raw_x as int, speedup as int, 1_000_000_000_000_000, 4_000_000);
                lemma_tdiv_bound(
                    raw_x as int * speedup as int,
                    4_000_000_000_000_000,
                    SCALE as int,
                );
            }
            let t1: i64 = tdiv128(mul_wide(raw_x, speedup), SCALE as i128) as i64;
            let dist_mult: i64 = s.radius - zoom_dist;
            proof {
                lemma_product_bound(
                    t1 as int,
                    dist_mult as int,
                    4_000_000_000_000_000,
                    RADIUS_LIMIT_FIX as int,
                );
                lemma_tdiv_bound(
                    t1 as int * dist_mult as int,
                    4_000_000_000_000_000_000_000_000,
                    SCALE as int,
                );
                lemma_product_bound(
                    raw_z as int,
                    dist_mult as int,
                    1_000_000_000_000_000,
                    RADIUS_LIMIT_FIX as int,
                );
                lemma_tdiv_bound(
                    raw_z as int * dist_mult as int,
                    1_000_000_000_000_000_000_000_000,
                    SCALE as int,
                );
            }
            let dphi: i128 = tdiv128(mul_wide(t1, dist_mult), SCALE as i128);
            let dtheta: i128 = tdiv128(mul_wide(raw_z, dist_mult), SCALE as i128);
            let tsum: i128 = s.theta as i128 + dtheta;
            let new_theta: i64 = if tsum < MIN_THETA_FIX as i128 {
                MIN_THETA_FIX
            } else if tsum > (PI_FIX - MIN_THETA_FIX) as i128 {
                PI_FIX - MIN_THETA_FIX
            } else {
                tsum as i64
            };
            let psum: i128 = s.phi as i128 + dphi;
            let new_phi_wide: i128 = emod128(psum, TWO_PI_FIX as i128);
            proof {
                vstd::arithmetic::div_mod::lemma_mod_bound(psum as int, TWO_PI_FIX as int);
            }
            SphericalPoint { radius: s.radius, theta: new_theta, phi: new_phi_wide as i64 }
        },
        None => SphericalPoint { radius: 2 * SCALE, theta: HALF_PI_FIX, phi: 0 },
    };
    if v.y >= ZOOM_DEADZONE_FIX || v.y <= -ZOOM_DEADZONE_FIX {
        let offset_d: i64 = panned.radius - zoom_dist;
        let scaled: i128 = tdiv128(mul_wide(offset_d, SCALE), zoom_factor as i128);
        let cap: i64 = RADIUS_LIMIT_FIX - zoom_dist;
        let capped: i128 = if scaled > cap as i128 {
            cap as i128
        } else {
            scaled
        };
        let floored: i128 = if capped < -(zoom_dist as i128) {
            -(zoom_dist as i128)
        } else {
            capped
        };
        let new_radius: i64 = zoom_dist + (floored as i64);
        SphericalPoint { radius: new_radius, theta: panned.theta, phi: panned.phi }
    } else {
        panned
    }
}

} // verus!
