//! Geodetic coordinates.
//!
//! A [`LatLong`] is a geographic position in fixed-point radians: latitude in
//! `[-pi/2, pi/2]`, longitude in `[-pi, pi)`. A [`SphericalPoint`] is the same
//! position in spherical-polar form under the physics convention: `theta` is
//! the polar angle from the +Y axis in `[0, pi]`, `phi` the azimuth in
//! `[0, 2*pi)`, and the two are linked by the fixed mapping
//! `theta = pi/2 - lat`, `phi = pi - long`.

use crate::fixmath::{
    atan2_fix, atan2_fix_spec, cos_fix, cos_fix_spec, cos_full, cos_full_spec, emod, is_sqrt_floor, isqrt,
    lemma_product_bound, lemma_scale_bound, lemma_sin_fix_ends, lemma_sin_fix_half,
    lemma_sin_fix_lower, lemma_sqrt_floor_unique, lemma_tdiv_bound, lemma_tdiv_exact, mul_wide, sin_fix,
    sin_fix_spec, sin_full, sin_full_spec, smul, sqrt_floor, tdiv, tdiv128, HALF_PI_FIX, PI_FIX,
    SCALE, TWO_PI_FIX,
};
use vstd::prelude::*;

verus! {

/// The largest radius or coordinate magnitude the library works with; keeps
/// every widened product of the camera and conversion arithmetic in range.
pub const RADIUS_LIMIT_FIX: i64 = 1_000_000_000_000_000;

/// A latitude is representable when clamping can reach it without overflow;
/// in practice every angle the viewer produces is a handful of turns at most.
pub open spec fn lat_in_range(lat: int) -> bool {
    -HALF_PI_FIX <= lat <= HALF_PI_FIX
}

pub open spec fn long_in_range(long: int) -> bool {
    -PI_FIX <= long < PI_FIX
}

/// Latitude clamped into `[-pi/2, pi/2]`.
pub open spec fn clamp_lat(lat: int) -> int {
    if lat < -HALF_PI_FIX {
        -HALF_PI_FIX as int
    } else if lat > HALF_PI_FIX {
        HALF_PI_FIX as int
    } else {
        lat
    }
}

/// Longitude wrapped modulo a full turn into `[-pi, pi)`.
pub open spec fn wrap_long(long: int) -> int {
    (long + PI_FIX) % (TWO_PI_FIX as int) - PI_FIX
}

/// Azimuth wrapped modulo a full turn into `[0, 2*pi)`.
pub open spec fn wrap_phi(phi: int) -> int {
    phi % (TWO_PI_FIX as int)
}

/// A geographic position: latitude and longitude in fixed-point radians.
#[derive(Clone, Copy, Debug, PartialEq, Eq, Structural)]
pub struct LatLong {
    pub lat: i64,
    pub long: i64,
}

/// A spherical-polar position: radius in fixed-point units, polar angle
/// `theta` from the +Y axis, azimuth `phi` around it.
#[derive(Clone, Copy, Debug, PartialEq, Eq, Structural)]
pub struct SphericalPoint {
    pub radius: i64,
    pub theta: i64,
    pub phi: i64,
}

impl LatLong {
    /// Both components lie in their canonical ranges.
    pub open spec fn wf(self) -> bool {
        lat_in_range(self.lat as int) && long_in_range(self.long as int)
    }

    pub fn new(latitude: i64, longitude: i64) -> (r: LatLong)
        ensures
            r.lat == latitude,
            r.long == longitude,
    {
        LatLong { lat: latitude, long: longitude }
    }

    /// Clamp the latitude into range and wrap the longitude modulo a full
    /// turn; a position already in range comes back unchanged.
    pub fn normalize(&self) -> (r: LatLong)
        requires
            self.long > i64::MIN + TWO_PI_FIX,
        ensures
            r.lat == clamp_lat(self.lat as int),
            r.long == wrap_long(self.long as int),
            r.wf(),
            self.wf() ==> r == *self,
    {
        let new_lat: i64 = if self.lat < -HALF_PI_FIX {
            -HALF_PI_FIX
        } else if self.lat > HALF_PI_FIX {
            HALF_PI_FIX
        } else {
            self.lat
        };
        let shifted: i64 = if self.long >= i64::MAX - PI_FIX {
            proof {
                lemma_wrap_long_periodic(self.long as int);
            }
            self.long - TWO_PI_FIX + PI_FIX
        } else {
            self.long + PI_FIX
        };
        let new_long: i64 = emod(shifted, TWO_PI_FIX) - PI_FIX;
        proof {
            if self.wf() {
                vstd::arithmetic::div_mod::lemma_small_mod(
                    (self.long + PI_FIX) as nat,
                    TWO_PI_FIX as nat,
                );
            }
        }
        LatLong { lat: new_lat, long: new_long }
    }

    /// Componentwise sum, normalized back into range.
    pub fn add(&self, other: &LatLong) -> (r: LatLong)
        requires
            self.wf(),
            other.wf(),
        ensures
            r.lat == clamp_lat(self.lat + other.lat),
            r.long == wrap_long(self.long + other.long),
            r.wf(),
    {
        LatLong::new(self.lat + other.lat, self.long + other.long).normalize()
    }

    /// Componentwise difference, normalized back into range.
    pub fn sub(&self, other: &LatLong) -> (r: LatLong)
        requires
            self.wf(),
            other.wf(),
        ensures
            r.lat == clamp_lat(self.lat - other.lat),
            r.long == wrap_long(self.long - other.long),
            r.wf(),
    {
        LatLong::new(self.lat - other.lat, self.long - other.long).normalize()
    }

    /// The great-circle distance to another position, in fixed-point
    /// radians: the Vincenty formula carried out on the fixed-point sine and
    /// arctangent, numerically stable for antipodal and near-identical
    /// points. The result is an angle in `[0, pi]`; the distance from a
    /// position to itself is exactly zero.
    pub fn great_circle_distance(&self, other: &LatLong) -> (r: i64)
        requires
            self.wf(),
            other.wf(),
        ensures
            r == great_circle_spec(*self, *other),
            0 <= r <= PI_FIX,
            *self == *other ==> r == 0,
    {
        proof {
            if *self == *other {
                lemma_great_circle_self(*self);
            }
        }
        let long_delta: i64 = if self.long >= other.long {
            self.long - other.long
        } else {
            other.long - self.long
        };
        let sa = sin_signed(self.lat);
        let ca = sin_fix(HALF_PI_FIX - self.lat);
        let sb = sin_signed(other.lat);
        let cb = sin_fix(HALF_PI_FIX - other.lat);
        let sd = sin_full(long_delta);
        let cd = cos_full(long_delta);
        proof {
            lemma_unit_smul_bound(cb as int, sd as int);
            lemma_unit_smul_bound(ca as int, sb as int);
            lemma_unit_smul_bound(sa as int, cb as int);
            lemma_unit_smul_bound(sa as int, sb as int);
            lemma_unit_smul_bound(ca as int, cb as int);
        }
        let t1: i64 = smul(cb, sd);
        proof {
            lemma_unit_smul_bound(smul_val(sa as int, cb as int), cd as int);
            lemma_unit_smul_bound(smul_val(ca as int, cb as int), cd as int);
        }
        let t2: i64 = smul(ca, sb) - smul(smul(sa, cb), cd);
        let den: i64 = smul(sa, sb) + smul(smul(ca, cb), cd);
        proof {
            lemma_product_bound(t1 as int, t1 as int, 1_000_000, 1_000_000);
            lemma_product_bound(t2 as int, t2 as int, 2_000_000, 2_000_000);
            assert(t1 as int * t1 as int >= 0 && t2 as int * t2 as int >= 0) by (nonlinear_arith);
        }
        let sum_sq: i128 = mul_wide(t1, t1) + mul_wide(t2, t2);
        let num_u: u64 = isqrt(sum_sq as u128);
        proof {
            assert(num_u <= 3_000_000) by (nonlinear_arith)
                requires
                    num_u as int * num_u as int <= 5_000_000_000_000,
                    num_u >= 0,
            ;
        }
        atan2_fix(num_u as i64, den)
    }

    /// The same position in spherical-polar form on a sphere of the given
    /// radius, under the fixed angle mapping.
    pub fn as_sph_point(&self, radius: i64) -> (r: SphericalPoint)
        requires
            self.wf(),
        ensures
            r.radius == radius,
            r.theta == HALF_PI_FIX - self.lat,
            r.phi == wrap_phi(PI_FIX - self.long),
            radius >= 0 ==> r.wf(),
    {
        SphericalPoint::from_lat_long(radius, self.lat, self.long)
    }
}

impl SphericalPoint {
    /// The components lie in their canonical ranges.
    pub open spec fn wf(self) -> bool {
        self.radius >= 0 && 0 <= self.theta <= PI_FIX && 0 <= self.phi < TWO_PI_FIX
    }

    pub fn new(radius: i64, theta: i64, phi: i64) -> (r: SphericalPoint)
        ensures
            r.radius == radius,
            r.theta == theta,
            r.phi == phi,
    {
        SphericalPoint { radius, theta, phi }
    }

    /// The spherical-polar point of a geographic position:
    /// `theta = pi/2 - lat`, `phi = pi - long` wrapped into `[0, 2*pi)`.
    pub fn from_lat_long(radius: i64, lat: i64, long: i64) -> (r: SphericalPoint)
        requires
            lat_in_range(lat as int),
            long_in_range(long as int),
        ensures
            r.radius == radius,
            r.theta == HALF_PI_FIX - lat,
            r.phi == wrap_phi(PI_FIX - long),
            radius >= 0 ==> r.wf(),
    {
        let raw_phi: i64 = PI_FIX - long;
        let phi: i64 = if raw_phi == TWO_PI_FIX {
            0
        } else {
            raw_phi
        };
        proof {
            if raw_phi < TWO_PI_FIX {
                vstd::arithmetic::div_mod::lemma_small_mod(raw_phi as nat, TWO_PI_FIX as nat);
            } else {
                vstd::arithmetic::div_mod::lemma_mod_self_0(TWO_PI_FIX as int);
            }
        }
        SphericalPoint { radius, theta: HALF_PI_FIX - lat, phi }
    }

    /// The geographic position of a spherical-polar point: the inverse of the
    /// fixed mapping, with the longitude wrapped back into `[-pi, pi)`.
    pub fn as_lat_long(&self) -> (r: LatLong)
        requires
            self.wf(),
        ensures
            r.lat == HALF_PI_FIX - self.theta,
            r.long == wrap_long(PI_FIX - self.phi as int),
            r.wf(),
    {
        let lat: i64 = HALF_PI_FIX - self.theta;
        let long_raw: i64 = PI_FIX - self.phi;
        let long: i64 = if long_raw == PI_FIX {
            -PI_FIX
        } else {
            long_raw
        };
        proof {
            if long_raw == PI_FIX {
                vstd::arithmetic::div_mod::lemma_mod_self_0(TWO_PI_FIX as int);
            } else {
                vstd::arithmetic::div_mod::lemma_small_mod(
                    (long_raw + PI_FIX) as nat,
                    TWO_PI_FIX as nat,
                );
            }
        }
        LatLong { lat, long }
    }

    /// The Cartesian vector of the point, componentwise:
    /// `x = r sin(theta) sin(phi)`, `y = r cos(theta)`,
    /// `z = r sin(theta) cos(phi)`, each product rescaled as it is taken.
    pub open spec fn to_vec_spec(self) -> Vec3Fix {
        Vec3Fix {
            x: tdiv(
                tdiv(self.radius * sin_fix_spec(self.theta as int), SCALE as int) * sin_full_spec(
                    self.phi as int,
                ),
                SCALE as int,
            ) as i64,
            y: tdiv(self.radius * cos_fix_spec(self.theta as int), SCALE as int) as i64,
            z: tdiv(
                tdiv(self.radius * sin_fix_spec(self.theta as int), SCALE as int) * cos_full_spec(
                    self.phi as int,
                ),
                SCALE as int,
            ) as i64,
        }
    }

    /// The Cartesian vector of the point, by the fixed-point trigonometric
    /// approximations.
    pub fn to_vec(&self) -> (r: Vec3Fix)
        requires
            self.wf(),
            self.radius <= RADIUS_LIMIT_FIX,
        ensures
            r.x == tdiv(
                tdiv(self.radius * sin_fix_spec(self.theta as int), SCALE as int) * sin_full_spec(
                    self.phi as int,
                ),
                SCALE as int,
            ),
            r.y == tdiv(self.radius * cos_fix_spec(self.theta as int), SCALE as int),
            r.z == tdiv(
                tdiv(self.radius * sin_fix_spec(self.theta as int), SCALE as int) * cos_full_spec(
                    self.phi as int,
                ),
                SCALE as int,
            ),
            r == self.to_vec_spec(),
            r.bounded(self.radius as int),
    {
        let st: i64 = sin_fix(self.theta);
        let ct: i64 = cos_fix(self.theta);
        let sp: i64 = sin_full(self.phi);
        let cp: i64 = cos_full(self.phi);
        proof {
            lemma_scale_bound(self.radius as int, st as int);
            lemma_scale_bound(self.radius as int, ct as int);
        }
        let rs: i128 = mul_wide(self.radius, st);
        let a: i64 = tdiv128(rs, SCALE as i128) as i64;
        proof {
            assert(rs >= 0) by (nonlinear_arith)
                requires
                    rs == self.radius as int * st as int,
                    self.radius >= 0,
                    st >= 0,
            ;
            vstd::arithmetic::div_mod::lemma_div_pos_is_pos(rs as int, SCALE as int);
            lemma_scale_bound(a as int, sp as int);
            lemma_scale_bound(a as int, cp as int);
        }
        let y128: i128 = tdiv128(mul_wide(self.radius, ct), SCALE as i128);
        let x128: i128 = tdiv128(mul_wide(a, sp), SCALE as i128);
        let z128: i128 = tdiv128(mul_wide(a, cp), SCALE as i128);
        Vec3Fix { x: x128 as i64, y: y128 as i64, z: z128 as i64 }
    }

    /// Whether the point is valid: every component within its canonical
    /// range. The viewer checks this after conversions whose floating-point
    /// counterparts can degenerate.
    pub fn is_ok(&self) -> (r: bool)
        ensures
            r == self.wf(),
    {
        self.radius >= 0 && 0 <= self.theta && self.theta <= PI_FIX && 0 <= self.phi && self.phi
            < TWO_PI_FIX
    }
}

/// The rescaled product of two fixed-point scalars, at the spec level.
pub open spec fn smul_val(a: int, b: int) -> int {
    tdiv(a * b, SCALE as int)
}

/// The rescaled product of two unit-bounded scalars is unit-bounded.
proof fn lemma_unit_smul_bound(a: int, b: int)
    requires
        -SCALE <= a <= SCALE,
        -SCALE <= b <= SCALE,
    ensures
        -SCALE <= smul_val(a, b) <= SCALE,
{
    lemma_product_bound(a, b, SCALE as int, SCALE as int);
    lemma_tdiv_bound(a * b, SCALE as int, SCALE as int);
}

/// The sine of a signed angle in `[-pi, pi]`, odd by construction.
pub open spec fn sin_signed_spec(l: int) -> int {
    if l >= 0 {
        sin_fix_spec(l)
    } else {
        -sin_fix_spec(-l)
    }
}

fn sin_signed(l: i64) -> (r: i64)
    requires
        -PI_FIX <= l <= PI_FIX,
    ensures
        r == sin_signed_spec(l as int),
        -SCALE <= r <= SCALE,
{
    if l >= 0 {
        sin_fix(l)
    } else {
        -sin_fix(-l)
    }
}

/// The great-circle distance of two geographic positions in fixed-point
/// radians: the Vincenty formula over the library's fixed-point sine and
/// arctangent. With `D` the longitude difference, this is
/// `atan2(sqrt((cos(b) sin(D))^2 + (cos(a) sin(b) - sin(a) cos(b) cos(D))^2),
/// sin(a) sin(b) + cos(a) cos(b) cos(D))`, each product rescaled as it is
/// taken.
pub open spec fn great_circle_spec(a: LatLong, b: LatLong) -> int {
    let dl = if a.long >= b.long {
        a.long - b.long
    } else {
        b.long - a.long
    };
    let sa = sin_signed_spec(a.lat as int);
    let ca = sin_fix_spec(HALF_PI_FIX - a.lat);
    let sb = sin_signed_spec(b.lat as int);
    let cb = sin_fix_spec(HALF_PI_FIX - b.lat);
    let sd = sin_full_spec(dl);
    let cd = cos_full_spec(dl);
    let t1 = tdiv(cb * sd, SCALE as int);
    let t2 = tdiv(ca * sb, SCALE as int) - tdiv(tdiv(sa * cb, SCALE as int) * cd, SCALE as int);
    let den = tdiv(sa * sb, SCALE as int) + tdiv(tdiv(ca * cb, SCALE as int) * cd, SCALE as int);
    atan2_fix_spec(sqrt_floor(t1 * t1 + t2 * t2), den)
}

/// The distance from a position to itself is exactly zero: the longitude
/// difference vanishes, both cross terms cancel, and the remaining
/// denominator is positive, so the arctangent sits at the origin's angle.
pub proof fn lemma_great_circle_self(a: LatLong)
    requires
        a.wf(),
    ensures
        great_circle_spec(a, a) == 0,
{
    lemma_sin_fix_ends();
    lemma_sin_fix_half();
    let sa = sin_signed_spec(a.lat as int);
    let ca = sin_fix_spec(HALF_PI_FIX - a.lat);
    vstd::arithmetic::div_mod::lemma_div_of0(SCALE as int);
    let w = tdiv(sa * ca, SCALE as int);
    lemma_tdiv_exact(w * SCALE, SCALE as int, w);
    let w2 = tdiv(ca * ca, SCALE as int);
    lemma_tdiv_exact(w2 * SCALE, SCALE as int, w2);
    assert(is_sqrt_floor(0, 0)) by (nonlinear_arith);
    lemma_sqrt_floor_unique(0, 0);
    let den = tdiv(sa * sa, SCALE as int) + w2;
    assert(sa * sa >= 0 && ca * ca >= 0) by (nonlinear_arith);
    vstd::arithmetic::div_mod::lemma_div_pos_is_pos(sa * sa, SCALE as int);
    vstd::arithmetic::div_mod::lemma_div_pos_is_pos(ca * ca, SCALE as int);
    if -HALF_PI_FIX + 100_000 <= a.lat <= HALF_PI_FIX - 100_000 {
        lemma_sin_fix_lower(HALF_PI_FIX - a.lat);
        assert(ca * ca >= 8_100_000_000) by (nonlinear_arith)
            requires
                ca >= 90_000,
        ;
        vstd::arithmetic::div_mod::lemma_div_is_ordered(8100 * SCALE, ca * ca, SCALE as int);
        vstd::arithmetic::div_mod::lemma_div_by_multiple(8100, SCALE as int);
    } else if a.lat > HALF_PI_FIX - 100_000 {
        lemma_sin_fix_lower(a.lat as int);
        assert(sa * sa >= 8_100_000_000) by (nonlinear_arith)
            requires
                sa >= 90_000,
        ;
        vstd::arithmetic::div_mod::lemma_div_is_ordered(8100 * SCALE, sa * sa, SCALE as int);
        vstd::arithmetic::div_mod::lemma_div_by_multiple(8100, SCALE as int);
    } else {
        lemma_sin_fix_lower(-a.lat as int);
        assert(sa * sa >= 8_100_000_000) by (nonlinear_arith)
            requires
                sa <= -90_000,
        ;
        vstd::arithmetic::div_mod::lemma_div_is_ordered(8100 * SCALE, sa * sa, SCALE as int);
        vstd::arithmetic::div_mod::lemma_div_by_multiple(8100, SCALE as int);
    }
    assert(den >= 8100);
}

/// A three-component Cartesian vector in fixed-point units.
#[derive(Clone, Copy, Debug, PartialEq, Eq, Structural)]
pub struct Vec3Fix {
    pub x: i64,
    pub y: i64,
    pub z: i64,
}

impl Vec3Fix {
    /// The squared Euclidean length, in squared fixed-point units.
    pub open spec fn sq_len_spec(self) -> int {
        self.x * self.x + self.y * self.y + self.z * self.z
    }

    /// All components within the library's coordinate range.
    pub open spec fn bounded(self, limit: int) -> bool {
        -limit <= self.x <= limit && -limit <= self.y <= limit && -limit <= self.z <= limit
    }

    /// The componentwise sum.
    pub open spec fn add_spec(self, o: Vec3Fix) -> Vec3Fix {
        Vec3Fix { x: (self.x + o.x) as i64, y: (self.y + o.y) as i64, z: (self.z + o.z) as i64 }
    }

    /// The componentwise difference.
    pub open spec fn sub_spec(self, o: Vec3Fix) -> Vec3Fix {
        Vec3Fix { x: (self.x - o.x) as i64, y: (self.y - o.y) as i64, z: (self.z - o.z) as i64 }
    }

    /// The componentwise negation.
    pub open spec fn neg_spec(self) -> Vec3Fix {
        Vec3Fix { x: (-self.x) as i64, y: (-self.y) as i64, z: (-self.z) as i64 }
    }

    /// The cross product, componentwise, rescaled to fixed-point units.
    pub open spec fn cross_spec(self, o: Vec3Fix) -> Vec3Fix {
        Vec3Fix {
            x: tdiv(self.y * o.z - self.z * o.y, SCALE as int) as i64,
            y: tdiv(self.z * o.x - self.x * o.z, SCALE as int) as i64,
            z: tdiv(self.x * o.y - self.y * o.x, SCALE as int) as i64,
        }
    }

    /// The unit vector of a nonzero vector, componentwise.
    pub open spec fn normalize_spec(self) -> Vec3Fix {
        Vec3Fix {
            x: tdiv(self.x * SCALE, sqrt_floor(self.sq_len_spec())) as i64,
            y: tdiv(self.y * SCALE, sqrt_floor(self.sq_len_spec())) as i64,
            z: tdiv(self.z * SCALE, sqrt_floor(self.sq_len_spec())) as i64,
        }
    }

    /// Whether every component is zero, which is exactly a zero squared
    /// length.
    pub open spec fn is_zero_spec(self) -> bool {
        self.x == 0 && self.y == 0 && self.z == 0
    }

    pub fn new(x: i64, y: i64, z: i64) -> (r: Vec3Fix)
        ensures
            r == (Vec3Fix { x, y, z }),
    {
        Vec3Fix { x, y, z }
    }

    pub fn add(&self, other: &Vec3Fix) -> (r: Vec3Fix)
        requires
            i64::MIN <= self.x + other.x <= i64::MAX,
            i64::MIN <= self.y + other.y <= i64::MAX,
            i64::MIN <= self.z + other.z <= i64::MAX,
        ensures
            r.x == self.x + other.x,
            r.y == self.y + other.y,
            r.z == self.z + other.z,
            r == self.add_spec(*other),
    {
        Vec3Fix { x: self.x + other.x, y: self.y + other.y, z: self.z + other.z }
    }

    pub fn sub(&self, other: &Vec3Fix) -> (r: Vec3Fix)
        requires
            i64::MIN <= self.x - other.x <= i64::MAX,
            i64::MIN <= self.y - other.y <= i64::MAX,
            i64::MIN <= self.z - other.z <= i64::MAX,
        ensures
            r.x == self.x - other.x,
            r.y == self.y - other.y,
            r.z == self.z - other.z,
            r == self.sub_spec(*other),
    {
        Vec3Fix { x: self.x - other.x, y: self.y - other.y, z: self.z - other.z }
    }

    pub fn neg(&self) -> (r: Vec3Fix)
        requires
            self.x > i64::MIN,
            self.y > i64::MIN,
            self.z > i64::MIN,
        ensures
            r.x == -self.x,
            r.y == -self.y,
            r.z == -self.z,
            r == self.neg_spec(),
    {
        Vec3Fix { x: -self.x, y: -self.y, z: -self.z }
    }

    /// The fixed-point length: the floor square root of the squared length.
    pub fn len_fix(&self) -> (l: u64)
        requires
            self.bounded(1_000_000_000_000_000_000),
        ensures
            l == sqrt_floor(self.sq_len_spec()),
            (l as int) * (l as int) <= self.sq_len_spec() < (l as int + 1) * (l as int + 1),
    {
        let sx: i128 = mul_wide(self.x, self.x);
        let sy: i128 = mul_wide(self.y, self.y);
        let sz: i128 = mul_wide(self.z, self.z);
        proof {
            assert(0 <= sx && 0 <= sy && 0 <= sz && sx + sy + sz
                <= 3_000_000_000_000_000_000_000_000_000_000_000_000) by (nonlinear_arith)
                requires
                    sx == self.x as int * self.x as int,
                    sy == self.y as int * self.y as int,
                    sz == self.z as int * self.z as int,
                    -1_000_000_000_000_000_000 <= self.x as int <= 1_000_000_000_000_000_000,
                    -1_000_000_000_000_000_000 <= self.y as int <= 1_000_000_000_000_000_000,
                    -1_000_000_000_000_000_000 <= self.z as int <= 1_000_000_000_000_000_000,
            ;
        }
        isqrt((sx + sy + sz) as u128)
    }

    /// The cross product, rescaled back to fixed-point units.
    pub fn cross(&self, other: &Vec3Fix) -> (r: Vec3Fix)
        requires
            self.bounded(2_000_000_000_000),
            other.bounded(2_000_000_000_000),
        ensures
            r.x == tdiv(self.y * other.z - self.z * other.y, SCALE as int),
            r.y == tdiv(self.z * other.x - self.x * other.z, SCALE as int),
            r.z == tdiv(self.x * other.y - self.y * other.x, SCALE as int),
            r == self.cross_spec(*other),
    {
        proof {
            lemma_cross_term_bounds(*self, *other);
        }
        let cx: i128 = mul_wide(self.y, other.z) - mul_wide(self.z, other.y);
        let cy: i128 = mul_wide(self.z, other.x) - mul_wide(self.x, other.z);
        let cz: i128 = mul_wide(self.x, other.y) - mul_wide(self.y, other.x);
        Vec3Fix {
            x: tdiv128(cx, SCALE as i128) as i64,
            y: tdiv128(cy, SCALE as i128) as i64,
            z: tdiv128(cz, SCALE as i128) as i64,
        }
    }

    /// The unit vector in the same direction, each component scaled by
    /// `SCALE` and divided by the fixed-point length; components never exceed
    /// one unit in magnitude.
    pub fn normalize(&self) -> (r: Vec3Fix)
        requires
            self.bounded(1_000_000_000_000_000_000),
            self.sq_len_spec() > 0,
        ensures
            r.x == tdiv(self.x * SCALE, sqrt_floor(self.sq_len_spec())),
            r.y == tdiv(self.y * SCALE, sqrt_floor(self.sq_len_spec())),
            r.z == tdiv(self.z * SCALE, sqrt_floor(self.sq_len_spec())),
            r == self.normalize_spec(),
            r.bounded(SCALE as int),
    {
        let l: u64 = self.len_fix();
        proof {
            assert(l >= 1) by (nonlinear_arith)
                requires
                    (l as int + 1) * (l as int + 1) > self.sq_len_spec(),
                    self.sq_len_spec() > 0,
                    l >= 0,
            ;
            lemma_component_within_length(self.x as int, *self, l as int);
            lemma_component_within_length(self.y as int, *self, l as int);
            lemma_component_within_length(self.z as int, *self, l as int);
        }
        Vec3Fix {
            x: tdiv128(mul_wide(self.x, SCALE), l as i128) as i64,
            y: tdiv128(mul_wide(self.y, SCALE), l as i128) as i64,
            z: tdiv128(mul_wide(self.z, SCALE), l as i128) as i64,
        }
    }
}

/// Each cross-product term of vectors within the coordinate range fits the
/// fixed-point range after rescaling.
proof fn lemma_cross_term_bounds(a: Vec3Fix, b: Vec3Fix)
    requires
        a.bounded(2_000_000_000_000),
        b.bounded(2_000_000_000_000),
    ensures
        -i64::MAX <= tdiv(a.y * b.z - a.z * b.y, SCALE as int) <= i64::MAX,
        -i64::MAX <= tdiv(a.z * b.x - a.x * b.z, SCALE as int) <= i64::MAX,
        -i64::MAX <= tdiv(a.x * b.y - a.y * b.x, SCALE as int) <= i64::MAX,
        -8_000_000_000_000_000_000_000_000 <= a.y * b.z - a.z * b.y
            <= 8_000_000_000_000_000_000_000_000,
        -8_000_000_000_000_000_000_000_000 <= a.z * b.x - a.x * b.z
            <= 8_000_000_000_000_000_000_000_000,
        -8_000_000_000_000_000_000_000_000 <= a.x * b.y - a.y * b.x
            <= 8_000_000_000_000_000_000_000_000,
{
    let lim: int = 2_000_000_000_000;
    lemma_product_bound(a.y as int, b.z as int, lim, lim);
    lemma_product_bound(a.z as int, b.y as int, lim, lim);
    lemma_product_bound(a.z as int, b.x as int, lim, lim);
    lemma_product_bound(a.x as int, b.z as int, lim, lim);
    lemma_product_bound(a.x as int, b.y as int, lim, lim);
    lemma_product_bound(a.y as int, b.x as int, lim, lim);
    lemma_tdiv_magnitude(a.y * b.z - a.z * b.y, 8_000_000_000_000_000_000_000_000);
    lemma_tdiv_magnitude(a.z * b.x - a.x * b.z, 8_000_000_000_000_000_000_000_000);
    lemma_tdiv_magnitude(a.x * b.y - a.y * b.x, 8_000_000_000_000_000_000_000_000);
}

/// Rescaling cannot grow a bounded value past its bound divided by `SCALE`.
proof fn lemma_tdiv_magnitude(v: int, bound: int)
    requires
        -bound <= v <= bound,
        bound >= 0,
        bound % (SCALE as int) == 0,
    ensures
        -(bound / (SCALE as int)) <= tdiv(v, SCALE as int) <= bound / (SCALE as int),
{
    if v >= 0 {
        vstd::arithmetic::div_mod::lemma_div_is_ordered(v, bound, SCALE as int);
        vstd::arithmetic::div_mod::lemma_div_pos_is_pos(v, SCALE as int);
    } else {
        vstd::arithmetic::div_mod::lemma_div_is_ordered(-v, bound, SCALE as int);
        vstd::arithmetic::div_mod::lemma_div_pos_is_pos(-v, SCALE as int);
    }
}

/// A component of a vector is no longer than the vector's fixed-point length,
/// so normalizing leaves it within one unit.
proof fn lemma_component_within_length(c: int, v: Vec3Fix, l: int)
    requires
        c == v.x || c == v.y || c == v.z,
        l >= 0,
        (l * l) <= v.sq_len_spec() < (l + 1) * (l + 1),
        l >= 1,
    ensures
        -SCALE <= tdiv(c * SCALE, l) <= SCALE,
        -(SCALE as int) * l <= c * SCALE <= (SCALE as int) * l,
{
    assert(c * c <= v.sq_len_spec()) by (nonlinear_arith)
        requires
            c == v.x || c == v.y || c == v.z,
            v.sq_len_spec() == v.x * v.x + v.y * v.y + v.z * v.z,
    ;
    assert(-l <= c <= l) by (nonlinear_arith)
        requires
            c * c <= v.sq_len_spec(),
            v.sq_len_spec() < (l + 1) * (l + 1),
            l >= 0,
    ;
    assert(-(SCALE as int) * l <= c * SCALE <= (SCALE as int) * l) by (nonlinear_arith)
        requires
            -l <= c <= l,
    ;
    if c >= 0 {
        vstd::arithmetic::div_mod::lemma_div_is_ordered(c * SCALE, SCALE * l, l);
        vstd::arithmetic::div_mod::lemma_div_by_multiple(SCALE as int, l);
        vstd::arithmetic::div_mod::lemma_div_pos_is_pos(c * SCALE, l);
        assert(SCALE * l == (SCALE as int) * l);
    } else {
        vstd::arithmetic::div_mod::lemma_div_is_ordered(-(c * SCALE), SCALE * l, l);
        vstd::arithmetic::div_mod::lemma_div_by_multiple(SCALE as int, l);
        vstd::arithmetic::div_mod::lemma_div_pos_is_pos(-(c * SCALE), l);
        assert(SCALE * l == (SCALE as int) * l);
    }
}

/// Wrapping a longitude is periodic in full turns.
proof fn lemma_wrap_long_periodic(long: int)
    ensures
        wrap_long(long - TWO_PI_FIX) == wrap_long(long),
{
    vstd::arithmetic::div_mod::lemma_mod_sub_multiples_vanish(
        long + PI_FIX,
        TWO_PI_FIX as int,
    );
}

/// Round trip: converting a geographic position to spherical-polar form and
/// back returns the position unchanged, for every radius.
pub proof fn lemma_lat_long_round_trip(p: LatLong)
    requires
        p.wf(),
    ensures
        HALF_PI_FIX - (HALF_PI_FIX - p.lat) == p.lat,
        wrap_long(PI_FIX - wrap_phi(PI_FIX - p.long as int)) == p.long,
{
    let raw = PI_FIX - p.long as int;
    if raw == TWO_PI_FIX {
        vstd::arithmetic::div_mod::lemma_mod_self_0(TWO_PI_FIX as int);
        assert(wrap_phi(raw) == 0);
        assert(PI_FIX - 0 == PI_FIX as int);
        vstd::arithmetic::div_mod::lemma_mod_self_0(TWO_PI_FIX as int);
        assert(wrap_long(PI_FIX as int) == -PI_FIX);
    } else {
        vstd::arithmetic::div_mod::lemma_small_mod(raw as nat, TWO_PI_FIX as nat);
        assert(wrap_phi(raw) == raw);
        vstd::arithmetic::div_mod::lemma_small_mod((p.long + PI_FIX) as nat, TWO_PI_FIX as nat);
    }
}

} // verus!
