//! The map-tile generator.
//!
//! A world map is a raster covering a geographic rectangle. The generator
//! partitions that rectangle into tiles of a fixed angular size, keyed by
//! their lower-left corner in whole degrees, and composites each tile's crop
//! of the raster onto a placeholder texture of a fixed resolution. Bounds are
//! held in fixed-point degrees (scaled by [`SCALE`]); the pixel mapping is
//! the exact rational rounding of the affine transform between degrees and
//! the raster's pixel grid.

use crate::fixmath::{
    div_ceil, div_floor, lemma_product_bound, lemma_round_div_bound, lemma_round_div_le,
    round_div, round_div_spec, SCALE,
};
use crate::imgops::{
    crop_image, crop_of, image_height, image_width, img_height, img_pixels,
    img_width, overlay_image, overlay_of, resample_of, resize_image,
};
use image::DynamicImage;
use vstd::prelude::*;

verus! {

/// The widest geographic extent the generator accepts, in fixed-point
/// degrees: a thousand degrees either way.
pub const DEG_LIMIT_FIX: i64 = 1_000_000_000;

/// The largest raster dimension the pixel mapping accepts.
pub const IMG_DIM_LIMIT: u32 = 100_000;

/// The geographic extent a raster covers, in fixed-point degrees.
#[derive(Clone, Copy, Debug, PartialEq, Eq, Structural)]
pub struct MapBounds {
    pub min_lat: i64,
    pub max_lat: i64,
    pub min_long: i64,
    pub max_long: i64,
}

impl MapBounds {
    /// Both extents are proper (max above min), within the degree range, and
    /// at least one degree wide, which keeps the pixel mapping's
    /// intermediates in range.
    pub open spec fn wf(self) -> bool {
        -DEG_LIMIT_FIX <= self.min_lat && self.min_lat + SCALE <= self.max_lat && self.max_lat
            <= DEG_LIMIT_FIX && -DEG_LIMIT_FIX <= self.min_long && self.min_long + SCALE
            <= self.max_long && self.max_long <= DEG_LIMIT_FIX
    }

    pub fn new(min_lat: i64, max_lat: i64, min_long: i64, max_long: i64) -> (r: MapBounds)
        ensures
            r == (MapBounds { min_lat, max_lat, min_long, max_long }),
    {
        MapBounds { min_lat, max_lat, min_long, max_long }
    }
}

/// The key of one generated tile: its lower-left corner in whole degrees.
#[derive(Clone, Copy, Debug, PartialEq, Eq, Hash, Structural)]
pub struct MapPieceKey {
    pub min_lat: i32,
    pub min_long: i32,
}

/// A named world map: the source raster, the placeholder texture composited
/// under partial tiles, and the raster's geographic bounds.
#[derive(Clone)]
pub struct WorldMap {
    pub world_name: String,
    pub image: DynamicImage,
    pub missing_image: DynamicImage,
    pub bounds: MapBounds,
}

/// The raster column of a longitude: the affine map from degrees to pixels,
/// rounded to the nearest column. Column zero is the minimum longitude.
pub open spec fn img_x_spec(bounds: MapBounds, w: int, long_d: int) -> int {
    round_div_spec((long_d - bounds.min_long) * (w - 1), bounds.max_long - bounds.min_long)
}

/// The raster row of a latitude; row zero is the *maximum* latitude, since
/// image rows grow downward.
pub open spec fn img_y_spec(bounds: MapBounds, h: int, lat_d: int) -> int {
    (h - 1) - round_div_spec((lat_d - bounds.min_lat) * (h - 1), bounds.max_lat - bounds.min_lat)
}

/// A tile's pixel rectangle, clamped to the raster, with the clamped-away
/// amounts kept as offsets.
pub struct TileRect {
    pub sub_min_x: int,
    pub sub_max_x: int,
    pub off_min_x: int,
    pub off_max_x: int,
    pub sub_min_y: int,
    pub sub_max_y: int,
    pub off_min_y: int,
    pub off_max_y: int,
}

impl TileRect {
    pub open spec fn width_px(self) -> int {
        self.sub_max_x - self.sub_min_x
    }

    pub open spec fn height_px(self) -> int {
        self.sub_max_y - self.sub_min_y
    }

    /// The full pixel span the tile would cover, clamped and clamped-away
    /// parts together; the denominator of the resize ratio.
    pub open spec fn denom_x(self) -> int {
        self.width_px() + self.off_min_x + self.off_max_x
    }

    pub open spec fn denom_y(self) -> int {
        self.height_px() + self.off_min_y + self.off_max_y
    }
}

/// The clamped pixel rectangle of the tile at `(lat_incr, long_incr)` on the
/// grid of `ts` fixed-point degrees: the raw columns and rows of its corners,
/// the minimum side clamped at zero and the maximum side at the raster edge,
/// each clamped amount recorded as an offset. A minimum latitude is a
/// *maximum* row.
pub open spec fn tile_rect_spec(
    bounds: MapBounds,
    w: int,
    h: int,
    lat_incr: int,
    long_incr: int,
    ts: int,
) -> TileRect {
    let min_long_d = long_incr * ts;
    let max_long_d = min_long_d + ts;
    let min_lat_d = lat_incr * ts;
    let max_lat_d = min_lat_d + ts;
    let raw_min_x = img_x_spec(bounds, w, min_long_d);
    let raw_max_x = img_x_spec(bounds, w, max_long_d);
    let raw_max_y = img_y_spec(bounds, h, min_lat_d);
    let raw_min_y = img_y_spec(bounds, h, max_lat_d);
    TileRect {
        sub_min_x: if raw_min_x < 0 {
            0
        } else {
            raw_min_x
        },
        off_min_x: if raw_min_x < 0 {
            -raw_min_x
        } else {
            0
        },
        sub_max_x: if raw_max_x > w {
            w
        } else {
            raw_max_x
        },
        off_max_x: if raw_max_x > w {
            raw_max_x - w
        } else {
            0
        },
        sub_min_y: if raw_min_y < 0 {
            0
        } else {
            raw_min_y
        },
        off_min_y: if raw_min_y < 0 {
            -raw_min_y
        } else {
            0
        },
        sub_max_y: if raw_max_y > h {
            h
        } else {
            raw_max_y
        },
        off_max_y: if raw_max_y > h {
            raw_max_y - h
        } else {
            0
        },
    }
}

/// The width the tile's crop is resampled to: the placeholder width scaled
/// by the crop's share of the full span.
pub open spec fn tile_resize_w_spec(r: TileRect, miss_w: int) -> int {
    round_div_spec(r.width_px() * miss_w, r.denom_x())
}

pub open spec fn tile_resize_h_spec(r: TileRect, miss_h: int) -> int {
    round_div_spec(r.height_px() * miss_h, r.denom_y())
}

/// The column at which the resampled crop lands on the placeholder: the
/// clamped-away left amount, scaled the same way.
pub open spec fn tile_off_x_spec(r: TileRect, miss_w: int) -> int {
    round_div_spec(r.off_min_x * miss_w, r.denom_x())
}

pub open spec fn tile_off_y_spec(r: TileRect, miss_h: int) -> int {
    round_div_spec(r.off_min_y * miss_h, r.denom_y())
}

/// Whether the tile contributes nothing visible: its rectangle is clamped
/// empty, spans nothing, or resamples below a single pixel. Such a tile is
/// the unmodified placeholder.
pub open spec fn tile_degenerate_spec(r: TileRect, miss_w: int, miss_h: int) -> bool {
    r.width_px() <= 0 || r.height_px() <= 0 || r.denom_x() <= 0 || r.denom_y() <= 0
        || tile_resize_w_spec(r, miss_w) < 1 || tile_resize_h_spec(r, miss_h) < 1
}

/// The pixel contents of one generated tile: the placeholder unchanged when
/// the tile degenerates, else the crop of the raster resampled to its share
/// of the placeholder and blended on at its offset.
pub open spec fn tile_pixels_spec(
    src: Seq<u8>,
    src_w: int,
    src_h: int,
    miss: Seq<u8>,
    miss_w: int,
    miss_h: int,
    bounds: MapBounds,
    lat_incr: int,
    long_incr: int,
    ts: int,
) -> Seq<u8> {
    let r = tile_rect_spec(bounds, src_w, src_h, lat_incr, long_incr, ts);
    if tile_degenerate_spec(r, miss_w, miss_h) {
        miss
    } else {
        overlay_of(
            miss,
            miss_w,
            miss_h,
            resample_of(
                crop_of(src, src_w, r.sub_min_x, r.sub_min_y, r.width_px(), r.height_px()),
                r.width_px(),
                r.height_px(),
                tile_resize_w_spec(r, miss_w),
                tile_resize_h_spec(r, miss_h),
            ),
            tile_resize_w_spec(r, miss_w),
            tile_resize_h_spec(r, miss_h),
            tile_off_x_spec(r, miss_w),
            tile_off_y_spec(r, miss_h),
        )
    }
}

/// The first tile row of the grid that covers an extent starting at
/// `v_min`: the floor of `v_min` over the tile size.
pub open spec fn min_incr_spec(v_min: int, ts: int) -> int {
    v_min / ts
}

/// The last tile row of the grid that covers an extent ending at `v_max`:
/// one below the ceiling of `v_max` over the tile size.
pub open spec fn max_incr_spec(v_max: int, ts: int) -> int {
    -((-v_max) / ts) - 1
}

/// How many tile rows the grid has along one axis.
pub open spec fn n_incr_spec(v_min: int, v_max: int, ts: int) -> int {
    max_incr_spec(v_max, ts) - min_incr_spec(v_min, ts) + 1
}

/// The grid rows covering `[v_min, v_max]` exist and cover it fully: the
/// first row starts at or before `v_min` and less than a tile before it, and
/// the last row starts before `v_max` and ends at or after it.
pub proof fn lemma_axis_grid(v_min: int, v_max: int, ts: int)
    requires
        1 <= ts,
        v_min < v_max,
    ensures
        min_incr_spec(v_min, ts) <= max_incr_spec(v_max, ts),
        min_incr_spec(v_min, ts) * ts <= v_min,
        v_min - ts < min_incr_spec(v_min, ts) * ts,
        max_incr_spec(v_max, ts) * ts < v_max,
        v_max <= (max_incr_spec(v_max, ts) + 1) * ts,
{
    let lo = v_min / ts;
    let r = v_min % ts;
    vstd::arithmetic::div_mod::lemma_fundamental_div_mod(v_min, ts);
    vstd::arithmetic::div_mod::lemma_mod_bound(v_min, ts);
    assert(lo * ts == v_min - r) by (nonlinear_arith)
        requires
            v_min == ts * lo + r,
    ;
    let q = (-v_max) / ts;
    let r2 = (-v_max) % ts;
    let hi = -q - 1;
    vstd::arithmetic::div_mod::lemma_fundamental_div_mod(-v_max, ts);
    vstd::arithmetic::div_mod::lemma_mod_bound(-v_max, ts);
    assert(hi * ts == v_max + r2 - ts && (hi + 1) * ts == v_max + r2) by (nonlinear_arith)
        requires
            -v_max == ts * q + r2,
            hi == -q - 1,
    ;
    assert(hi + 1 > lo) by (nonlinear_arith)
        requires
            (hi + 1) * ts > lo * ts,
            ts >= 1,
    ;
}

/// What one entry of the generated tile collection is: the `i`th entry of
/// the grid walked longitude-major, its key the tile's lower-left corner in
/// whole degrees, its image the tile's composite.
pub open spec fn tile_entry_ok(
    m: WorldMap,
    ts_deg: int,
    e: (MapPieceKey, DynamicImage),
    i: int,
) -> bool {
    let ts = ts_deg * SCALE;
    let n_lat = n_incr_spec(m.bounds.min_lat as int, m.bounds.max_lat as int, ts);
    let lat_incr = min_incr_spec(m.bounds.min_lat as int, ts) + i % n_lat;
    let long_incr = min_incr_spec(m.bounds.min_long as int, ts) + i / n_lat;
    e.0 == (MapPieceKey {
        min_lat: (lat_incr * ts_deg) as i32,
        min_long: (long_incr * ts_deg) as i32,
    }) && img_width(e.1) == img_width(m.missing_image) && img_height(e.1) == img_height(
        m.missing_image,
    ) && img_pixels(e.1) == tile_pixels_spec(
        img_pixels(m.image),
        img_width(m.image) as int,
        img_height(m.image) as int,
        img_pixels(m.missing_image),
        img_width(m.missing_image) as int,
        img_height(m.missing_image) as int,
        m.bounds,
        lat_incr,
        long_incr,
        ts,
    )
}

impl WorldMap {
    /// The bounds are proper and both rasters' dimensions are in range.
    pub open spec fn wf(self) -> bool {
        self.bounds.wf() && 1 <= img_width(self.image) <= IMG_DIM_LIMIT && 1 <= img_height(
            self.image,
        ) <= IMG_DIM_LIMIT && 1 <= img_width(self.missing_image) <= IMG_DIM_LIMIT && 1
            <= img_height(self.missing_image) <= IMG_DIM_LIMIT
    }

    pub fn new(
        world_name: &str,
        large_image: DynamicImage,
        missing_image: DynamicImage,
        bounds: MapBounds,
    ) -> (r: WorldMap)
        ensures
            r.world_name@ == world_name@,
            r.image == large_image,
            r.missing_image == missing_image,
            r.bounds == bounds,
    {
        WorldMap { world_name: world_name.to_string(), image: large_image, missing_image, bounds }
    }

    /// Whether the generator accepts this map: proper bounds and raster
    /// dimensions in range, checked executably so that a caller who knows
    /// nothing of the images can establish it.
    pub fn is_well_formed(&self) -> (r: bool)
        ensures
            r == self.wf(),
    {
        let w = image_width(&self.image);
        let h = image_height(&self.image);
        let mw = image_width(&self.missing_image);
        let mh = image_height(&self.missing_image);
        let b = self.bounds;
        let fields_in_range = -DEG_LIMIT_FIX <= b.min_lat && b.min_lat <= DEG_LIMIT_FIX
            && -DEG_LIMIT_FIX <= b.max_lat && b.max_lat <= DEG_LIMIT_FIX && -DEG_LIMIT_FIX
            <= b.min_long && b.min_long <= DEG_LIMIT_FIX && -DEG_LIMIT_FIX <= b.max_long
            && b.max_long <= DEG_LIMIT_FIX;
        fields_in_range && b.min_lat + SCALE <= b.max_lat && b.min_long + SCALE <= b.max_long && 1
            <= w && w <= IMG_DIM_LIMIT && 1 <= h && h <= IMG_DIM_LIMIT && 1 <= mw && mw
            <= IMG_DIM_LIMIT && 1 <= mh && mh <= IMG_DIM_LIMIT
    }

    /// Generate the whole tile collection after checking every
    /// precondition: `None` exactly when the map's bounds or rasters are out
    /// of range or the tile size is not between one and a full turn.
    pub fn try_generate_textures(&self, tex_size_deg: u32) -> (r: Option<
        Vec<(MapPieceKey, DynamicImage)>,
    >)
        ensures
            r is Some <==> self.wf() && 1 <= tex_size_deg <= 360,
            r matches Some(tiles) ==> tiles@.len() == n_incr_spec(
                self.bounds.min_long as int,
                self.bounds.max_long as int,
                (tex_size_deg * SCALE) as int,
            ) * n_incr_spec(
                self.bounds.min_lat as int,
                self.bounds.max_lat as int,
                (tex_size_deg * SCALE) as int,
            ) && forall|i: int|
                0 <= i < tiles@.len() ==> tile_entry_ok(
                    *self,
                    tex_size_deg as int,
                    #[trigger] tiles@[i],
                    i,
                ),
    {
        if self.is_well_formed() && 1 <= tex_size_deg && tex_size_deg <= 360 {
            Some(self.generate_textures(tex_size_deg))
        } else {
            None
        }
    }

    /// The raster column of a longitude in fixed-point degrees.
    fn img_x_by_long(&self, long_d: i64) -> (r: i64)
        requires
            self.wf(),
            -3_000_000_000 <= long_d <= 3_000_000_000,
        ensures
            r == img_x_spec(self.bounds, img_width(self.image) as int, long_d as int),
            -500_000_000 <= r <= 500_000_000,
    {
        let w = image_width(&self.image);
        let span: i64 = self.bounds.max_long - self.bounds.min_long;
        proof {
            lemma_product_bound(
                long_d - self.bounds.min_long,
                w - 1,
                4_000_000_000,
                100_000,
            );
            lemma_round_div_bound(
                (long_d - self.bounds.min_long) * (w - 1),
                span as int,
                400_000_000,
            );
            assert(span as int * 400_000_000 >= 400_000_000_000_000) by (nonlinear_arith)
                requires
                    span >= 1_000_000,
            ;
        }
        round_div((long_d - self.bounds.min_long) * ((w - 1) as i64), span)
    }

    /// The raster row of a latitude in fixed-point degrees.
    fn img_y_by_lat(&self, lat_d: i64) -> (r: i64)
        requires
            self.wf(),
            -3_000_000_000 <= lat_d <= 3_000_000_000,
        ensures
            r == img_y_spec(self.bounds, img_height(self.image) as int, lat_d as int),
            -500_000_000 <= r <= 600_000_000,
    {
        let h = image_height(&self.image);
        let span: i64 = self.bounds.max_lat - self.bounds.min_lat;
        proof {
            lemma_product_bound(
                lat_d - self.bounds.min_lat,
                h - 1,
                4_000_000_000,
                100_000,
            );
            lemma_round_div_bound(
                (lat_d - self.bounds.min_lat) * (h - 1),
                span as int,
                400_000_000,
            );
            assert(span as int * 400_000_000 >= 400_000_000_000_000) by (nonlinear_arith)
                requires
                    span >= 1_000_000,
            ;
        }
        (h as i64) - 1 - round_div((lat_d - self.bounds.min_lat) * ((h - 1) as i64), span)
    }

    /// Generate one tile: crop the raster to the tile's clamped rectangle,
    /// resample the crop to its share of the placeholder's resolution, and
    /// blend it onto a copy of the placeholder at the offset the clamping
    /// left. A tile with nothing visible is the unmodified placeholder.
    #[verifier::rlimit(100)]
    pub fn generate_tile(&self, lat_incr: i64, long_incr: i64, tex_size_deg: u32) -> (r:
        DynamicImage)
        requires
            self.wf(),
            1 <= tex_size_deg <= 360,
            -2_000_000_000 <= lat_incr * ((tex_size_deg * SCALE) as int) <= 2_000_000_000,
            -2_000_000_000 <= long_incr * ((tex_size_deg * SCALE) as int) <= 2_000_000_000,
        ensures
            img_width(r) == img_width(self.missing_image),
            img_height(r) == img_height(self.missing_image),
            img_pixels(r) == tile_pixels_spec(
                img_pixels(self.image),
                img_width(self.image) as int,
                img_height(self.image) as int,
                img_pixels(self.missing_image),
                img_width(self.missing_image) as int,
                img_height(self.missing_image) as int,
                self.bounds,
                lat_incr as int,
                long_incr as int,
                (tex_size_deg * SCALE) as int,
            ),
    {
        let ts_fix: i64 = (tex_size_deg as i64) * SCALE;
        let min_long_d: i64 = long_incr * ts_fix;
        let max_long_d: i64 = min_long_d + ts_fix;
        let min_lat_d: i64 = lat_incr * ts_fix;
        let max_lat_d: i64 = min_lat_d + ts_fix;
        let w = image_width(&self.image);
        let h = image_height(&self.image);
        let raw_min_x: i64 = self.img_x_by_long(min_long_d);
        let raw_max_x: i64 = self.img_x_by_long(max_long_d);
        let raw_max_y: i64 = self.img_y_by_lat(min_lat_d);
        let raw_min_y: i64 = self.img_y_by_lat(max_lat_d);
        let (sub_min_x, off_min_x): (i64, i64) = if raw_min_x < 0 {
            (0, -raw_min_x)
        } else {
            (raw_min_x, 0)
        };
        let (sub_max_x, off_max_x): (i64, i64) = if raw_max_x > w as i64 {
            (w as i64, raw_max_x - w as i64)
        } else {
            (raw_max_x, 0)
        };
        let (sub_min_y, off_min_y): (i64, i64) = if raw_min_y < 0 {
            (0, -raw_min_y)
        } else {
            (raw_min_y, 0)
        };
        let (sub_max_y, off_max_y): (i64, i64) = if raw_max_y > h as i64 {
            (h as i64, raw_max_y - h as i64)
        } else {
            (raw_max_y, 0)
        };
        let width_px: i64 = sub_max_x - sub_min_x;
        let height_px: i64 = sub_max_y - sub_min_y;
        let denom_x: i64 = width_px + off_min_x + off_max_x;
        let denom_y: i64 = height_px + off_min_y + off_max_y;
        let miss_w = image_width(&self.missing_image);
        let miss_h = image_height(&self.missing_image);
        if width_px <= 0 || height_px <= 0 || denom_x <= 0 || denom_y <= 0 {
            return self.missing_image.clone();
        }
        proof {
            lemma_product_bound(width_px as int, miss_w as int, 100_000, 100_000);
            lemma_product_bound(off_min_x as int, miss_w as int, 600_000_000, 100_000);
            lemma_product_bound(height_px as int, miss_h as int, 700_000_000, 100_000);
            lemma_product_bound(off_min_y as int, miss_h as int, 700_000_000, 100_000);
            assert(width_px * miss_w <= denom_x * miss_w && off_min_x * miss_w <= denom_x
                * miss_w && height_px * miss_h <= denom_y * miss_h && off_min_y * miss_h
                <= denom_y * miss_h) by (nonlinear_arith)
                requires
                    0 <= width_px <= denom_x,
                    0 <= off_min_x <= denom_x,
                    0 <= height_px <= denom_y,
                    0 <= off_min_y <= denom_y,
                    miss_w >= 0,
                    miss_h >= 0,
            ;
            lemma_round_div_le(width_px * miss_w, denom_x as int, miss_w as int);
            lemma_round_div_le(off_min_x * miss_w, denom_x as int, miss_w as int);
            lemma_round_div_le(height_px * miss_h, denom_y as int, miss_h as int);
            lemma_round_div_le(off_min_y * miss_h, denom_y as int, miss_h as int);
        }
        let resize_w: i64 = round_div(width_px * (miss_w as i64), denom_x);
        let resize_h: i64 = round_div(height_px * (miss_h as i64), denom_y);
        if resize_w < 1 || resize_h < 1 {
            return self.missing_image.clone();
        }
        let tex_off_x: i64 = round_div(off_min_x * (miss_w as i64), denom_x);
        let tex_off_y: i64 = round_div(off_min_y * (miss_h as i64), denom_y);
        let cropped = crop_image(
            &self.image,
            sub_min_x as u32,
            sub_min_y as u32,
            width_px as u32,
            height_px as u32,
        );
        let resized = resize_image(&cropped, resize_w as u32, resize_h as u32);
        let mut out = self.missing_image.clone();
        overlay_image(&mut out, &resized, tex_off_x as u32, tex_off_y as u32);
        out
    }

    /// Partition the raster's bounds into tiles of the given angular size
    /// and generate every tile, walked longitude-major: the result holds
    /// exactly one entry per grid cell covering the bounds — no gaps, no
    /// duplicates — keyed by the cell's lower-left corner in whole degrees.
    #[verifier::loop_isolation(false)]
    pub fn generate_textures(&self, tex_size_deg: u32) -> (r: Vec<(MapPieceKey, DynamicImage)>)
        requires
            self.wf(),
            1 <= tex_size_deg <= 360,
        ensures
            r@.len() == n_incr_spec(
                self.bounds.min_long as int,
                self.bounds.max_long as int,
                (tex_size_deg * SCALE) as int,
            ) * n_incr_spec(
                self.bounds.min_lat as int,
                self.bounds.max_lat as int,
                (tex_size_deg * SCALE) as int,
            ),
            forall|i: int|
                0 <= i < r@.len() ==> tile_entry_ok(*self, tex_size_deg as int, #[trigger] r@[i], i),
    {
        let ts_deg: i64 = tex_size_deg as i64;
        let ts_fix: i64 = ts_deg * SCALE;
        proof {
            lemma_axis_grid(
                self.bounds.min_long as int,
                self.bounds.max_long as int,
                ts_fix as int,
            );
            lemma_axis_grid(self.bounds.min_lat as int, self.bounds.max_lat as int, ts_fix as int);
        }
        let lo_long: i64 = div_floor(self.bounds.min_long, ts_fix);
        let hi_long: i64 = div_ceil(self.bounds.max_long, ts_fix) - 1;
        let lo_lat: i64 = div_floor(self.bounds.min_lat, ts_fix);
        let hi_lat: i64 = div_ceil(self.bounds.max_lat, ts_fix) - 1;
        proof {
            lemma_grid_index_bounds(lo_long as int, hi_long as int, ts_fix as int);
            lemma_grid_index_bounds(lo_lat as int, hi_lat as int, ts_fix as int);
        }
        let n_lat: i64 = hi_lat - lo_lat + 1;
        let mut out: Vec<(MapPieceKey, DynamicImage)> = Vec::new();
        let mut long_incr: i64 = lo_long;
        while long_incr <= hi_long
            invariant
                lo_long <= long_incr <= hi_long + 1,
                out@.len() == (long_incr - lo_long) * n_lat,
                forall|i: int|
                    0 <= i < out@.len() ==> tile_entry_ok(
                        *self,
                        ts_deg as int,
                        #[trigger] out@[i],
                        i,
                    ),
            decreases hi_long + 1 - long_incr,
        {
            let mut lat_incr: i64 = lo_lat;
            while lat_incr <= hi_lat
                invariant
                    lo_lat <= lat_incr <= hi_lat + 1,
                    lo_long <= long_incr <= hi_long,
                    out@.len() == (long_incr - lo_long) * n_lat + (lat_incr - lo_lat),
                    forall|i: int|
                        0 <= i < out@.len() ==> tile_entry_ok(
                            *self,
                            ts_deg as int,
                            #[trigger] out@[i],
                            i,
                        ),
                decreases hi_lat + 1 - lat_incr,
            {
                proof {
                    assert(lo_long * ts_fix <= long_incr * ts_fix <= hi_long * ts_fix && lo_lat
                        * ts_fix <= lat_incr * ts_fix <= hi_lat * ts_fix && -2000 * ts_deg
                        <= lat_incr * ts_deg <= 2000 * ts_deg && -2000 * ts_deg <= long_incr
                        * ts_deg <= 2000 * ts_deg) by (nonlinear_arith)
                        requires
                            lo_long <= long_incr <= hi_long,
                            lo_lat <= lat_incr <= hi_lat,
                            ts_fix >= 1,
                            -2000 <= lo_long && hi_long <= 2000,
                            -2000 <= lo_lat && hi_lat <= 2000,
                            ts_deg >= 0,
                    ;
                }
                let key = MapPieceKey {
                    min_lat: (lat_incr * ts_deg) as i32,
                    min_long: (long_incr * ts_deg) as i32,
                };
                let tile = self.generate_tile(lat_incr, long_incr, tex_size_deg);
                proof {
                    let i0 = out@.len() as int;
                    assert(i0 == n_lat * (long_incr - lo_long) + (lat_incr - lo_lat))
                        by (nonlinear_arith)
                        requires
                            i0 == (long_incr - lo_long) * n_lat + (lat_incr - lo_lat),
                    ;
                    vstd::arithmetic::div_mod::lemma_fundamental_div_mod_converse(
                        i0,
                        n_lat as int,
                        long_incr - lo_long,
                        lat_incr - lo_lat,
                    );
                }
                out.push((key, tile));
                lat_incr = lat_incr + 1;
            }
            proof {
                assert((long_incr - lo_long) * n_lat + n_lat == (long_incr + 1 - lo_long) * n_lat)
                    by (nonlinear_arith);
            }
            long_incr = long_incr + 1;
        }
        proof {
            assert((hi_long + 1 - lo_long) * n_lat == n_incr_spec(
                self.bounds.min_long as int,
                self.bounds.max_long as int,
                ts_fix as int,
            ) * n_incr_spec(self.bounds.min_lat as int, self.bounds.max_lat as int, ts_fix as int));
        }
        out
    }
}

/// A tile whose geographic rectangle lies entirely outside the raster —
/// right edge at or left of the first column, left edge at or right of the
/// last, bottom edge at or above the first row, or top edge at or below the
/// last — produces the placeholder unchanged.
pub proof fn lemma_tile_edge_fallback(
    src: Seq<u8>,
    src_w: int,
    src_h: int,
    miss: Seq<u8>,
    miss_w: int,
    miss_h: int,
    bounds: MapBounds,
    lat_incr: int,
    long_incr: int,
    ts: int,
)
    requires
        src_w >= 1,
        src_h >= 1,
        img_x_spec(bounds, src_w, long_incr * ts + ts) <= 0 || img_x_spec(
            bounds,
            src_w,
            long_incr * ts,
        ) >= src_w || img_y_spec(bounds, src_h, lat_incr * ts) <= 0 || img_y_spec(
            bounds,
            src_h,
            lat_incr * ts + ts,
        ) >= src_h,
    ensures
        tile_pixels_spec(
            src,
            src_w,
            src_h,
            miss,
            miss_w,
            miss_h,
            bounds,
            lat_incr,
            long_incr,
            ts,
        ) == miss,
{
    let r = tile_rect_spec(bounds, src_w, src_h, lat_incr, long_incr, ts);
    assert(r.width_px() <= 0 || r.height_px() <= 0);
}

/// The grid indices of a covering grid stay within two thousand tiles of the
/// origin, so the key arithmetic stays in range.
proof fn lemma_grid_index_bounds(lo: int, hi: int, ts: int)
    requires
        1_000_000 <= ts,
        lo <= hi,
        lo * ts > -2_000_000_000,
        hi * ts < 2_000_000_000,
    ensures
        -2000 <= lo,
        hi <= 2000,
{
    assert(-2000 <= lo && hi <= 2000) by (nonlinear_arith)
        requires
            1_000_000 <= ts,
            lo * ts > -2_000_000_000,
            hi * ts < 2_000_000_000,
    ;
}

} // verus!
