use crate::mapper::{lemma_map_within_range, map_spec, map_val};
use vstd::arithmetic::div_mod::{
    lemma_div_is_ordered, lemma_fundamental_div_mod, lemma_fundamental_div_mod_converse,
    lemma_mod_bound,
};
use vstd::prelude::*;

verus! {

/// A bounding box whose extent is empty or inverted on some axis.
#[derive(Debug, Clone, Copy, PartialEq, Eq)]
pub struct ConfigurationError;

/// The geographic region that the drawing surface represents.
///
/// Latitudes and longitudes are fixed-point integers in one unit of the
/// caller's choosing (millionths of a degree, say).
#[derive(Debug, Clone, Copy, PartialEq, Eq)]
pub struct BoundingBox {
    pub min_lat: i32,
    pub min_lon: i32,
    pub max_lat: i32,
    pub max_lon: i32,
}

/// The pixel size of the drawable area.
#[derive(Debug, Clone, Copy, PartialEq, Eq)]
pub struct Viewport {
    pub width: i32,
    pub height: i32,
}

/// A candidate marker location.
#[derive(Debug, Clone, Copy, PartialEq, Eq)]
pub struct GeoPoint {
    pub lat: i32,
    pub lon: i32,
}

/// A location on the drawing surface, in pixels from its top-left corner.
#[derive(Debug, Clone, Copy, PartialEq, Eq)]
pub struct PixelPoint {
    pub x: i32,
    pub y: i32,
}

impl BoundingBox {
    /// Both axes have a positive extent.
    pub open spec fn wf(&self) -> bool {
        self.min_lat < self.max_lat && self.min_lon < self.max_lon
    }

    pub open spec fn lat_span(&self) -> int {
        self.max_lat - self.min_lat
    }

    pub open spec fn lon_span(&self) -> int {
        self.max_lon - self.min_lon
    }

    /// Whether `p` lies in the closed box.
    pub open spec fn contains(&self, p: GeoPoint) -> bool {
        self.min_lat <= p.lat <= self.max_lat && self.min_lon <= p.lon <= self.max_lon
    }

    /// Builds a box, refusing one that is empty or inverted on either axis.
    pub fn new(min_lat: i32, min_lon: i32, max_lat: i32, max_lon: i32) -> (r: Result<
        BoundingBox,
        ConfigurationError,
    >)
        ensures
            r is Ok <==> (min_lat < max_lat && min_lon < max_lon),
            r matches Ok(b) ==> (b == BoundingBox { min_lat, min_lon, max_lat, max_lon }),
            r matches Ok(b) ==> b.wf(),
    {
        if min_lat < max_lat && min_lon < max_lon {
            Ok(BoundingBox { min_lat, min_lon, max_lat, max_lon })
        } else {
            Err(ConfigurationError)
        }
    }
}

/// Column of longitude `lon`: `[min_lon, max_lon]` maps onto `[0, width]`.
pub open spec fn pixel_x(lon: int, bbox: BoundingBox, vp: Viewport) -> int {
    map_spec(lon, bbox.min_lon as int, bbox.max_lon as int, 0, vp.width as int)
}

/// Row of latitude `lat`: `[min_lat, max_lat]` maps onto `[height, 0]`, so
/// that north is at the top.
pub open spec fn pixel_y(lat: int, bbox: BoundingBox, vp: Viewport) -> int {
    map_spec(lat, bbox.min_lat as int, bbox.max_lat as int, vp.height as int, 0)
}

/// Where `p` lands on the surface, or nothing when it lies outside the box.
pub open spec fn project_spec(p: GeoPoint, bbox: BoundingBox, vp: Viewport) -> Option<(int, int)> {
    if bbox.contains(p) {
        Some((pixel_x(p.lon as int, bbox, vp), pixel_y(p.lat as int, bbox, vp)))
    } else {
        None
    }
}

/// Places a geographic point on the viewport.
///
/// A point outside the box gives `None`: such points are skipped rather than
/// treated as errors.
pub fn project(point: GeoPoint, bbox: &BoundingBox, viewport: Viewport) -> (r: Option<PixelPoint>)
    requires
        bbox.wf(),
    ensures
        r is Some <==> bbox.contains(point),
        r matches Some(q) ==> project_spec(point, *bbox, viewport) == Some(
            (q.x as int, q.y as int),
        ),
{
    if !(bbox.min_lat <= point.lat && point.lat <= bbox.max_lat && bbox.min_lon <= point.lon
        && point.lon <= bbox.max_lon) {
        return None;
    }
    let x = match map_val(point.lon, bbox.min_lon, bbox.max_lon, 0, viewport.width) {
        Ok(x) => x,
        Err(_) => return None,
    };
    let y = match map_val(point.lat, bbox.min_lat, bbox.max_lat, viewport.height, 0) {
        Ok(y) => y,
        Err(_) => return None,
    };
    proof {
        lemma_map_within_range(
            point.lon as int,
            bbox.min_lon as int,
            bbox.max_lon as int,
            0,
            viewport.width as int,
        );
        lemma_map_within_range(
            point.lat as int,
            bbox.min_lat as int,
            bbox.max_lat as int,
            viewport.height as int,
            0,
        );
    }
    Some(PixelPoint { x: x as i32, y: y as i32 })
}

/// Rounding down keeps order, and a gap of a whole divisor moves the result
/// by at least one.
proof fn lemma_floor_step(x: int, y: int, den: int)
    requires
        den > 0,
    ensures
        x <= y ==> x / den <= y / den,
        x + den <= y ==> x / den < y / den,
{
    if x <= y {
        lemma_div_is_ordered(x, y, den);
    }
    if x + den <= y {
        lemma_fundamental_div_mod(x, den);
        lemma_mod_bound(x, den);
        assert(x + den == (x / den + 1) * den + x % den) by (nonlinear_arith)
            requires
                x == den * (x / den) + x % den,
        ;
        lemma_fundamental_div_mod_converse(x + den, den, x / den + 1, x % den);
        lemma_div_is_ordered(x + den, y, den);
    }
}

/// Columns grow with longitude and rows shrink as latitude grows: for two
/// points of the box, the one further east is never further left, the one
/// further north is never lower, and a step of at least one pixel's worth of
/// degrees moves the marker by at least one pixel.
pub proof fn lemma_projection_axes(p: GeoPoint, q: GeoPoint, bbox: BoundingBox, vp: Viewport)
    requires
        bbox.wf(),
        vp.width > 0,
        vp.height > 0,
        bbox.contains(p),
        bbox.contains(q),
    ensures
        p.lon <= q.lon ==> pixel_x(p.lon as int, bbox, vp) <= pixel_x(q.lon as int, bbox, vp),
        (q.lon - p.lon) * vp.width >= bbox.lon_span() ==> pixel_x(p.lon as int, bbox, vp)
            < pixel_x(q.lon as int, bbox, vp),
        p.lat <= q.lat ==> pixel_y(p.lat as int, bbox, vp) >= pixel_y(q.lat as int, bbox, vp),
        (q.lat - p.lat) * vp.height >= bbox.lat_span() ==> pixel_y(p.lat as int, bbox, vp)
            > pixel_y(q.lat as int, bbox, vp),
{
    let w = vp.width as int;
    let h = vp.height as int;
    let xp = (w - 0) * (p.lon - bbox.min_lon);
    let xq = (w - 0) * (q.lon - bbox.min_lon);
    let yp = (0 - h) * (p.lat - bbox.min_lat);
    let yq = (0 - h) * (q.lat - bbox.min_lat);
    assert(xq - xp == (q.lon - p.lon) * w) by (nonlinear_arith)
        requires
            xp == (w - 0) * (p.lon - bbox.min_lon),
            xq == (w - 0) * (q.lon - bbox.min_lon),
    ;
    assert(yp - yq == (q.lat - p.lat) * h) by (nonlinear_arith)
        requires
            yp == (0 - h) * (p.lat - bbox.min_lat),
            yq == (0 - h) * (q.lat - bbox.min_lat),
    ;
    if p.lon <= q.lon {
        assert((q.lon - p.lon) * w >= 0) by (nonlinear_arith)
            requires
                p.lon <= q.lon,
                w > 0,
        ;
    }
    if p.lat <= q.lat {
        assert((q.lat - p.lat) * h >= 0) by (nonlinear_arith)
            requires
                p.lat <= q.lat,
                h > 0,
        ;
    }
    lemma_floor_step(xp, xq, bbox.lon_span());
    lemma_floor_step(yq, yp, bbox.lat_span());
}

} // verus!
