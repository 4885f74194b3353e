use crate::geo::{project, project_spec, BoundingBox, ConfigurationError, GeoPoint, Viewport};
use crate::mapper::{lemma_map_within_range, map_spec, map_val};
use crate::shapes::{Circle, Shape, ShapeRegistry};
use vstd::arithmetic::div_mod::{lemma_div_basics, lemma_div_is_ordered};
use vstd::prelude::*;

verus! {

/// Width of the reference scale onto which an angle is mapped before it is
/// read as a radius in pixels.
pub const ANGLE_SCALE: i32 = 90;

/// Pixel radius for an angular magnitude `theta`: `theta` is mapped from
/// `[0, lat_span]` onto `[0, ANGLE_SCALE]` and rounded down, negative results
/// becoming zero.
pub open spec fn radius_spec(theta: int, bbox: BoundingBox) -> int {
    let m = map_spec(theta, 0, bbox.lat_span(), 0, ANGLE_SCALE as int);
    if m < 0 {
        0
    } else {
        m
    }
}

/// Whether an angular magnitude fits the box on both axes.
pub open spec fn angle_fits(theta: int, bbox: BoundingBox) -> bool {
    theta <= bbox.lat_span() && theta <= bbox.lon_span()
}

/// The shapes `shapes` with a circle of radius `r` at `(lat, lon)` appended,
/// or unchanged when the point lies outside the box.
pub open spec fn with_circle(
    shapes: Seq<Shape>,
    lat: i32,
    lon: i32,
    r: u32,
    bbox: BoundingBox,
    vp: Viewport,
) -> Seq<Shape> {
    match project_spec(GeoPoint { lat, lon }, bbox, vp) {
        Some((x, y)) => shapes.push(Shape::Circle(Circle { x: x as i32, y: y as i32, r })),
        None => shapes,
    }
}

/// A point outside the box is not projected and adds nothing to the scene,
/// whatever the radius asked for.
pub proof fn lemma_outside_point_skipped(
    shapes: Seq<Shape>,
    lat: i32,
    lon: i32,
    r: u32,
    bbox: BoundingBox,
    vp: Viewport,
)
    requires
        !bbox.contains(GeoPoint { lat, lon }),
    ensures
        project_spec(GeoPoint { lat, lon }, bbox, vp) is None,
        with_circle(shapes, lat, lon, r, bbox, vp) == shapes,
{
}

/// Derives the pixel radius of a circle given by its angular magnitude, or
/// `None` when the angle exceeds the latitude or the longitude span of the box.
pub fn radius_for_angle(theta: i32, bbox: &BoundingBox) -> (r: Option<u32>)
    requires
        bbox.wf(),
    ensures
        r is Some <==> angle_fits(theta as int, *bbox),
        r matches Some(v) ==> v == radius_spec(theta as int, *bbox),
        r matches Some(v) ==> v <= ANGLE_SCALE,
{
    let lat_span: i64 = bbox.max_lat as i64 - bbox.min_lat as i64;
    let lon_span: i64 = bbox.max_lon as i64 - bbox.min_lon as i64;
    if !(theta as i64 <= lat_span && theta as i64 <= lon_span) {
        return None;
    }
    if theta <= 0 {
        proof {
            let n = (ANGLE_SCALE - 0) * (theta - 0);
            assert(n <= 0);
            lemma_div_is_ordered(n, 0, lat_span as int);
            lemma_div_basics(lat_span as int);
        }
        return Some(0);
    }
    // Shifting the interval by `min_lat` keeps the map and keeps every value in `i32`.
    let shifted: i32 = bbox.min_lat + theta;
    match map_val(shifted, bbox.min_lat, bbox.max_lat, 0, ANGLE_SCALE) {
        Ok(m) => {
            proof {
                lemma_map_within_range(
                    shifted as int,
                    bbox.min_lat as int,
                    bbox.max_lat as int,
                    0,
                    ANGLE_SCALE as int,
                );
            }
            Some(m as u32)
        },
        Err(_) => None,
    }
}

/// A scene: a background picture, the geographic box it shows, the surface
/// it is shown on, and the markers placed so far.
pub struct BaseMap {
    map_pic_path: String,
    bbox: BoundingBox,
    viewport: Viewport,
    shapes: ShapeRegistry,
}

impl BaseMap {
    /// The box is non-degenerate on both axes.
    pub open spec fn wf(&self) -> bool {
        self.bbox_spec().wf()
    }

    pub closed spec fn bbox_spec(&self) -> BoundingBox {
        self.bbox
    }

    pub closed spec fn viewport_spec(&self) -> Viewport {
        self.viewport
    }

    pub closed spec fn path_spec(&self) -> Seq<char> {
        self.map_pic_path@
    }

    pub closed spec fn shapes_spec(&self) -> Seq<Shape> {
        self.shapes@
    }

    /// Starts an empty scene; a box that is empty or inverted on either axis
    /// is refused.
    pub fn new(
        map_pic_path: String,
        min_lat: i32,
        min_lon: i32,
        max_lat: i32,
        max_lon: i32,
        viewport: Viewport,
    ) -> (r: Result<BaseMap, ConfigurationError>)
        ensures
            r is Ok <==> (min_lat < max_lat && min_lon < max_lon),
            r matches Ok(m) ==> {
                &&& m.bbox_spec() == (BoundingBox { min_lat, min_lon, max_lat, max_lon })
                &&& m.viewport_spec() == viewport
                &&& m.path_spec() == map_pic_path@
                &&& m.shapes_spec() == Seq::<Shape>::empty()
                &&& m.wf()
            },
    {
        match BoundingBox::new(min_lat, min_lon, max_lat, max_lon) {
            Ok(bbox) => Ok(BaseMap { map_pic_path, bbox, viewport, shapes: ShapeRegistry::new() }),
            Err(e) => Err(e),
        }
    }

    /// Adds a circle of pixel radius `r` centred on `(lat, lon)`; a centre
    /// outside the box leaves the scene as it was.
    pub fn draw_circle_radi(&mut self, lat: i32, lon: i32, r: u32)
        requires
            old(self).wf(),
        ensures
            final(self).wf(),
            final(self).bbox_spec() == old(self).bbox_spec(),
            final(self).viewport_spec() == old(self).viewport_spec(),
            final(self).path_spec() == old(self).path_spec(),
            final(self).shapes_spec() == with_circle(
                old(self).shapes_spec(),
                lat,
                lon,
                r,
                old(self).bbox_spec(),
                old(self).viewport_spec(),
            ),
    {
        match project(GeoPoint { lat, lon }, &self.bbox, self.viewport) {
            Some(p) => {
                self.shapes.push(Shape::Circle(Circle { x: p.x, y: p.y, r }));
            },
            None => {},
        }
    }

    /// Adds a circle whose radius is derived from the angular magnitude
    /// `theta`; an angle beyond either span of the box, or a centre outside
    /// it, leaves the scene as it was.
    pub fn draw_circle_ang(&mut self, lat: i32, lon: i32, theta: i32)
        requires
            old(self).wf(),
        ensures
            final(self).wf(),
            final(self).bbox_spec() == old(self).bbox_spec(),
            final(self).viewport_spec() == old(self).viewport_spec(),
            final(self).path_spec() == old(self).path_spec(),
            angle_fits(theta as int, old(self).bbox_spec()) ==> final(self).shapes_spec()
                == with_circle(
                old(self).shapes_spec(),
                lat,
                lon,
                radius_spec(theta as int, old(self).bbox_spec()) as u32,
                old(self).bbox_spec(),
                old(self).viewport_spec(),
            ),
            !angle_fits(theta as int, old(self).bbox_spec()) ==> final(self).shapes_spec()
                == old(self).shapes_spec(),
    {
        match radius_for_angle(theta, &self.bbox) {
            Some(r) => self.draw_circle_radi(lat, lon, r),
            None => {},
        }
    }

    pub fn map_pic_path(&self) -> (r: &String)
        ensures
            r@ == self.path_spec(),
    {
        &self.map_pic_path
    }

    pub fn bbox(&self) -> (r: BoundingBox)
        ensures
            r == self.bbox_spec(),
    {
        self.bbox
    }

    pub fn viewport(&self) -> (r: Viewport)
        ensures
            r == self.viewport_spec(),
    {
        self.viewport
    }

    /// The markers placed so far, in drawing order.
    pub fn shapes(&self) -> (r: &ShapeRegistry)
        ensures
            r@ == self.shapes_spec(),
    {
        &self.shapes
    }
}

} // verus!
