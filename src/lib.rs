//! Places geographic markers on a pixel surface.
//!
//! Coordinates are fixed-point integers (for instance millionths of a degree);
//! the projection is the plain two-axis affine map from a bounding box onto a
//! viewport, with latitude growing towards the top of the surface.

pub mod basemap;
pub mod frame;
pub mod geo;
pub mod mapper;
pub mod shapes;

pub use basemap::{radius_for_angle, BaseMap};
pub use frame::{frame_ends_session, InputEvent, Key};
pub use geo::{project, BoundingBox, ConfigurationError, GeoPoint, PixelPoint, Viewport};
pub use mapper::{map_val, DegenerateRangeError};
pub use shapes::{Circle, Shape, ShapeRegistry};
