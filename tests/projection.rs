use basemap::shapes::saturate_i16;
use basemap::{
    frame_ends_session, map_val, project, radius_for_angle, BaseMap, BoundingBox, Circle,
    ConfigurationError, DegenerateRangeError, GeoPoint, InputEvent, Key, PixelPoint, Shape,
    ShapeRegistry, Viewport,
};

fn unit_box() -> BoundingBox {
    BoundingBox::new(0, 0, 10, 10).unwrap()
}

fn hundred() -> Viewport {
    Viewport { width: 100, height: 100 }
}

fn unit_map() -> BaseMap {
    BaseMap::new(String::from("map.png"), 0, 0, 10, 10, hundred()).unwrap()
}

#[test]
fn map_val_hits_both_ends() {
    assert_eq!(map_val(3, 3, 17, -5, 40), Ok(-5));
    assert_eq!(map_val(17, 3, 17, -5, 40), Ok(40));
    assert_eq!(map_val(17, 3, 17, 40, -5), Ok(-5));
}

#[test]
fn map_val_stays_inside_target_range() {
    for v in 3..=17 {
        let m = map_val(v, 3, 17, 90, -10).unwrap();
        assert!(-10 <= m && m <= 90, "value {} mapped to {}", v, m);
    }
}

#[test]
fn map_val_interpolates_exactly() {
    assert_eq!(map_val(5, 0, 10, 0, 90), Ok(45));
    assert_eq!(map_val(5, 0, 10, 100, 0), Ok(50));
    assert_eq!(map_val(1, 0, 3, 0, 10), Ok(3));
}

#[test]
fn map_val_rounds_down() {
    // -10/3 lies between -4 and -3.
    assert_eq!(map_val(1, 0, 3, 0, -10), Ok(-4));
    assert_eq!(map_val(2, 0, 3, 10, 0), Ok(3));
}

#[test]
fn map_val_with_reversed_source() {
    assert_eq!(map_val(10, 10, 0, 0, 100), Ok(0));
    assert_eq!(map_val(0, 10, 0, 0, 100), Ok(100));
    assert_eq!(map_val(3, 10, 0, 0, 100), Ok(70));
}

#[test]
fn map_val_extrapolates() {
    assert_eq!(map_val(20, 0, 10, 0, 100), Ok(200));
    assert_eq!(map_val(-5, 0, 10, 0, 100), Ok(-50));
}

#[test]
fn map_val_extreme_inputs() {
    let r = map_val(i32::MAX, i32::MIN, i32::MIN + 1, i32::MIN, i32::MAX).unwrap();
    let expected = i32::MIN as i128 + (u32::MAX as i128) * (u32::MAX as i128);
    assert_eq!(r, expected);
}

#[test]
fn map_val_degenerate_range() {
    assert_eq!(map_val(4, 7, 7, 0, 100), Err(DegenerateRangeError));
    assert_eq!(map_val(7, 7, 7, 0, 0), Err(DegenerateRangeError));
}

#[test]
fn bounding_box_refuses_degenerate_axes() {
    assert_eq!(BoundingBox::new(0, 0, 0, 10), Err(ConfigurationError));
    assert_eq!(BoundingBox::new(0, 5, 10, 5), Err(ConfigurationError));
    assert_eq!(BoundingBox::new(10, 0, 0, 10), Err(ConfigurationError));
    assert!(BaseMap::new(String::new(), 0, 10, 10, 0, hundred()).is_err());
    let b = BoundingBox::new(-1, -2, 3, 4).unwrap();
    assert_eq!((b.min_lat, b.min_lon, b.max_lat, b.max_lon), (-1, -2, 3, 4));
}

#[test]
fn project_scenario_corners_and_centre() {
    let b = unit_box();
    assert_eq!(project(GeoPoint { lat: 0, lon: 0 }, &b, hundred()), Some(PixelPoint { x: 0, y: 100 }));
    assert_eq!(project(GeoPoint { lat: 10, lon: 10 }, &b, hundred()), Some(PixelPoint { x: 100, y: 0 }));
    assert_eq!(project(GeoPoint { lat: 5, lon: 5 }, &b, hundred()), Some(PixelPoint { x: 50, y: 50 }));
}

#[test]
fn project_in_millionths_of_a_degree() {
    let b = BoundingBox::new(40_000_000, -10_000_000, 50_000_000, 10_000_000).unwrap();
    let vp = Viewport { width: 1920, height: 1080 };
    let p = project(GeoPoint { lat: 45_000_000, lon: 0 }, &b, vp);
    assert_eq!(p, Some(PixelPoint { x: 960, y: 540 }));
}

#[test]
fn project_axis_directions() {
    let b = unit_box();
    let west = project(GeoPoint { lat: 5, lon: 2 }, &b, hundred()).unwrap();
    let east = project(GeoPoint { lat: 5, lon: 7 }, &b, hundred()).unwrap();
    assert!(west.x < east.x);
    assert_eq!(west.y, east.y);
    let south = project(GeoPoint { lat: 2, lon: 5 }, &b, hundred()).unwrap();
    let north = project(GeoPoint { lat: 7, lon: 5 }, &b, hundred()).unwrap();
    assert!(north.y < south.y);
    assert_eq!(north.x, south.x);
}

#[test]
fn project_outside_box() {
    let b = unit_box();
    assert_eq!(project(GeoPoint { lat: 20, lon: 5 }, &b, hundred()), None);
    assert_eq!(project(GeoPoint { lat: 5, lon: -1 }, &b, hundred()), None);
    assert_eq!(project(GeoPoint { lat: 11, lon: 11 }, &b, hundred()), None);
}

#[test]
fn circle_by_radius_out_of_range_is_skipped() {
    let mut m = unit_map();
    m.draw_circle_radi(20, 5, 3);
    assert_eq!(m.shapes().len(), 0);
    m.draw_circle_radi(5, 11, 3);
    assert_eq!(m.shapes().len(), 0);
}

#[test]
fn circle_by_radius_is_appended() {
    let mut m = unit_map();
    m.draw_circle_radi(0, 10, 3);
    assert_eq!(m.shapes().snapshot(), &vec![Shape::Circle(Circle { x: 100, y: 100, r: 3 })]);
}

#[test]
fn circle_by_angle_scenario() {
    let mut m = unit_map();
    m.draw_circle_ang(5, 5, 5);
    assert_eq!(m.shapes().snapshot(), &vec![Shape::Circle(Circle { x: 50, y: 50, r: 45 })]);
}

#[test]
fn circle_by_angle_too_wide_is_skipped() {
    let mut m = unit_map();
    m.draw_circle_ang(5, 5, 11);
    assert_eq!(m.shapes().len(), 0);
    let mut narrow = BaseMap::new(String::new(), 0, 0, 20, 10, hundred()).unwrap();
    narrow.draw_circle_ang(5, 5, 15);
    assert_eq!(narrow.shapes().len(), 0);
    narrow.draw_circle_ang(5, 5, 10);
    assert_eq!(narrow.shapes().len(), 1);
}

#[test]
fn radius_for_angle_values() {
    let b = unit_box();
    assert_eq!(radius_for_angle(5, &b), Some(45));
    assert_eq!(radius_for_angle(10, &b), Some(90));
    assert_eq!(radius_for_angle(0, &b), Some(0));
    assert_eq!(radius_for_angle(-3, &b), Some(0));
    assert_eq!(radius_for_angle(1, &BoundingBox::new(0, 0, 3, 3).unwrap()), Some(30));
    assert_eq!(radius_for_angle(1, &BoundingBox::new(0, 0, 7, 7).unwrap()), Some(12));
    assert_eq!(radius_for_angle(11, &b), None);
    let wide = BoundingBox::new(i32::MIN, i32::MIN, i32::MAX, i32::MAX).unwrap();
    assert_eq!(radius_for_angle(i32::MAX, &wide), Some(44));
}

#[test]
fn markers_keep_drawing_order() {
    let mut m = unit_map();
    m.draw_circle_radi(10, 0, 1);
    m.draw_circle_radi(20, 0, 9);
    m.draw_circle_ang(0, 0, 10);
    m.draw_circle_radi(10, 0, 1);
    assert_eq!(
        m.shapes().snapshot(),
        &vec![
            Shape::Circle(Circle { x: 0, y: 0, r: 1 }),
            Shape::Circle(Circle { x: 0, y: 100, r: 90 }),
            Shape::Circle(Circle { x: 0, y: 0, r: 1 }),
        ]
    );
}

#[test]
fn snapshot_twice_gives_same_contents() {
    let mut reg = ShapeRegistry::new();
    reg.push(Shape::Circle(Circle { x: 1, y: 2, r: 3 }));
    reg.push(Shape::Circle(Circle { x: 4, y: 5, r: 6 }));
    let first = reg.snapshot().clone();
    let second = reg.snapshot().clone();
    assert_eq!(first, second);
    assert_eq!(first.len(), 2);
}

#[test]
fn map_getters() {
    let m = unit_map();
    assert_eq!(m.map_pic_path(), "map.png");
    assert_eq!(m.bbox(), unit_box());
    assert_eq!(m.viewport(), hundred());
    assert_eq!(m.shapes().len(), 0);
}

#[test]
fn session_ends_on_quit_or_escape() {
    assert!(!frame_ends_session(&vec![]));
    assert!(!frame_ends_session(&vec![InputEvent::Other, InputEvent::KeyDown(Key::Other)]));
    assert!(frame_ends_session(&vec![InputEvent::Other, InputEvent::Quit]));
    assert!(frame_ends_session(&vec![InputEvent::KeyDown(Key::Escape)]));
}

#[test]
fn draw_params_clamp_to_i16() {
    assert_eq!(saturate_i16(70_000), i16::MAX);
    assert_eq!(saturate_i16(-70_000), i16::MIN);
    assert_eq!(saturate_i16(1234), 1234);
    let c = Circle { x: 40_000, y: -3, r: 45 };
    assert_eq!(c.draw_params(), (i16::MAX, -3, 45));
}
