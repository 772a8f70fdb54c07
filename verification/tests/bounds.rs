use geocoding::{InputBounds, Point};

// The canonical serialization: "{minLon},{minLat},{maxLon},{maxLat}", no
// whitespace, in lon, lat order.
#[test]
fn bbox_serializes_in_lon_lat_order() {
    let b = InputBounds::new(Point::new(1_500_000_000, 2_250_000_000), Point::new(
        3_500_000_000,
        4_000_000_000,
    ));
    assert_eq!(b.bbox_string(), "1.5,2.25,3.5,4");
}

#[test]
fn bbox_serializes_negative_coordinates() {
    let b = InputBounds::new(
        Point::new(-138_069_391, 51_519_892_646),
        Point::new(-134_271_383, 51_523_197_117),
    );
    assert_eq!(b.bbox_string(), "-0.138069391,51.519892646,-0.134271383,51.523197117");
}

#[test]
fn bbox_of_whole_numbers_has_no_points() {
    let b = InputBounds::new(Point::new(7_000_000_000, 46_000_000_000), Point::new(
        8_000_000_000,
        47_000_000_000,
    ));
    assert_eq!(b.bbox_string(), "7,46,8,47");
}
