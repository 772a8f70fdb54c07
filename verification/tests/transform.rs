use geocoding::geoadmin::wgs84_to_lv03;
use geocoding::Point;

// The documented reference point: lon 7.451352119445801, lat
// 46.92793655395508, whose LV03 image (easting and northing offset from the
// 2,000,000 / 1,000,000 origins) is 600968.75 / 197427.0 to within the
// documented accuracy of roughly a metre and a half.
#[test]
fn reference_point_within_tolerance() {
    let p = Point::new(7_451_352_119, 46_927_936_553);
    let r = wgs84_to_lv03(&p);
    let easting_expected: i64 = 600_968_750_000_000;
    let northing_expected: i64 = 197_427_000_000_000;
    let tolerance: i64 = 1_500_000_000;
    assert!((r.x() - easting_expected).abs() <= tolerance);
    assert!((r.y() - northing_expected).abs() <= tolerance);
}

#[test]
fn transform_is_exact_integer_arithmetic() {
    // The polynomial is evaluated in exact integer arithmetic, so the
    // result is one fixed value, bit for bit.
    let p = Point::new(7_451_352_119, 46_927_936_553);
    let r = wgs84_to_lv03(&p);
    assert_eq!(r, Point::new(600_968_666_681_527, 197_426_902_991_254));
    assert_eq!(r, wgs84_to_lv03(&p));
}

#[test]
fn transform_accepts_the_whole_wgs84_range() {
    // Far outside Switzerland the output is meaningless but still a value.
    let corners = [
        Point::new(-180_000_000_000, -90_000_000_000),
        Point::new(180_000_000_000, 90_000_000_000),
        Point::new(0, 0),
    ];
    for p in corners {
        let _ = wgs84_to_lv03(&p);
    }
}
