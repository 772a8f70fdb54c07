use geocoding::geoadmin::{
    parse_forward_response, parse_reverse_response, reverse_display, wgs84_to_lv03, GeoAdmin,
    GeoAdminParams,
};
use geocoding::{GeocodingError, InputBounds, Point};

fn forward_body(extra_properties: &str) -> String {
    format!(
        r#"{{
            "type": "FeatureCollection",
            "features": [
                {{
                    "id": 1420809,
                    "properties": {{
                        "origin": "address",
                        "geom_quadindex": "021300220302203002031",
                        "weight": 1512,
                        "zoomlevel": 10,
                        "detail": "seftigenstrasse 264 3084 wabern 355 koeniz ch be",
                        "rank": 7,
                        "num": 264,
                        "label": "Seftigenstrasse 264 <b>3084 Wabern</b>",
                        {extra_properties}
                    }}
                }}
            ]
        }}"#
    )
}

fn wgs84_properties() -> &'static str {
    r#""lon": 7.451352119445801, "lat": 46.92793655395508, "x": 46.92793655395508, "y": 7.451352119445801"#
}

fn grid_properties() -> &'static str {
    r#""lon": 7.451352119445801, "lat": 46.92793655395508, "x": 1197427.0, "y": 2600968.75"#
}

fn reverse_body(results: &str) -> String {
    format!(r#"{{"results": [{results}]}}"#)
}

fn wabern_result() -> &'static str {
    r#"{
        "id": "1272199_0",
        "featureId": "1272199_0",
        "layerBodId": "ch.bfs.gebaeude_wohnungs_register",
        "layerName": "Register of Buildings and Dwellings",
        "properties": {
            "egid": "1272199",
            "ggdenr": 355,
            "ggdename": "Koeniz",
            "gdekt": "BE",
            "egaid": 100537577,
            "deinr": "264",
            "dplz4": 3084,
            "dplzname": "Wabern",
            "esid": 10196322,
            "strname": ["Seftigenstrasse"],
            "strsp": ["DE"],
            "strname_deinr": "Seftigenstrasse 264",
            "label": "Seftigenstrasse 264 <b>3084 Wabern</b>"
        }
    }"#
}

// End-to-end, default reference: the forward lookup of "Seftigenstrasse
// 264, 3084 Wabern" maps to (7.451352119445801, 46.92793655395508), read
// from the lon and lat fields.
#[test]
fn forward_default_reference_reads_lon_lat() {
    let ga = GeoAdmin::new();
    let resp = parse_forward_response(&forward_body(wgs84_properties())).unwrap();
    let pts = ga.forward_points(&resp);
    assert_eq!(pts, vec![Point::new(7_451_352_119, 46_927_936_553)]);
}

// The order invariant under each of the four supported reference codes:
// the mapped point's first component is always the provider's longitude
// (easting) value, the second its latitude (northing) value.
#[test]
fn forward_mapping_order_under_all_reference_codes() {
    let grid = parse_forward_response(&forward_body(grid_properties())).unwrap();
    let wgs = parse_forward_response(&forward_body(wgs84_properties())).unwrap();
    for sr in ["2056", "21781"] {
        let ga = GeoAdmin::new().with_sr(sr);
        let pts = ga.forward_points(&grid);
        // y is the west-east (easting) field, x the north-south one.
        assert_eq!(pts, vec![Point::new(2_600_968_750_000_000, 1_197_427_000_000_000)]);
        assert_eq!(pts[0].x(), grid.features[0].properties.y);
        assert_eq!(pts[0].y(), grid.features[0].properties.x);
    }
    for sr in ["4326", "3857"] {
        let ga = GeoAdmin::new().with_sr(sr);
        let pts = ga.forward_points(&wgs);
        assert_eq!(pts[0].x(), wgs.features[0].properties.lon);
        assert_eq!(pts[0].y(), wgs.features[0].properties.lat);
    }
}

// Zero provider matches yield an empty sequence, not an error.
#[test]
fn geoadmin_forward_empty_features_is_ok_and_empty() {
    let ga = GeoAdmin::new();
    let body = r#"{"type": "FeatureCollection", "features": []}"#;
    let pts = ga.forward_from_body(body).unwrap();
    assert!(pts.is_empty());
}

// End-to-end: the reverse lookup of the Wabern point renders the first
// result as "Seftigenstrasse 264, 3084 Wabern".
#[test]
fn reverse_formats_street_plz_locality() {
    let resp = parse_reverse_response(&reverse_body(wabern_result())).unwrap();
    assert_eq!(reverse_display(&resp), Some("Seftigenstrasse 264, 3084 Wabern".to_string()));
}

// Zero provider matches on a reverse lookup yield absence, not an error.
#[test]
fn geoadmin_reverse_absence_is_distinct_from_error() {
    let ga = GeoAdmin::new();
    assert_eq!(ga.reverse_from_body(&reverse_body("")).unwrap(), None);
    let err = ga.reverse_from_body("no json at all").unwrap_err();
    assert!(matches!(err, GeocodingError::Decode(_)));
}

#[test]
fn geoadmin_forward_query_pairs() {
    let ga = GeoAdmin::new().with_sr("2056");
    let q = ga.forward_query("Seftigenstrasse 264, 3084 Wabern");
    assert_eq!(q, vec![
        ("searchText".to_string(), "Seftigenstrasse 264, 3084 Wabern".to_string()),
        ("type".to_string(), "locations".to_string()),
        ("origins".to_string(), "address".to_string()),
        ("limit".to_string(), "1".to_string()),
        ("sr".to_string(), "2056".to_string()),
        ("geometryFormat".to_string(), "geojson".to_string()),
    ]);
    assert_eq!(ga.forward_url(), "https://api3.geo.admin.ch/rest/services/api/SearchServer");
    assert_eq!(ga.reverse_url(), "https://api3.geo.admin.ch/rest/services/api/MapServer/identify");
}

#[test]
fn reverse_query_renders_lon_lat_geometry() {
    let ga = GeoAdmin::new();
    let q = ga.reverse_query(&Point::new(7_451_352_119, 46_927_936_553));
    assert_eq!(q[0], ("geometry".to_string(), "7.451352119,46.927936553".to_string()));
    assert_eq!(q[7], ("sr".to_string(), "4326".to_string()));
}

// Under a grid reference the bounding box goes through unchanged; under
// WGS84 it is translated into the grid system first.
#[test]
fn forward_full_query_translates_wgs84_bbox() {
    let ga = GeoAdmin::new();
    let bbox = InputBounds::new(
        Point::new(7_451_339_800, 46_927_928_590),
        Point::new(7_451_366_200, 46_927_946_700),
    );
    let params = GeoAdminParams::new("Seftigenstrasse Bern")
        .with_origins("address")
        .with_bbox(&bbox)
        .build();
    let q = ga.forward_full_query(&params).unwrap();
    let min = wgs84_to_lv03(&bbox.minimum_lonlat);
    let max = wgs84_to_lv03(&bbox.maximum_lonlat);
    let expected = InputBounds::new(min, max).bbox_string();
    assert_eq!(q[5], ("bbox".to_string(), expected));
    assert_eq!(q[6], ("limit".to_string(), "50".to_string()));
}

#[test]
fn forward_full_query_passes_grid_bbox_through() {
    let ga = GeoAdmin::new().with_sr("2056");
    let bbox = InputBounds::new(
        Point::new(2_600_967_750_000_000, 1_197_426_000_000_000),
        Point::new(2_600_969_750_000_000, 1_197_428_000_000_000),
    );
    let params = GeoAdminParams::new("Seftigenstrasse Bern")
        .with_origins("address")
        .with_bbox(&bbox)
        .build();
    let q = ga.forward_full_query(&params).unwrap();
    assert_eq!(q[5], ("bbox".to_string(), "2600967.75,1197426,2600969.75,1197428".to_string()));
}

// A box whose coordinates lie outside the transform's domain cannot be
// translated and is rejected as a forward-geocoding failure.
#[test]
fn forward_full_query_rejects_untranslatable_bbox() {
    let ga = GeoAdmin::new().with_sr("3857");
    // Web-Mercator metres, far beyond any coordinate in degrees.
    let bbox = InputBounds::new(
        Point::new(829_527_000_000_000_000, 5_933_670_000_000_000_000),
        Point::new(829_528_000_000_000_000, 5_933_671_000_000_000_000),
    );
    let params = GeoAdminParams::new("Bern").with_bbox(&bbox).build();
    let err = ga.forward_full_query(&params).unwrap_err();
    assert!(matches!(err, GeocodingError::Forward));
}

#[test]
fn geoadmin_forward_full_body_keeps_label() {
    let resp = parse_forward_response(&forward_body(grid_properties())).unwrap();
    assert_eq!(
        resp.features[0].properties.label,
        "Seftigenstrasse 264 <b>3084 Wabern</b>"
    );
    assert_eq!(resp.features[0].properties.num, Some(264));
    assert_eq!(resp.features[0].id, Some(1420809));
}
