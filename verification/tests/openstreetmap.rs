use geocoding::openstreetmap::{
    forward_from_body, forward_points, parse_response, reverse_display, reverse_from_body,
    Openstreetmap, OpenstreetmapParams,
};
use geocoding::{GeocodingError, InputBounds, Point};

fn schwabing_body() -> String {
    r#"{
        "type": "FeatureCollection",
        "licence": "Data ODbL 1.0",
        "features": [
            {
                "type": "Feature",
                "properties": {
                    "place_id": 263681481,
                    "osm_type": "relation",
                    "osm_id": 355421084,
                    "display_name": "Schwabing, München, Bayern, Deutschland",
                    "place_rank": 20,
                    "category": "boundary",
                    "type": "administrative",
                    "importance": 0.6
                },
                "bbox": [11.54, 48.14, 11.63, 48.2],
                "geometry": {
                    "type": "Point",
                    "coordinates": [11.5884858, 48.1700887]
                }
            }
        ]
    }"#
        .to_string()
}

fn empty_body() -> String {
    r#"{"type": "FeatureCollection", "licence": "Data ODbL 1.0", "features": []}"#.to_string()
}

// End-to-end: a forward lookup of "Schwabing, Muenchen" maps to the
// coordinate (11.5884858, 48.1700887), in (lon, lat) order.
#[test]
fn osm_forward_body_maps_to_lon_lat_point() {
    let pts = forward_from_body(&schwabing_body()).unwrap();
    assert_eq!(pts, vec![Point::new(11_588_485_800, 48_170_088_700)]);
}

// The order invariant: the mapped point's first component is the provider's
// longitude, the second its latitude.
#[test]
fn osm_forward_mapping_keeps_provider_order() {
    let resp = parse_response(&schwabing_body()).unwrap();
    let pts = forward_points(&resp);
    assert_eq!(pts.len(), resp.features.len());
    assert_eq!(pts[0].x(), resp.features[0].geometry.coordinates.0);
    assert_eq!(pts[0].y(), resp.features[0].geometry.coordinates.1);
}

// Zero provider matches yield an empty sequence, not an error.
#[test]
fn osm_forward_empty_features_is_ok_and_empty() {
    let pts = forward_from_body(&empty_body()).unwrap();
    assert!(pts.is_empty());
}

// Zero provider matches on a reverse lookup yield absence, not an error --
// and a malformed body yields the decode error, not absence.
#[test]
fn osm_reverse_absence_is_distinct_from_error() {
    assert_eq!(reverse_from_body(&empty_body()).unwrap(), None);
    let err = reverse_from_body("{not json").unwrap_err();
    assert!(matches!(err, GeocodingError::Decode(_)));
}

#[test]
fn reverse_takes_first_display_name() {
    let resp = parse_response(&schwabing_body()).unwrap();
    assert_eq!(
        reverse_display(&resp),
        Some("Schwabing, M\u{fc}nchen, Bayern, Deutschland".to_string())
    );
}

#[test]
fn osm_decode_rejects_missing_required_field() {
    // No "licence" field.
    let body = r#"{"type": "FeatureCollection", "features": []}"#;
    assert!(matches!(parse_response(body), Err(GeocodingError::Decode(_))));
}

#[test]
fn osm_forward_query_pairs() {
    let osm = Openstreetmap::new();
    let q = osm.forward_query("Schwabing, M\u{fc}nchen");
    assert_eq!(q, vec![
        ("q".to_string(), "Schwabing, M\u{fc}nchen".to_string()),
        ("format".to_string(), "geojson".to_string()),
    ]);
}

#[test]
fn osm_reverse_query_pairs() {
    let osm = Openstreetmap::new();
    let q = osm.reverse_query(&Point::new(2_128_700_000, 41_401_390_000));
    assert_eq!(q, vec![
        ("lon".to_string(), "2.1287".to_string()),
        ("lat".to_string(), "41.40139".to_string()),
        ("format".to_string(), "geojson".to_string()),
    ]);
}

#[test]
fn forward_full_query_includes_viewbox_and_details() {
    let osm = Openstreetmap::new_with_endpoint("https://nominatim.openstreetmap.org/".to_string());
    let viewbox = InputBounds::new(
        Point::new(-138_069_391, 51_519_892_646),
        Point::new(-134_271_383, 51_523_197_117),
    );
    let params = OpenstreetmapParams::new("UCL CASA")
        .with_addressdetails(true)
        .with_viewbox(&viewbox)
        .build();
    let q = osm.forward_full_query(&params);
    assert_eq!(q, vec![
        ("q".to_string(), "UCL CASA".to_string()),
        ("format".to_string(), "geojson".to_string()),
        ("addressdetails".to_string(), "1".to_string()),
        (
            "viewbox".to_string(),
            "-0.138069391,51.519892646,-0.134271383,51.523197117".to_string()
        ),
    ]);
    assert_eq!(osm.forward_url(), "https://nominatim.openstreetmap.org/search");
    assert_eq!(osm.reverse_url(), "https://nominatim.openstreetmap.org/reverse");
}

#[test]
fn osm_forward_full_body_keeps_details() {
    let body = r#"{
        "type": "FeatureCollection",
        "licence": "Data ODbL 1.0",
        "features": [
            {
                "type": "Feature",
                "properties": {
                    "place_id": 123,
                    "osm_type": "way",
                    "osm_id": 456,
                    "display_name": "UCL CASA, Gordon Square, London",
                    "place_rank": 30,
                    "category": "building",
                    "type": "university",
                    "importance": 0.7409999999999999,
                    "address": {
                        "city": "London",
                        "country": "United Kingdom"
                    }
                },
                "bbox": [-0.1338, 51.5237, -0.1337, 51.5238],
                "geometry": {
                    "type": "Point",
                    "coordinates": [-0.13377, 51.52378]
                }
            }
        ]
    }"#;
    let resp = parse_response(body).unwrap();
    let props = resp.features[0].properties.clone();
    assert!(props.display_name.contains("Gordon Square"));
    assert_eq!(props.address.unwrap().city.unwrap(), "London");
    assert_eq!(props.importance, 740_999_999);
    assert_eq!(resp.features[0].bbox, (-133_800_000, 51_523_700_000, -133_700_000, 51_523_800_000));
}
