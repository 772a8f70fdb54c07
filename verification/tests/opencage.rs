use geocoding::decode::assoc_get;
use geocoding::opencage::{
    forward_from_body, forward_points, parse_response, reverse_display, reverse_from_body,
    Opencage, NOBOX, XRL,
};
use geocoding::{GeocodingError, InputBounds, Point};

fn response_body(results: &str, with_rate: bool) -> String {
    let rate = if with_rate {
        r#""rate": {"limit": 2500, "remaining": 2499, "reset": 1523318400},"#
    } else {
        ""
    };
    format!(
        r#"{{
            "documentation": "https://opencagedata.com/api",
            "licenses": [
                {{"name": "CC-BY-SA", "url": "https://creativecommons.org/licenses/by-sa/3.0/"}}
            ],
            {rate}
            "results": [{results}],
            "status": {{"code": 200, "message": "OK"}},
            "stay_informed": {{"blog": "https://blog.opencagedata.com"}},
            "thanks": "For using an OpenCage Data API",
            "timestamp": {{"created_http": "Mon, 09 Apr 2018 12:33:01 GMT", "created_unix": 1523277181}},
            "total_results": 1
        }}"#
    )
}

fn schwabing_result() -> &'static str {
    r#"{
        "components": {"_type": "neighbourhood", "city": "Munich", "country_code": "de"},
        "confidence": 7,
        "formatted": "Schwabing, Munich, Germany",
        "geometry": {"lat": 48.1700887, "lng": 11.5884858}
    }"#
}

fn calatrava_result() -> &'static str {
    r#"{
        "annotations": {
            "callingcode": 34,
            "currency": {
                "decimal_mark": ",",
                "html_entity": "&#x20AC;",
                "iso_code": "EUR",
                "iso_numeric": 978,
                "name": "Euro",
                "smallest_denomination": 1,
                "subunit": "Cent",
                "subunit_to_unit": 100,
                "symbol": "EUR",
                "symbol_first": 1,
                "thousands_separator": "."
            },
            "flag": "ES",
            "geohash": "sp3e82yhdvd7p5x1mbdv",
            "qibla": 110.53,
            "sun": {
                "rise": {"apparent": 1523251260, "astronomical": 1523245440},
                "set": {"apparent": 1523298360, "astronomical": 1523304180}
            },
            "timezone": {
                "name": "Europe/Madrid",
                "now_in_dst": 1,
                "offset_sec": 7200,
                "offset_string": 200,
                "short_name": "CEST"
            },
            "what3words": {"words": "chins.pictures.passes"}
        },
        "bounds": {
            "northeast": {"lat": 41.4015815, "lng": 2.128952},
            "southwest": {"lat": 41.401227, "lng": 2.1284918}
        },
        "components": {
            "_type": "building",
            "city": "Barcelona",
            "house_number": "68",
            "road": "Carrer de Calatrava"
        },
        "confidence": 10,
        "formatted": "Carrer de Calatrava, 68, 08017 Barcelona, Spain",
        "geometry": {"lat": 41.4014067, "lng": 2.1287224}
    }"#
}

// End-to-end: the forward mapping reads the geometry's lng and lat fields
// into (lon, lat) order.
#[test]
fn opencage_forward_body_maps_to_lon_lat_point() {
    let body = response_body(schwabing_result(), false);
    let pts = forward_from_body(&body).unwrap();
    assert_eq!(pts, vec![Point::new(11_588_485_800, 48_170_088_700)]);
}

#[test]
fn opencage_forward_mapping_keeps_provider_order() {
    let body = response_body(schwabing_result(), false);
    let resp = parse_response(&body).unwrap();
    let pts = forward_points(&resp);
    assert_eq!(pts.len(), resp.results.len());
    let lng = resp.results[0].geometry.iter().find(|p| p.0 == "lng").unwrap().1;
    let lat = resp.results[0].geometry.iter().find(|p| p.0 == "lat").unwrap().1;
    assert_eq!(pts[0].x(), lng);
    assert_eq!(pts[0].y(), lat);
}

// Zero provider matches yield an empty sequence, not an error.
#[test]
fn opencage_forward_empty_results_is_ok_and_empty() {
    let body = response_body("", false);
    let pts = forward_from_body(&body).unwrap();
    assert!(pts.is_empty());
}

// Zero provider matches on a reverse lookup yield absence, not an error.
#[test]
fn opencage_reverse_absence_is_distinct_from_error() {
    let body = response_body("", false);
    assert_eq!(reverse_from_body(&body).unwrap(), None);
    let err = reverse_from_body("]").unwrap_err();
    assert!(matches!(err, GeocodingError::Decode(_)));
}

#[test]
fn reverse_takes_first_formatted_address() {
    let body = response_body(calatrava_result(), true);
    let resp = parse_response(&body).unwrap();
    assert_eq!(
        reverse_display(&resp),
        Some("Carrer de Calatrava, 68, 08017 Barcelona, Spain".to_string())
    );
    assert_eq!(
        assoc_get(&resp.results[0].components, "road").unwrap().as_str(),
        "Carrer de Calatrava"
    );
}

// A numeric field documented to arrive as either a string or an integer is
// normalized to a string either way.
#[test]
fn string_or_int_fields_normalize() {
    let body = response_body(calatrava_result(), true);
    let resp = parse_response(&body).unwrap();
    let ann = resp.results[0].annotations.as_ref().unwrap();
    assert_eq!(ann.currency.iso_numeric, "978");
    assert_eq!(ann.timezone.offset_string, "200");
    assert_eq!(ann.timezone.short_name, "CEST");
    assert_eq!(ann.qibla, 110_530_000_000);
    let body2 = body.replace(r#""iso_numeric": 978"#, r#""iso_numeric": "978""#);
    let resp2 = parse_response(&body2).unwrap();
    assert_eq!(resp2.results[0].annotations.as_ref().unwrap().currency.iso_numeric, "978");
}

#[test]
fn decode_rejects_missing_geometry_field() {
    let broken = schwabing_result().replace(r#""lng": 11.5884858"#, r#""lngg": 11.5884858"#);
    let body = response_body(&broken, false);
    assert!(matches!(parse_response(&body), Err(GeocodingError::Decode(_))));
}

// Before any call the counter is absent; a response with the header sets
// it; one without leaves it untouched.
#[test]
fn rate_limit_counter_follows_headers() {
    let mut oc = Opencage::new("SECRET-REDACTED".to_string());
    assert_eq!(oc.remaining_calls(), None);
    oc.observe_rate_limit(Some("42"));
    assert_eq!(oc.remaining_calls(), Some(42));
    oc.observe_rate_limit(None);
    assert_eq!(oc.remaining_calls(), Some(42));
    oc.observe_rate_limit(Some("not a number"));
    assert_eq!(oc.remaining_calls(), Some(42));
    oc.observe_rate_limit(Some("7"));
    assert_eq!(oc.remaining_calls(), Some(7));
    assert_eq!(XRL, "x-ratelimit-remaining");
}

#[test]
fn forward_query_pairs_include_parameters() {
    let mut oc = Opencage::new("k".to_string());
    oc.parameters.language = Some("fr");
    let q = oc.forward_query("UCL CASA");
    assert_eq!(q, vec![
        ("q".to_string(), "UCL CASA".to_string()),
        ("key".to_string(), "k".to_string()),
        ("no_annotations".to_string(), "1".to_string()),
        ("no_record".to_string(), "1".to_string()),
        ("language".to_string(), "fr".to_string()),
    ]);
}

// This API wants its free-text coordinate in (lat, lon) order; the uniform
// input stays (lon, lat).
#[test]
fn opencage_reverse_query_renders_lat_lon() {
    let oc = Opencage::new("k".to_string());
    let q = oc.reverse_query(&Point::new(2_128_700_000, 41_401_390_000));
    assert_eq!(q[0], ("q".to_string(), "41.40139, 2.1287".to_string()));
}

#[test]
fn forward_full_query_pairs_with_and_without_bounds() {
    let oc = Opencage::new("k".to_string());
    let bbox = InputBounds::new(
        Point::new(-138_069_391, 51_519_892_646),
        Point::new(-134_271_383, 51_523_197_117),
    );
    let q = oc.forward_full_query("UCL CASA", Some(bbox));
    assert_eq!(q[2], ("no_annotations".to_string(), "0".to_string()));
    assert_eq!(q[4], (
        "bounds".to_string(),
        "-0.138069391,51.519892646,-0.134271383,51.523197117".to_string()
    ));
    let q2 = oc.forward_full_query("Moabit, Berlin", NOBOX);
    assert_eq!(q2.len(), 4);
}
