//! The Swiss federal geoportal provider, for geocoding in Switzerland
//! exclusively, together with the WGS84 to LV03 grid transform its search
//! endpoint calls for.

use vstd::prelude::*;
use crate::{GeocodingError, InputBounds, Point};
use crate::decode::{
    get_coord, get_string, get_u64, jfield, jfield_coord, jfield_str, jfield_u64, opt_str_matches,
    str_items_match, str_items_ok, string_items,
};
use crate::fixed::{format_fixed, spec_format_fixed, dec_digits, format_u64, str_eq};
use crate::json::{json_model, json_of, json_parse, JsonVal};

verus! {

/// The largest coordinate magnitude (in units of `10^-9` of a degree) that
/// the grid transform accepts: two hundred degrees, comfortably past the
/// whole WGS84 range.
pub const TRANSFORM_BOUND: i64 = 200_000_000_000;

proof fn lemma_ediv_bounds(a: int, d: int, b: int)
    requires
        d >= 1,
        b >= 0,
        -b <= a <= b,
    ensures
        -(b / d) - 1 <= a / d <= b / d,
{
    vstd::arithmetic::div_mod::lemma_div_is_ordered(a, b, d);
    vstd::arithmetic::div_mod::lemma_div_is_ordered(-b, a, d);
    vstd::arithmetic::div_mod::lemma_fundamental_div_mod(b, d);
    vstd::arithmetic::div_mod::lemma_fundamental_div_mod(-b, d);
    let q = b / d;
    let r = b % d;
    let q2 = (-b) / d;
    let r2 = (-b) % d;
    assert(0 <= r < d);
    assert(0 <= r2 < d);
    assert(d * q2 + r2 == -(d * q + r));
    assert(d * (q2 + q) == -r - r2) by (nonlinear_arith)
        requires
            d * q2 + r2 == -(d * q + r),
    ;
    assert(-2 * d < -r - r2 <= 0);
    assert(-2 < q2 + q <= 0) by (nonlinear_arith)
        requires
            d >= 1,
            -2 * d < d * (q2 + q) <= 0,
    ;
    assert(q2 >= -q - 1);
}

proof fn lemma_mul_bounds(a: int, b: int, ba: int, bb: int)
    requires
        -ba <= a <= ba,
        -bb <= b <= bb,
        ba >= 0,
        bb >= 0,
    ensures
        -(ba * bb) <= a * b <= ba * bb,
{
    assert(-(ba * bb) <= a * b <= ba * bb) by (nonlinear_arith)
        requires
            -ba <= a <= ba,
            -bb <= b <= bb,
            ba >= 0,
            bb >= 0,
    ;
}

/// Euclidean division by a positive divisor, matching the meaning of `/` in
/// specifications.
fn ediv(a: i128, d: i128) -> (r: i128)
    requires
        d >= 1,
        a > i128::MIN,
    ensures
        r == a as int / d as int,
{
    proof {
        lemma_ediv_bounds(a as int, d as int, i128::MAX as int);
        vstd::arithmetic::div_mod::lemma_div_is_ordered(1, d as int, d as int);
    }
    match a.checked_div_euclid(d) {
        Some(v) => v,
        None => {
            // Unreachable: the quotient of a value above `i128::MIN` by a
            // positive divisor always fits.
            proof {
                assert(false);
            }
            0
        },
    }
}

/// `(lon * 3600 - 26782.5 * 10^9) / 10^4`: the normalized longitude of the
/// LV03 approximation formulas, scaled by `10^9`.
pub open spec fn lv03_lambda(lon: int) -> int {
    (lon * 3600 - 26_782_500_000_000) / 10_000
}

/// `(lat * 3600 - 169028.66 * 10^9) / 10^4`: the normalized latitude of the
/// LV03 approximation formulas, scaled by `10^9`.
pub open spec fn lv03_phi(lat: int) -> int {
    (lat * 3600 - 169_028_660_000_000) / 10_000
}

/// The LV03 easting, offset from the 2,000,000 origin, in units of `10^-9`
/// of a metre: the fixed polynomial
/// `2600072.37 + 211455.93 λ - 10938.51 λφ - 0.36 λφ² - 44.54 λ³ - 2000000`
/// evaluated in scaled integer arithmetic.
pub open spec fn lv03_easting(lon: int, lat: int) -> int {
    let lam = lv03_lambda(lon);
    let phi = lv03_phi(lat);
    let lam2 = lam * lam / 1_000_000_000;
    let lam3 = lam2 * lam / 1_000_000_000;
    let lamphi = lam * phi / 1_000_000_000;
    let lamphi2 = lamphi * phi / 1_000_000_000;
    2_600_072_370_000_000 + 21_145_593 * lam / 100 - 1_093_851 * lamphi / 100 - 36 * lamphi2 / 100
        - 4_454 * lam3 / 100 - 2_000_000_000_000_000
}

/// The LV03 northing, offset from the 1,000,000 origin, in units of `10^-9`
/// of a metre: the fixed polynomial
/// `1200147.07 + 308807.95 φ + 3745.25 λ² + 76.63 φ² - 194.56 λ²φ + 119.79 φ³ - 1000000`
/// evaluated in scaled integer arithmetic.
pub open spec fn lv03_northing(lon: int, lat: int) -> int {
    let lam = lv03_lambda(lon);
    let phi = lv03_phi(lat);
    let lam2 = lam * lam / 1_000_000_000;
    let phi2 = phi * phi / 1_000_000_000;
    let phi3 = phi2 * phi / 1_000_000_000;
    let lam2phi = lam2 * phi / 1_000_000_000;
    1_200_147_070_000_000 + 30_880_795 * phi / 100 + 374_525 * lam2 / 100 + 7_663 * phi2 / 100
        - 19_456 * lam2phi / 100 + 11_979 * phi3 / 100 - 1_000_000_000_000_000
}

/// Approximately transform a point from WGS84 (degrees) to the LV03 planar
/// grid (metres), both in fixed-point units of `10^-9`.  The polynomial
/// approximation is documented as accurate to roughly a metre and a half
/// inside Switzerland; it produces a value, meaningful or not, for any input
/// within [`TRANSFORM_BOUND`].
pub fn wgs84_to_lv03(p: &Point) -> (r: Point)
    requires
        -TRANSFORM_BOUND <= p.x <= TRANSFORM_BOUND,
        -TRANSFORM_BOUND <= p.y <= TRANSFORM_BOUND,
    ensures
        r.x == lv03_easting(p.x as int, p.y as int),
        r.y == lv03_northing(p.x as int, p.y as int),
        -500_000_000_000_000_000 <= r.x <= 500_000_000_000_000_000,
        -500_000_000_000_000_000 <= r.y <= 500_000_000_000_000_000,
{
    let lon = p.x as i128;
    let lat = p.y as i128;
    let lam = ediv(lon * 3600 - 26_782_500_000_000, 10_000);
    proof {
        lemma_ediv_bounds(lon * 3600 - 26_782_500_000_000, 10_000, 800_000_000_000_000);
    }
    let phi = ediv(lat * 3600 - 169_028_660_000_000, 10_000);
    proof {
        lemma_ediv_bounds(lat * 3600 - 169_028_660_000_000, 10_000, 900_000_000_000_000);
        assert(-80_000_000_001 <= lam <= 80_000_000_000);
        assert(-90_000_000_001 <= phi <= 90_000_000_000);
        lemma_mul_bounds(lam as int, lam as int, 80_000_000_001, 80_000_000_001);
        lemma_mul_bounds(lam as int, phi as int, 80_000_000_001, 90_000_000_001);
    }
    let lam2 = ediv(lam * lam, 1_000_000_000);
    let lamphi = ediv(lam * phi, 1_000_000_000);
    proof {
        lemma_ediv_bounds(lam * lam, 1_000_000_000, 80_000_000_001int * 80_000_000_001);
        lemma_ediv_bounds(lam * phi, 1_000_000_000, 80_000_000_001int * 90_000_000_001);
        assert(-7_000_000_000_001 <= lam2 <= 7_000_000_000_000);
        assert(-8_000_000_000_001 <= lamphi <= 8_000_000_000_000);
        lemma_mul_bounds(lam2 as int, lam as int, 7_000_000_000_001, 80_000_000_001);
        lemma_mul_bounds(lamphi as int, phi as int, 8_000_000_000_001, 90_000_000_001);
        lemma_mul_bounds(lam2 as int, phi as int, 7_000_000_000_001, 90_000_000_001);
        lemma_mul_bounds(phi as int, phi as int, 90_000_000_001, 90_000_000_001);
    }
    let lam3 = ediv(lam2 * lam, 1_000_000_000);
    let lamphi2 = ediv(lamphi * phi, 1_000_000_000);
    let lam2phi = ediv(lam2 * phi, 1_000_000_000);
    let phi2 = ediv(phi * phi, 1_000_000_000);
    proof {
        lemma_ediv_bounds(lam2 * lam, 1_000_000_000, 7_000_000_000_001int * 80_000_000_001);
        lemma_ediv_bounds(lamphi * phi, 1_000_000_000, 8_000_000_000_001int * 90_000_000_001);
        lemma_ediv_bounds(lam2 * phi, 1_000_000_000, 7_000_000_000_001int * 90_000_000_001);
        lemma_ediv_bounds(phi * phi, 1_000_000_000, 90_000_000_001int * 90_000_000_001);
        assert(-600_000_000_000_001 <= lam3 <= 600_000_000_000_000);
        assert(-800_000_000_000_001 <= lamphi2 <= 800_000_000_000_000);
        assert(-700_000_000_000_001 <= lam2phi <= 700_000_000_000_000);
        assert(-9_000_000_000_001 <= phi2 <= 9_000_000_000_000);
        lemma_mul_bounds(phi2 as int, phi as int, 9_000_000_000_001, 90_000_000_001);
    }
    let phi3 = ediv(phi2 * phi, 1_000_000_000);
    proof {
        lemma_ediv_bounds(phi2 * phi, 1_000_000_000, 9_000_000_000_001int * 90_000_000_001);
        assert(-900_000_000_000_001 <= phi3 <= 900_000_000_000_000);
    }
    let te1 = ediv(21_145_593 * lam, 100);
    let te2 = ediv(1_093_851 * lamphi, 100);
    let te3 = ediv(36 * lamphi2, 100);
    let te4 = ediv(4_454 * lam3, 100);
    proof {
        lemma_mul_bounds(21_145_593, lam as int, 21_145_593, 80_000_000_001);
        lemma_mul_bounds(1_093_851, lamphi as int, 1_093_851, 8_000_000_000_001);
        lemma_mul_bounds(36, lamphi2 as int, 36, 800_000_000_000_001);
        lemma_mul_bounds(4_454, lam3 as int, 4_454, 600_000_000_000_001);
        lemma_ediv_bounds(21_145_593 * lam, 100, 21_145_593int * 80_000_000_001);
        lemma_ediv_bounds(1_093_851 * lamphi, 100, 1_093_851int * 8_000_000_000_001);
        lemma_ediv_bounds(36 * lamphi2, 100, 36int * 800_000_000_000_001);
        lemma_ediv_bounds(4_454 * lam3, 100, 4_454int * 600_000_000_000_001);
    }
    let easting = 2_600_072_370_000_000 + te1 - te2 - te3 - te4 - 2_000_000_000_000_000;
    let tn1 = ediv(30_880_795 * phi, 100);
    let tn2 = ediv(374_525 * lam2, 100);
    let tn3 = ediv(7_663 * phi2, 100);
    let tn4 = ediv(19_456 * lam2phi, 100);
    let tn5 = ediv(11_979 * phi3, 100);
    proof {
        lemma_mul_bounds(30_880_795, phi as int, 30_880_795, 90_000_000_001);
        lemma_mul_bounds(374_525, lam2 as int, 374_525, 7_000_000_000_001);
        lemma_mul_bounds(7_663, phi2 as int, 7_663, 9_000_000_000_001);
        lemma_mul_bounds(19_456, lam2phi as int, 19_456, 700_000_000_000_001);
        lemma_mul_bounds(11_979, phi3 as int, 11_979, 900_000_000_000_001);
        lemma_ediv_bounds(30_880_795 * phi, 100, 30_880_795int * 90_000_000_001);
        lemma_ediv_bounds(374_525 * lam2, 100, 374_525int * 7_000_000_000_001);
        lemma_ediv_bounds(7_663 * phi2, 100, 7_663int * 9_000_000_000_001);
        lemma_ediv_bounds(19_456 * lam2phi, 100, 19_456int * 700_000_000_000_001);
        lemma_ediv_bounds(11_979 * phi3, 100, 11_979int * 900_000_000_000_001);
    }
    let northing = 1_200_147_070_000_000 + tn1 + tn2 + tn3 - tn4 + tn5 - 1_000_000_000_000_000;
    proof {
        assert(easting == lv03_easting(p.x as int, p.y as int));
        assert(northing == lv03_northing(p.x as int, p.y as int));
        assert(-500_000_000_000_000_000 <= easting <= 500_000_000_000_000_000);
        assert(-500_000_000_000_000_000 <= northing <= 500_000_000_000_000_000);
    }
    Point { x: easting as i64, y: northing as i64 }
}

/// A parameter builder for a detailed forward lookup.
pub struct GeoAdminParams<'a> {
    pub searchtext: &'a str,
    pub origins: &'a str,
    pub bbox: Option<&'a InputBounds>,
    pub limit: Option<u8>,
}

impl<'a> GeoAdminParams<'a> {
    /// Start from the search text alone: every origin, a limit of fifty, no
    /// bounding box.
    pub fn new(searchtext: &'a str) -> (r: GeoAdminParams<'a>)
        ensures
            r.searchtext == searchtext,
            r.origins@ == "zipcode,gg25,district,kantone,gazetteer,address,parcel"@,
            r.bbox is None,
            r.limit == Some(50u8),
    {
        GeoAdminParams {
            searchtext,
            origins: "zipcode,gg25,district,kantone,gazetteer,address,parcel",
            bbox: None,
            limit: Some(50),
        }
    }

    /// Set the `origins` property.
    pub fn with_origins(self, origins: &'a str) -> (r: GeoAdminParams<'a>)
        ensures
            r.searchtext == self.searchtext,
            r.origins == origins,
            r.bbox == self.bbox,
            r.limit == self.limit,
    {
        GeoAdminParams { origins, ..self }
    }

    /// Set the `bbox` property.
    pub fn with_bbox(self, bbox: &'a InputBounds) -> (r: GeoAdminParams<'a>)
        ensures
            r.searchtext == self.searchtext,
            r.origins == self.origins,
            r.bbox == Some(bbox),
            r.limit == self.limit,
    {
        GeoAdminParams { bbox: Some(bbox), ..self }
    }

    /// Set the `limit` property.
    pub fn with_limit(self, limit: u8) -> (r: GeoAdminParams<'a>)
        ensures
            r.searchtext == self.searchtext,
            r.origins == self.origins,
            r.bbox == self.bbox,
            r.limit == Some(limit),
    {
        GeoAdminParams { limit: Some(limit), ..self }
    }

    /// Hand the finished parameters back.
    pub fn build(self) -> (r: GeoAdminParams<'a>)
        ensures
            r.searchtext == self.searchtext,
            r.origins == self.origins,
            r.bbox == self.bbox,
            r.limit == self.limit,
    {
        GeoAdminParams { ..self }
    }
}

/// The top-level GeoJSON feature collection of a forward-geocoding request.
#[derive(Debug)]
pub struct GeoAdminForwardResponse {
    pub features: Vec<GeoAdminForwardLocation>,
}

/// One forward-geocoding location.
#[derive(Debug)]
pub struct GeoAdminForwardLocation {
    pub id: Option<u64>,
    pub properties: ForwardLocationProperties,
}

/// The attributes of a forward-geocoding location.  `lat`, `lon`, `x` and
/// `y` are fixed-point in units of `10^-9`; `x` runs north-south and `y`
/// west-east when the active spatial reference is a Swiss grid.
#[derive(Clone, Debug)]
pub struct ForwardLocationProperties {
    pub origin: String,
    pub geom_quadindex: String,
    pub weight: u32,
    pub rank: u32,
    pub detail: String,
    pub lat: i64,
    pub lon: i64,
    pub num: Option<u64>,
    pub x: i64,
    pub y: i64,
    pub label: String,
    pub zoomlevel: u32,
}

/// The top-level response of a reverse-geocoding (identify) request.
#[derive(Debug)]
pub struct GeoAdminReverseResponse {
    pub results: Vec<GeoAdminReverseLocation>,
}

/// One reverse-geocoding result.
#[derive(Debug)]
pub struct GeoAdminReverseLocation {
    pub id: String,
    pub feature_id: String,
    pub layer_bod_id: String,
    pub layer_name: String,
    pub properties: ReverseLocationAttributes,
}

/// The attributes of a reverse-geocoding result.
#[derive(Clone, Debug)]
pub struct ReverseLocationAttributes {
    pub egid: Option<String>,
    pub ggdenr: u32,
    pub ggdename: String,
    pub gdekt: String,
    pub edid: Option<String>,
    pub egaid: u32,
    pub deinr: Option<String>,
    pub dplz4: u32,
    pub dplzname: String,
    pub egrid: Option<String>,
    pub esid: u32,
    pub strname: Vec<String>,
    pub strsp: Vec<String>,
    pub strname_deinr: String,
    pub label: String,
}

/// The number field of `m` under `k` as a `u32`, when it fits.
pub open spec fn jfield_u32(m: JsonVal, k: Seq<char>) -> Option<u32> {
    match jfield_u64(m, k) {
        Some(n) => {
            if n <= u32::MAX {
                Some(n as u32)
            } else {
                None
            }
        },
        None => None,
    }
}

fn get_u32(v: &serde_json::Value, key: &str) -> (r: Option<u32>)
    ensures
        r == jfield_u32(json_model(*v), key@),
{
    match get_u64(v, key) {
        Some(n) => {
            if n <= u32::MAX as u64 {
                Some(n as u32)
            } else {
                None
            }
        },
        None => None,
    }
}

/// Whether the document `m` carries every required location attribute with
/// the right type, and a well-typed `num` when one is there.
pub open spec fn fwd_properties_shape_ok(m: JsonVal) -> bool {
    &&& jfield_str(m, "origin"@) is Some
    &&& jfield_str(m, "geom_quadindex"@) is Some
    &&& jfield_u32(m, "weight"@) is Some
    &&& jfield_u32(m, "rank"@) is Some
    &&& jfield_str(m, "detail"@) is Some
    &&& jfield_coord(m, "lat"@) is Some
    &&& jfield_coord(m, "lon"@) is Some
    &&& match jfield(m, "num"@) {
        Some(_) => jfield_u64(m, "num"@) is Some,
        None => true,
    }
    &&& jfield_coord(m, "x"@) is Some
    &&& jfield_coord(m, "y"@) is Some
    &&& jfield_str(m, "label"@) is Some
    &&& jfield_u32(m, "zoomlevel"@) is Some
}

/// Whether the decoded location attributes read the document `m`.
pub open spec fn fwd_properties_matches(p: ForwardLocationProperties, m: JsonVal) -> bool {
    &&& fwd_properties_shape_ok(m)
    &&& jfield_str(m, "origin"@) == Some(p.origin@)
    &&& jfield_str(m, "geom_quadindex"@) == Some(p.geom_quadindex@)
    &&& jfield_u32(m, "weight"@) == Some(p.weight)
    &&& jfield_u32(m, "rank"@) == Some(p.rank)
    &&& jfield_str(m, "detail"@) == Some(p.detail@)
    &&& jfield_coord(m, "lat"@) == Some(p.lat)
    &&& jfield_coord(m, "lon"@) == Some(p.lon)
    &&& jfield_u64(m, "num"@) == p.num
    &&& jfield_coord(m, "x"@) == Some(p.x)
    &&& jfield_coord(m, "y"@) == Some(p.y)
    &&& jfield_str(m, "label"@) == Some(p.label@)
    &&& jfield_u32(m, "zoomlevel"@) == Some(p.zoomlevel)
}

fn decode_forward_properties(v: &serde_json::Value) -> (r: Option<ForwardLocationProperties>)
    ensures
        match r {
            Some(p) => fwd_properties_matches(p, json_model(*v)),
            None => !fwd_properties_shape_ok(json_model(*v)),
        },
{
    let origin = match get_string(v, "origin") {
        Some(x) => x,
        None => {
            return None;
        },
    };
    let geom_quadindex = match get_string(v, "geom_quadindex") {
        Some(x) => x,
        None => {
            return None;
        },
    };
    let weight = match get_u32(v, "weight") {
        Some(x) => x,
        None => {
            return None;
        },
    };
    let rank = match get_u32(v, "rank") {
        Some(x) => x,
        None => {
            return None;
        },
    };
    let detail = match get_string(v, "detail") {
        Some(x) => x,
        None => {
            return None;
        },
    };
    let lat = match get_coord(v, "lat") {
        Some(x) => x,
        None => {
            return None;
        },
    };
    let lon = match get_coord(v, "lon") {
        Some(x) => x,
        None => {
            return None;
        },
    };
    let num = match crate::json::json_get(v, "num") {
        Some(n) => match crate::json::json_u64(n) {
            Some(n) => Some(n),
            None => {
                return None;
            },
        },
        None => None,
    };
    let x = match get_coord(v, "x") {
        Some(x) => x,
        None => {
            return None;
        },
    };
    let y = match get_coord(v, "y") {
        Some(x) => x,
        None => {
            return None;
        },
    };
    let label = match get_string(v, "label") {
        Some(x) => x,
        None => {
            return None;
        },
    };
    let zoomlevel = match get_u32(v, "zoomlevel") {
        Some(x) => x,
        None => {
            return None;
        },
    };
    Some(
        ForwardLocationProperties {
            origin,
            geom_quadindex,
            weight,
            rank,
            detail,
            lat,
            lon,
            num,
            x,
            y,
            label,
            zoomlevel,
        },
    )
}

/// Whether the document `m` is a forward-geocoding feature: well-shaped
/// attributes under `properties`, and a well-typed `id` when one is there.
pub open spec fn fwd_feature_shape_ok(m: JsonVal) -> bool {
    &&& match jfield(m, "id"@) {
        Some(_) => jfield_u64(m, "id"@) is Some,
        None => true,
    }
    &&& match jfield(m, "properties"@) {
        Some(pm) => fwd_properties_shape_ok(pm),
        None => false,
    }
}

/// Whether the decoded feature reads the document `m`.
pub open spec fn fwd_feature_matches(f: GeoAdminForwardLocation, m: JsonVal) -> bool {
    &&& fwd_feature_shape_ok(m)
    &&& f.id == jfield_u64(m, "id"@)
    &&& match jfield(m, "properties"@) {
        Some(pm) => fwd_properties_matches(f.properties, pm),
        None => false,
    }
}

fn decode_forward_feature(v: &serde_json::Value) -> (r: Option<GeoAdminForwardLocation>)
    ensures
        match r {
            Some(f) => fwd_feature_matches(f, json_model(*v)),
            None => !fwd_feature_shape_ok(json_model(*v)),
        },
{
    let id = match crate::json::json_get(v, "id") {
        Some(n) => match crate::json::json_u64(n) {
            Some(n) => Some(n),
            None => {
                return None;
            },
        },
        None => None,
    };
    let properties = match crate::json::json_get(v, "properties") {
        Some(p) => match decode_forward_properties(p) {
            Some(p) => p,
            None => {
                return None;
            },
        },
        None => {
            return None;
        },
    };
    Some(GeoAdminForwardLocation { id, properties })
}

/// Whether the document `m` is a whole search response: an array of
/// well-shaped features.
pub open spec fn fwd_response_shape_ok(m: JsonVal) -> bool {
    match jfield(m, "features"@) {
        Some(fm) => fm matches JsonVal::Arr(a) && forall|i: int|
            0 <= i < a.len() ==> fwd_feature_shape_ok(#[trigger] a[i]),
        None => false,
    }
}

/// Whether the decoded search response reads the document `m`, feature by
/// feature and in order.
pub open spec fn fwd_response_matches(resp: GeoAdminForwardResponse, m: JsonVal) -> bool {
    &&& fwd_response_shape_ok(m)
    &&& match jfield(m, "features"@) {
        Some(fm) => fm matches JsonVal::Arr(a) && resp.features@.len() == a.len() && forall|i: int|
            0 <= i < a.len() ==> fwd_feature_matches(#[trigger] resp.features@[i], a[i]),
        None => false,
    }
}

/// The feature array of a well-shaped search response document.
pub open spec fn forward_features(doc: JsonVal) -> Seq<JsonVal> {
    jfield(doc, "features"@)->Some_0->Arr_0
}

/// Decode a response body of the search endpoint.  The body decodes
/// exactly when it is JSON whose document is a well-shaped search response;
/// what comes back reads that document.  Anything else is the decode error
/// kind: a malformed body or a missing or mistyped required field.
pub fn parse_forward_response(body: &str) -> (r: Result<GeoAdminForwardResponse, GeocodingError>)
    ensures
        match r {
            Ok(resp) => json_of(body@) matches Some(doc) && fwd_response_matches(resp, doc),
            Err(e) => e is Decode && (match json_of(body@) {
                Some(doc) => !fwd_response_shape_ok(doc),
                None => true,
            }),
        },
{
    let root = match json_parse(body) {
        Ok(v) => v,
        Err(msg) => {
            return Err(GeocodingError::Decode(msg));
        },
    };
    let ghost doc = json_model(*&root);
    let fs = match crate::json::json_get(&root, "features") {
        Some(f) => f,
        None => {
            return Err(GeocodingError::Decode(String::from_str("features")));
        },
    };
    let ghost fm = json_model(*fs);
    let len = match crate::json::json_array_len(fs) {
        Some(l) => l,
        None => {
            return Err(GeocodingError::Decode(String::from_str("features")));
        },
    };
    let ghost fa = fm->Arr_0;
    proof {
        assert(fm matches JsonVal::Arr(aa) && len == aa.len());
        assert(jfield(doc, "features"@) == Some(fm));
    }
    let mut features: Vec<GeoAdminForwardLocation> = Vec::new();
    let mut i: usize = 0;
    while i < len
        invariant
            json_of(body@) == Some(doc),
            jfield(doc, "features"@) == Some(fm),
            fm == json_model(*fs),
            fm matches JsonVal::Arr(aa) && aa == fa,
            len == fa.len(),
            0 <= i <= len,
            features@.len() == i,
            forall|j: int| 0 <= j < i ==> fwd_feature_matches(#[trigger] features@[j], fa[j]),
        decreases len - i,
    {
        let fv = match crate::json::json_array_get(fs, i) {
            Some(f) => f,
            None => {
                proof {
                    assert(false);
                }
                return Err(GeocodingError::Decode(String::from_str("features")));
            },
        };
        let feature = match decode_forward_feature(fv) {
            Some(f) => f,
            None => {
                proof {
                    assert(!fwd_response_shape_ok(doc)) by {
                        if fwd_response_shape_ok(doc) {
                            assert(fwd_feature_shape_ok(fa[i as int]));
                        }
                    };
                }
                return Err(GeocodingError::Decode(String::from_str("features")));
            },
        };
        features.push(feature);
        i = i + 1;
    }
    let resp = GeoAdminForwardResponse { features };
    proof {
        assert forall|j: int| 0 <= j < fa.len() implies fwd_feature_shape_ok(
            #[trigger] fa[j],
        ) by {
            assert(fwd_feature_matches(resp.features@[j], fa[j]));
        };
        assert(fwd_response_matches(resp, doc));
    }
    Ok(resp)
}

/// Whether the document `m` carries every required reverse attribute with
/// the right type.
pub open spec fn rev_attributes_shape_ok(m: JsonVal) -> bool {
    &&& jfield_u32(m, "ggdenr"@) is Some
    &&& jfield_str(m, "ggdename"@) is Some
    &&& jfield_str(m, "gdekt"@) is Some
    &&& jfield_u32(m, "egaid"@) is Some
    &&& jfield_u32(m, "dplz4"@) is Some
    &&& jfield_str(m, "dplzname"@) is Some
    &&& jfield_u32(m, "esid"@) is Some
    &&& match jfield(m, "strname"@) {
        Some(sm) => str_items_ok(sm),
        None => false,
    }
    &&& match jfield(m, "strsp"@) {
        Some(sm) => str_items_ok(sm),
        None => false,
    }
    &&& jfield_str(m, "strname_deinr"@) is Some
    &&& jfield_str(m, "label"@) is Some
}

/// Whether the decoded reverse attributes read the document `m`.
pub open spec fn rev_attributes_matches(a: ReverseLocationAttributes, m: JsonVal) -> bool {
    &&& rev_attributes_shape_ok(m)
    &&& opt_str_matches(a.egid, jfield_str(m, "egid"@))
    &&& jfield_u32(m, "ggdenr"@) == Some(a.ggdenr)
    &&& jfield_str(m, "ggdename"@) == Some(a.ggdename@)
    &&& jfield_str(m, "gdekt"@) == Some(a.gdekt@)
    &&& opt_str_matches(a.edid, jfield_str(m, "edid"@))
    &&& jfield_u32(m, "egaid"@) == Some(a.egaid)
    &&& opt_str_matches(a.deinr, jfield_str(m, "deinr"@))
    &&& jfield_u32(m, "dplz4"@) == Some(a.dplz4)
    &&& jfield_str(m, "dplzname"@) == Some(a.dplzname@)
    &&& opt_str_matches(a.egrid, jfield_str(m, "egrid"@))
    &&& jfield_u32(m, "esid"@) == Some(a.esid)
    &&& match jfield(m, "strname"@) {
        Some(sm) => str_items_match(a.strname@, sm),
        None => false,
    }
    &&& match jfield(m, "strsp"@) {
        Some(sm) => str_items_match(a.strsp@, sm),
        None => false,
    }
    &&& jfield_str(m, "strname_deinr"@) == Some(a.strname_deinr@)
    &&& jfield_str(m, "label"@) == Some(a.label@)
}

fn decode_reverse_attributes(v: &serde_json::Value) -> (r: Option<ReverseLocationAttributes>)
    ensures
        match r {
            Some(a) => rev_attributes_matches(a, json_model(*v)),
            None => !rev_attributes_shape_ok(json_model(*v)),
        },
{
    let egid = get_string(v, "egid");
    let ggdenr = match get_u32(v, "ggdenr") {
        Some(x) => x,
        None => {
            return None;
        },
    };
    let ggdename = match get_string(v, "ggdename") {
        Some(x) => x,
        None => {
            return None;
        },
    };
    let gdekt = match get_string(v, "gdekt") {
        Some(x) => x,
        None => {
            return None;
        },
    };
    let edid = get_string(v, "edid");
    let egaid = match get_u32(v, "egaid") {
        Some(x) => x,
        None => {
            return None;
        },
    };
    let deinr = get_string(v, "deinr");
    let dplz4 = match get_u32(v, "dplz4") {
        Some(x) => x,
        None => {
            return None;
        },
    };
    let dplzname = match get_string(v, "dplzname") {
        Some(x) => x,
        None => {
            return None;
        },
    };
    let egrid = get_string(v, "egrid");
    let esid = match get_u32(v, "esid") {
        Some(x) => x,
        None => {
            return None;
        },
    };
    let strname = match crate::json::json_get(v, "strname") {
        Some(s) => match string_items(s) {
            Some(l) => l,
            None => {
                return None;
            },
        },
        None => {
            return None;
        },
    };
    let strsp = match crate::json::json_get(v, "strsp") {
        Some(s) => match string_items(s) {
            Some(l) => l,
            None => {
                return None;
            },
        },
        None => {
            return None;
        },
    };
    let strname_deinr = match get_string(v, "strname_deinr") {
        Some(x) => x,
        None => {
            return None;
        },
    };
    let label = match get_string(v, "label") {
        Some(x) => x,
        None => {
            return None;
        },
    };
    Some(
        ReverseLocationAttributes {
            egid,
            ggdenr,
            ggdename,
            gdekt,
            edid,
            egaid,
            deinr,
            dplz4,
            dplzname,
            egrid,
            esid,
            strname,
            strsp,
            strname_deinr,
            label,
        },
    )
}

/// Whether the document `m` is a reverse-geocoding result: the four
/// identifying strings and well-shaped attributes under `properties`.
pub open spec fn rev_location_shape_ok(m: JsonVal) -> bool {
    &&& jfield_str(m, "id"@) is Some
    &&& jfield_str(m, "featureId"@) is Some
    &&& jfield_str(m, "layerBodId"@) is Some
    &&& jfield_str(m, "layerName"@) is Some
    &&& match jfield(m, "properties"@) {
        Some(am) => rev_attributes_shape_ok(am),
        None => false,
    }
}

/// Whether the decoded reverse result reads the document `m`.
pub open spec fn rev_location_matches(l: GeoAdminReverseLocation, m: JsonVal) -> bool {
    &&& rev_location_shape_ok(m)
    &&& jfield_str(m, "id"@) == Some(l.id@)
    &&& jfield_str(m, "featureId"@) == Some(l.feature_id@)
    &&& jfield_str(m, "layerBodId"@) == Some(l.layer_bod_id@)
    &&& jfield_str(m, "layerName"@) == Some(l.layer_name@)
    &&& match jfield(m, "properties"@) {
        Some(am) => rev_attributes_matches(l.properties, am),
        None => false,
    }
}

fn decode_reverse_location(v: &serde_json::Value) -> (r: Option<GeoAdminReverseLocation>)
    ensures
        match r {
            Some(l) => rev_location_matches(l, json_model(*v)),
            None => !rev_location_shape_ok(json_model(*v)),
        },
{
    let id = match get_string(v, "id") {
        Some(x) => x,
        None => {
            return None;
        },
    };
    let feature_id = match get_string(v, "featureId") {
        Some(x) => x,
        None => {
            return None;
        },
    };
    let layer_bod_id = match get_string(v, "layerBodId") {
        Some(x) => x,
        None => {
            return None;
        },
    };
    let layer_name = match get_string(v, "layerName") {
        Some(x) => x,
        None => {
            return None;
        },
    };
    let properties = match crate::json::json_get(v, "properties") {
        Some(p) => match decode_reverse_attributes(p) {
            Some(p) => p,
            None => {
                return None;
            },
        },
        None => {
            return None;
        },
    };
    Some(GeoAdminReverseLocation { id, feature_id, layer_bod_id, layer_name, properties })
}

/// Decode a response body of the identify endpoint.  Fails with the decode
/// error kind alone: a malformed body or a missing or mistyped required
/// field.
/// Whether the document `m` is a whole identify response: an array of
/// well-shaped results.
pub open spec fn rev_response_shape_ok(m: JsonVal) -> bool {
    match jfield(m, "results"@) {
        Some(rm) => rm matches JsonVal::Arr(a) && forall|i: int|
            0 <= i < a.len() ==> rev_location_shape_ok(#[trigger] a[i]),
        None => false,
    }
}

/// Whether the decoded identify response reads the document `m`, result by
/// result and in order.
pub open spec fn rev_response_matches(resp: GeoAdminReverseResponse, m: JsonVal) -> bool {
    &&& rev_response_shape_ok(m)
    &&& match jfield(m, "results"@) {
        Some(rm) => rm matches JsonVal::Arr(a) && resp.results@.len() == a.len() && forall|i: int|
            0 <= i < a.len() ==> rev_location_matches(#[trigger] resp.results@[i], a[i]),
        None => false,
    }
}

/// The result array of a well-shaped identify response document.
pub open spec fn reverse_results(doc: JsonVal) -> Seq<JsonVal> {
    jfield(doc, "results"@)->Some_0->Arr_0
}

/// Decode a response body of the identify endpoint.  The body decodes
/// exactly when it is JSON whose document is a well-shaped identify
/// response; what comes back reads that document.  Anything else is the
/// decode error kind: a malformed body or a missing or mistyped required
/// field.
pub fn parse_reverse_response(body: &str) -> (r: Result<GeoAdminReverseResponse, GeocodingError>)
    ensures
        match r {
            Ok(resp) => json_of(body@) matches Some(doc) && rev_response_matches(resp, doc),
            Err(e) => e is Decode && (match json_of(body@) {
                Some(doc) => !rev_response_shape_ok(doc),
                None => true,
            }),
        },
{
    let root = match json_parse(body) {
        Ok(v) => v,
        Err(msg) => {
            return Err(GeocodingError::Decode(msg));
        },
    };
    let ghost doc = json_model(*&root);
    let rs = match crate::json::json_get(&root, "results") {
        Some(r) => r,
        None => {
            return Err(GeocodingError::Decode(String::from_str("results")));
        },
    };
    let ghost rm = json_model(*rs);
    let len = match crate::json::json_array_len(rs) {
        Some(l) => l,
        None => {
            return Err(GeocodingError::Decode(String::from_str("results")));
        },
    };
    let ghost ra = rm->Arr_0;
    proof {
        assert(rm matches JsonVal::Arr(aa) && len == aa.len());
        assert(jfield(doc, "results"@) == Some(rm));
    }
    let mut results: Vec<GeoAdminReverseLocation> = Vec::new();
    let mut i: usize = 0;
    while i < len
        invariant
            json_of(body@) == Some(doc),
            jfield(doc, "results"@) == Some(rm),
            rm == json_model(*rs),
            rm matches JsonVal::Arr(aa) && aa == ra,
            len == ra.len(),
            0 <= i <= len,
            results@.len() == i,
            forall|j: int| 0 <= j < i ==> rev_location_matches(#[trigger] results@[j], ra[j]),
        decreases len - i,
    {
        let rv = match crate::json::json_array_get(rs, i) {
            Some(r) => r,
            None => {
                proof {
                    assert(false);
                }
                return Err(GeocodingError::Decode(String::from_str("results")));
            },
        };
        let result = match decode_reverse_location(rv) {
            Some(r) => r,
            None => {
                proof {
                    assert(!rev_response_shape_ok(doc)) by {
                        if rev_response_shape_ok(doc) {
                            assert(rev_location_shape_ok(ra[i as int]));
                        }
                    };
                }
                return Err(GeocodingError::Decode(String::from_str("results")));
            },
        };
        results.push(result);
        i = i + 1;
    }
    let resp = GeoAdminReverseResponse { results };
    proof {
        assert forall|j: int| 0 <= j < ra.len() implies rev_location_shape_ok(
            #[trigger] ra[j],
        ) by {
            assert(rev_location_matches(resp.results@[j], ra[j]));
        };
        assert(rev_response_matches(resp, doc));
    }
    Ok(resp)
}

/// The four spatial-reference codes the service supports: the legacy and
/// current Swiss grids, WGS84, and Web Pseudo-Mercator.
pub open spec fn sr_valid(sr: Seq<char>) -> bool {
    ||| sr == "21781"@
    ||| sr == "2056"@
    ||| sr == "4326"@
    ||| sr == "3857"@
}

/// Whether a spatial-reference code names a Swiss planar grid, in which the
/// search responses put the easting in `y` and the northing in `x`.
pub open spec fn sr_is_grid(sr: Seq<char>) -> bool {
    ||| sr == "21781"@
    ||| sr == "2056"@
}

/// An instance of the Swiss federal geocoding service, held as its endpoint
/// and active spatial-reference code; the HTTP round trip is the caller's.
#[derive(Clone, Debug)]
pub struct GeoAdmin {
    pub endpoint: String,
    pub sr: String,
}

impl GeoAdmin {
    /// A service instance over the default endpoint, in WGS84.
    pub fn new() -> (r: GeoAdmin)
        ensures
            r.endpoint@ == "https://api3.geo.admin.ch/rest/services/api/"@,
            r.sr@ == "4326"@,
            sr_valid(r.sr@),
    {
        GeoAdmin {
            endpoint: String::from_str("https://api3.geo.admin.ch/rest/services/api/"),
            sr: String::from_str("4326"),
        }
    }

    /// Replace the endpoint, which should end in a slash.
    pub fn with_endpoint(self, endpoint: &str) -> (r: GeoAdmin)
        ensures
            r.endpoint@ == endpoint@,
            r.sr == self.sr,
    {
        GeoAdmin { endpoint: String::from_str(endpoint), ..self }
    }

    /// Replace the spatial-reference code with one of the four supported
    /// values: 21781 (LV03), 2056 (LV95), 4326 (WGS84) or 3857 (Web
    /// Pseudo-Mercator).
    pub fn with_sr(self, sr: &str) -> (r: GeoAdmin)
        requires
            sr_valid(sr@),
        ensures
            r.endpoint == self.endpoint,
            r.sr@ == sr@,
            sr_valid(r.sr@),
    {
        GeoAdmin { sr: String::from_str(sr), ..self }
    }

    /// The URL of the forward-geocoding (search) endpoint.
    pub fn forward_url(&self) -> (r: String)
        ensures
            r@ == self.endpoint@ + "SearchServer"@,
    {
        self.endpoint.clone().concat("SearchServer")
    }

    /// The URL of the reverse-geocoding (identify) endpoint.
    pub fn reverse_url(&self) -> (r: String)
        ensures
            r@ == self.endpoint@ + "MapServer/identify"@,
    {
        self.endpoint.clone().concat("MapServer/identify")
    }

    /// The query pairs of a plain forward lookup: the search text, the
    /// location type, addresses only, a single result, the active spatial
    /// reference, and the GeoJSON format.
    pub fn forward_query(&self, place: &str) -> (q: Vec<(String, String)>)
        ensures
            q@.len() == 6,
            q@[0].0@ == "searchText"@ && q@[0].1@ == place@,
            q@[1].0@ == "type"@ && q@[1].1@ == "locations"@,
            q@[2].0@ == "origins"@ && q@[2].1@ == "address"@,
            q@[3].0@ == "limit"@ && q@[3].1@ == "1"@,
            q@[4].0@ == "sr"@ && q@[4].1@ == self.sr@,
            q@[5].0@ == "geometryFormat"@ && q@[5].1@ == "geojson"@,
    {
        let mut q: Vec<(String, String)> = Vec::new();
        q.push((String::from_str("searchText"), String::from_str(place)));
        q.push((String::from_str("type"), String::from_str("locations")));
        q.push((String::from_str("origins"), String::from_str("address")));
        q.push((String::from_str("limit"), String::from_str("1")));
        q.push((String::from_str("sr"), self.sr.clone()));
        q.push((String::from_str("geometryFormat"), String::from_str("geojson")));
        q
    }

    /// The query pairs of a reverse lookup: the point as `"{lon},{lat}"`
    /// (the order this endpoint expects for its geometry parameter), the
    /// fixed identify-request plumbing, the active spatial reference, and
    /// the GeoJSON format.
    pub fn reverse_query(&self, point: &Point) -> (q: Vec<(String, String)>)
        requires
            point.x != i64::MIN,
            point.y != i64::MIN,
        ensures
            q@.len() == 9,
            q@[0].0@ == "geometry"@ && q@[0].1@ == spec_format_fixed(point.x as int) + ","@
                + spec_format_fixed(point.y as int),
            q@[1].0@ == "geometryType"@ && q@[1].1@ == "esriGeometryPoint"@,
            q@[2].0@ == "layers"@ && q@[2].1@ == "all:ch.bfs.gebaeude_wohnungs_register"@,
            q@[3].0@ == "mapExtent"@ && q@[3].1@ == "0,0,100,100"@,
            q@[4].0@ == "imageDisplay"@ && q@[4].1@ == "100,100,100"@,
            q@[5].0@ == "tolerance"@ && q@[5].1@ == "50"@,
            q@[6].0@ == "geometryFormat"@ && q@[6].1@ == "geojson"@,
            q@[7].0@ == "sr"@ && q@[7].1@ == self.sr@,
            q@[8].0@ == "lang"@ && q@[8].1@ == "en"@,
    {
        let mut geometry = format_fixed(point.x);
        geometry.append(",");
        geometry.append(format_fixed(point.y).as_str());
        let mut q: Vec<(String, String)> = Vec::new();
        q.push((String::from_str("geometry"), geometry));
        q.push((String::from_str("geometryType"), String::from_str("esriGeometryPoint")));
        q.push((String::from_str("layers"), String::from_str("all:ch.bfs.gebaeude_wohnungs_register")));
        q.push((String::from_str("mapExtent"), String::from_str("0,0,100,100")));
        q.push((String::from_str("imageDisplay"), String::from_str("100,100,100")));
        q.push((String::from_str("tolerance"), String::from_str("50")));
        q.push((String::from_str("geometryFormat"), String::from_str("geojson")));
        q.push((String::from_str("sr"), self.sr.clone()));
        q.push((String::from_str("lang"), String::from_str("en")));
        q
    }
}

/// Whether every coordinate of `b` lies within the grid transform's domain.
pub open spec fn bbox_in_domain(b: InputBounds) -> bool {
    &&& -TRANSFORM_BOUND <= b.minimum_lonlat.x <= TRANSFORM_BOUND
    &&& -TRANSFORM_BOUND <= b.minimum_lonlat.y <= TRANSFORM_BOUND
    &&& -TRANSFORM_BOUND <= b.maximum_lonlat.x <= TRANSFORM_BOUND
    &&& -TRANSFORM_BOUND <= b.maximum_lonlat.y <= TRANSFORM_BOUND
}

/// `b` with both corners taken through the WGS84 to LV03 transform.
pub open spec fn transformed_bounds(b: InputBounds) -> InputBounds {
    InputBounds {
        minimum_lonlat: Point {
            x: lv03_easting(b.minimum_lonlat.x as int, b.minimum_lonlat.y as int) as i64,
            y: lv03_northing(b.minimum_lonlat.x as int, b.minimum_lonlat.y as int) as i64,
        },
        maximum_lonlat: Point {
            x: lv03_easting(b.maximum_lonlat.x as int, b.maximum_lonlat.y as int) as i64,
            y: lv03_northing(b.maximum_lonlat.x as int, b.maximum_lonlat.y as int) as i64,
        },
    }
}

/// The bounding-box value a detailed search sends under the active spatial
/// reference `sr`: the box as given under a grid reference, the box taken
/// through the grid transform under WGS84 or Web Pseudo-Mercator.  `None`
/// when the box lies outside what the fixed-point arithmetic carries.
pub open spec fn spec_geoadmin_bbox(sr: Seq<char>, b: InputBounds) -> Option<Seq<char>> {
    if sr_is_grid(sr) {
        if crate::bounds_representable(b) {
            Some(crate::spec_bbox_string(b))
        } else {
            None
        }
    } else {
        if bbox_in_domain(b) {
            Some(crate::spec_bbox_string(transformed_bounds(b)))
        } else {
            None
        }
    }
}

impl GeoAdmin {
    /// The query pairs of a detailed forward lookup: the search text, the
    /// location type, the chosen origins, the active spatial reference and
    /// the GeoJSON format, then the bounding box and the result limit when
    /// they are given.  A bounding box under WGS84 or Web Pseudo-Mercator is
    /// first translated into the grid system the search endpoint expects;
    /// one that lies outside the representable range is rejected as a
    /// forward-geocoding failure.
    pub fn forward_full_query(&self, params: &GeoAdminParams) -> (r: Result<
        Vec<(String, String)>,
        GeocodingError,
    >)
        requires
            sr_valid(self.sr@),
        ensures
            match params.bbox {
                Some(bb) => match spec_geoadmin_bbox(self.sr@, *bb) {
                    Some(bs) => r matches Ok(q) && geoadmin_full_pairs(
                        q@,
                        *self,
                        *params,
                        seq![("bbox"@, bs)],
                    ),
                    None => r matches Err(e) && e is Forward,
                },
                None => r matches Ok(q) && geoadmin_full_pairs(
                    q@,
                    *self,
                    *params,
                    Seq::empty(),
                ),
            },
    {
        let mut q: Vec<(String, String)> = Vec::new();
        q.push((String::from_str("searchText"), String::from_str(params.searchtext)));
        q.push((String::from_str("type"), String::from_str("locations")));
        q.push((String::from_str("origins"), String::from_str(params.origins)));
        q.push((String::from_str("sr"), self.sr.clone()));
        q.push((String::from_str("geometryFormat"), String::from_str("geojson")));
        let ghost head = crate::pairs_view(q@);
        proof {
            assert(head =~~= geoadmin_full_head(*self, *params));
        }
        match params.bbox {
            Some(bb) => {
                let grid = str_eq(self.sr.as_str(), "21781") || str_eq(self.sr.as_str(), "2056");
                let bbox_string: String;
                if grid {
                    let ok = bb.minimum_lonlat.x != i64::MIN && bb.minimum_lonlat.y != i64::MIN
                        && bb.maximum_lonlat.x != i64::MIN && bb.maximum_lonlat.y != i64::MIN;
                    if !ok {
                        return Err(GeocodingError::Forward);
                    }
                    bbox_string = bb.bbox_string();
                } else {
                    let ok = -TRANSFORM_BOUND <= bb.minimum_lonlat.x && bb.minimum_lonlat.x
                        <= TRANSFORM_BOUND && -TRANSFORM_BOUND <= bb.minimum_lonlat.y
                        && bb.minimum_lonlat.y <= TRANSFORM_BOUND && -TRANSFORM_BOUND
                        <= bb.maximum_lonlat.x && bb.maximum_lonlat.x <= TRANSFORM_BOUND
                        && -TRANSFORM_BOUND <= bb.maximum_lonlat.y && bb.maximum_lonlat.y
                        <= TRANSFORM_BOUND;
                    if !ok {
                        return Err(GeocodingError::Forward);
                    }
                    let tb = InputBounds::new(
                        wgs84_to_lv03(&bb.minimum_lonlat),
                        wgs84_to_lv03(&bb.maximum_lonlat),
                    );
                    proof {
                        assert(tb == transformed_bounds(*bb));
                    }
                    bbox_string = tb.bbox_string();
                }
                q.push((String::from_str("bbox"), bbox_string));
                proof {
                    assert(crate::pairs_view(q@) =~~= head + seq![
                        ("bbox"@, spec_geoadmin_bbox(self.sr@, *bb)->Some_0),
                    ]);
                }
            },
            None => {},
        }
        let ghost mid = crate::pairs_view(q@);
        match params.limit {
            Some(lim) => {
                q.push((String::from_str("limit"), format_u64(lim as u64)));
                proof {
                    assert(crate::pairs_view(q@) =~~= mid + seq![
                        ("limit"@, dec_digits(lim as nat)),
                    ]);
                }
            },
            None => {},
        }
        Ok(q)
    }
}

/// The five fixed leading query pairs of a detailed forward lookup.
pub open spec fn geoadmin_full_head(g: GeoAdmin, p: GeoAdminParams) -> Seq<
    (Seq<char>, Seq<char>),
> {
    seq![
        ("searchText"@, p.searchtext@),
        ("type"@, "locations"@),
        ("origins"@, p.origins@),
        ("sr"@, g.sr@),
        ("geometryFormat"@, "geojson"@),
    ]
}

/// Whether `q` is the full query of a detailed forward lookup: the fixed
/// head, then `bbox_part`, then the limit pair when a limit is set.
pub open spec fn geoadmin_full_pairs(
    q: Seq<(String, String)>,
    g: GeoAdmin,
    p: GeoAdminParams,
    bbox_part: Seq<(Seq<char>, Seq<char>)>,
) -> bool {
    crate::pairs_view(q) == geoadmin_full_head(g, p) + bbox_part + (match p.limit {
        Some(lim) => seq![("limit"@, dec_digits(lim as nat))],
        None => Seq::<(Seq<char>, Seq<char>)>::empty(),
    })
}

/// The point a well-shaped feature document maps to under the spatial
/// reference `sr`: under a Swiss grid the `y` (easting) and `x` (northing)
/// attribute fields, in that order; otherwise the `lon` and `lat` fields.
pub open spec fn feature_doc_point(sr: Seq<char>, f: JsonVal) -> Point {
    let pm = jfield(f, "properties"@)->Some_0;
    if sr_is_grid(sr) {
        Point { x: jfield_coord(pm, "y"@)->Some_0, y: jfield_coord(pm, "x"@)->Some_0 }
    } else {
        Point { x: jfield_coord(pm, "lon"@)->Some_0, y: jfield_coord(pm, "lat"@)->Some_0 }
    }
}

/// The display string a well-shaped identify result document yields:
/// street and number, then postal code and locality.
pub open spec fn doc_reverse_display(rm: JsonVal) -> Seq<char> {
    let am = jfield(rm, "properties"@)->Some_0;
    jfield_str(am, "strname_deinr"@)->Some_0 + ", "@ + dec_digits(
        jfield_u32(am, "dplz4"@)->Some_0 as nat,
    ) + " "@ + jfield_str(am, "dplzname"@)->Some_0
}

/// The point a feature maps to under the active spatial reference: under a
/// Swiss grid the easting is the provider's `y` and the northing its `x`,
/// so the pair is emitted as `(y, x)`; otherwise the `lon` and `lat` fields
/// are read directly.
pub open spec fn spec_geoadmin_point(sr: Seq<char>, f: GeoAdminForwardLocation) -> Point {
    if sr_is_grid(sr) {
        Point { x: f.properties.y, y: f.properties.x }
    } else {
        Point { x: f.properties.lon, y: f.properties.lat }
    }
}

impl GeoAdmin {
    /// Map a decoded response onto the uniform forward contract: one point
    /// per feature, in the response's order, in `(lon, lat)` order whatever
    /// field names the active spatial reference gives them.  An empty
    /// feature list maps to an empty sequence.
    pub fn forward_points(&self, resp: &GeoAdminForwardResponse) -> (pts: Vec<Point>)
        requires
            sr_valid(self.sr@),
        ensures
            pts@.len() == resp.features@.len(),
            forall|i: int|
                0 <= i < pts@.len() ==> #[trigger] pts@[i] == spec_geoadmin_point(
                    self.sr@,
                    resp.features@[i],
                ),
    {
        let grid = str_eq(self.sr.as_str(), "21781") || str_eq(self.sr.as_str(), "2056");
        let mut pts: Vec<Point> = Vec::new();
        let mut i: usize = 0;
        while i < resp.features.len()
            invariant
                grid == sr_is_grid(self.sr@),
                0 <= i <= resp.features@.len(),
                pts@.len() == i,
                forall|j: int|
                    0 <= j < i ==> #[trigger] pts@[j] == spec_geoadmin_point(
                        self.sr@,
                        resp.features@[j],
                    ),
            decreases resp.features@.len() - i,
        {
            let props = &resp.features[i].properties;
            if grid {
                pts.push(Point { x: props.y, y: props.x });
            } else {
                pts.push(Point { x: props.lon, y: props.lat });
            }
            i = i + 1;
        }
        pts
    }

    /// Decode a forward response body and map every feature to a point:
    /// the lookup succeeds exactly when the body decodes, and then hands
    /// back one point per feature of the document, in order, read under
    /// the active spatial reference.  A body with zero features yields
    /// `Ok` of an empty sequence.
    pub fn forward_from_body(&self, body: &str) -> (r: Result<Vec<Point>, GeocodingError>)
        requires
            sr_valid(self.sr@),
        ensures
            match r {
                Ok(pts) => json_of(body@) matches Some(doc) && fwd_response_shape_ok(doc) && {
                    &&& pts@.len() == forward_features(doc).len()
                    &&& forall|i: int|
                        0 <= i < pts@.len() ==> #[trigger] pts@[i] == feature_doc_point(
                            self.sr@,
                            forward_features(doc)[i],
                        )
                },
                Err(e) => e is Decode && (match json_of(body@) {
                    Some(doc) => !fwd_response_shape_ok(doc),
                    None => true,
                }),
            },
    {
        match parse_forward_response(body) {
            Ok(resp) => {
                let pts = self.forward_points(&resp);
                proof {
                    let doc = json_of(body@)->Some_0;
                    let fa = forward_features(doc);
                    assert forall|i: int| 0 <= i < pts@.len() implies #[trigger] pts@[i]
                        == feature_doc_point(self.sr@, fa[i]) by {
                        assert(fwd_feature_matches(resp.features@[i], fa[i]));
                        assert(pts@[i] == spec_geoadmin_point(self.sr@, resp.features@[i]));
                    };
                }
                Ok(pts)
            },
            Err(e) => Err(e),
        }
    }

    /// Decode a reverse response body and take the first result's address:
    /// the lookup succeeds exactly when the body decodes, hands back the
    /// document's first address -- street and number, postal code and
    /// locality -- when there is a result, and absence, distinct from any
    /// error, when there is none.
    pub fn reverse_from_body(&self, body: &str) -> (r: Result<Option<String>, GeocodingError>)
        ensures
            match r {
                Ok(o) => json_of(body@) matches Some(doc) && rev_response_shape_ok(doc) && (
                match o {
                    Some(s) => reverse_results(doc).len() > 0 && s@ == doc_reverse_display(
                        reverse_results(doc)[0],
                    ),
                    None => reverse_results(doc).len() == 0,
                }),
                Err(e) => e is Decode && (match json_of(body@) {
                    Some(doc) => !rev_response_shape_ok(doc),
                    None => true,
                }),
            },
    {
        match parse_reverse_response(body) {
            Ok(resp) => {
                let r = reverse_display(&resp);
                proof {
                    let doc = json_of(body@)->Some_0;
                    let ra = reverse_results(doc);
                    if resp.results@.len() > 0 {
                        assert(rev_location_matches(resp.results@[0], ra[0]));
                    }
                }
                Ok(r)
            },
            Err(e) => Err(e),
        }
    }
}

impl Default for GeoAdmin {
    /// The default endpoint, in WGS84.
    fn default() -> (r: GeoAdmin)
        ensures
            r.endpoint@ == "https://api3.geo.admin.ch/rest/services/api/"@,
            r.sr@ == "4326"@,
    {
        GeoAdmin::new()
    }
}

/// The display string of a reverse result: street and number, then postal
/// code and locality.
pub open spec fn spec_reverse_display(a: ReverseLocationAttributes) -> Seq<char> {
    a.strname_deinr@ + ", "@ + dec_digits(a.dplz4 as nat) + " "@ + a.dplzname@
}

/// Map a decoded identify response onto the uniform reverse contract: the
/// first result's address, rendered as
/// `"{street and number}, {postal code} {locality}"`, or absence --
/// distinct from any error -- when the provider matched nothing.
pub fn reverse_display(resp: &GeoAdminReverseResponse) -> (r: Option<String>)
    ensures
        resp.results@.len() == 0 <==> r is None,
        r matches Some(s) ==> s@ == spec_reverse_display(resp.results@[0].properties),
{
    if resp.results.len() > 0 {
        let props = &resp.results[0].properties;
        let mut out = props.strname_deinr.clone();
        out.append(", ");
        out.append(format_u64(props.dplz4 as u64).as_str());
        out.append(" ");
        out.append(props.dplzname.as_str());
        Some(out)
    } else {
        None
    }
}

} // verus!
