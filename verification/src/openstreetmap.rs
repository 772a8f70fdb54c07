//! The OpenStreetMap Nominatim provider.
//!
//! The functions here build the query pairs for the `search` and `reverse`
//! endpoints, decode the GeoJSON response body, and map it onto the uniform
//! contract: every feature's coordinate pair, already in `(lon, lat)` order,
//! for a forward lookup; the first feature's display name, or absence, for a
//! reverse lookup.  Decoding is specified against the ghost document model:
//! a body decodes successfully exactly when [`response_shape_ok`] holds of
//! its parsed document, and what it decodes to reads that document.

use vstd::prelude::*;
use crate::{GeocodingError, InputBounds, Point};
use crate::decode::{
    get_coord, get_string, get_u64, jelem_coord, jfield, jfield_coord, jfield_str, jfield_u64,
    opt_str_matches,
};
use crate::fixed::{spec_format_fixed, format_fixed};
use crate::json::{json_array_get, json_array_len, json_get, json_model, json_of, json_parse, JsonVal};

verus! {

/// A parameter builder for a detailed forward lookup.
pub struct OpenstreetmapParams<'a> {
    pub query: &'a str,
    pub addressdetails: bool,
    pub viewbox: Option<&'a InputBounds>,
}

impl<'a> OpenstreetmapParams<'a> {
    /// Start from the search text alone: no address details, no viewbox.
    pub fn new(query: &'a str) -> (r: OpenstreetmapParams<'a>)
        ensures
            r.query == query,
            r.addressdetails == false,
            r.viewbox is None,
    {
        OpenstreetmapParams { query, addressdetails: false, viewbox: None }
    }

    /// Set the `addressdetails` property.
    pub fn with_addressdetails(self, addressdetails: bool) -> (r: OpenstreetmapParams<'a>)
        ensures
            r.query == self.query,
            r.addressdetails == addressdetails,
            r.viewbox == self.viewbox,
    {
        OpenstreetmapParams { addressdetails, ..self }
    }

    /// Set the `viewbox` property.
    pub fn with_viewbox(self, viewbox: &'a InputBounds) -> (r: OpenstreetmapParams<'a>)
        ensures
            r.query == self.query,
            r.addressdetails == self.addressdetails,
            r.viewbox == Some(viewbox),
    {
        OpenstreetmapParams { viewbox: Some(viewbox), ..self }
    }

    /// Hand the finished parameters back.
    pub fn build(self) -> (r: OpenstreetmapParams<'a>)
        ensures
            r.query == self.query,
            r.addressdetails == self.addressdetails,
            r.viewbox == self.viewbox,
    {
        OpenstreetmapParams { ..self }
    }
}

/// The top-level GeoJSON response of a forward-geocoding request.
#[derive(Debug)]
pub struct OpenstreetmapResponse {
    pub kind: String,
    pub licence: String,
    pub features: Vec<OpenstreetmapResult>,
}

/// One geocoding result.
#[derive(Debug)]
pub struct OpenstreetmapResult {
    pub kind: String,
    pub properties: ResultProperties,
    pub bbox: (i64, i64, i64, i64),
    pub geometry: ResultGeometry,
}

/// The properties of a geocoding result.  `importance` is a fixed-point
/// value in units of `10^-9`.
#[derive(Clone, Debug)]
pub struct ResultProperties {
    pub place_id: u64,
    pub osm_type: String,
    pub osm_id: u64,
    pub display_name: String,
    pub place_rank: u64,
    pub category: String,
    pub kind: String,
    pub importance: i64,
    pub address: Option<AddressDetails>,
}

/// Address details of a result, all optional.
#[derive(Clone, Debug)]
pub struct AddressDetails {
    pub city: Option<String>,
    pub city_district: Option<String>,
    pub construction: Option<String>,
    pub continent: Option<String>,
    pub country: Option<String>,
    pub country_code: Option<String>,
    pub house_number: Option<String>,
    pub neighbourhood: Option<String>,
    pub postcode: Option<String>,
    pub public_building: Option<String>,
    pub state: Option<String>,
    pub suburb: Option<String>,
}

/// A result's geometry: a coordinate pair already in `(lon, lat)` order,
/// fixed-point in units of `10^-9`.
#[derive(Debug)]
pub struct ResultGeometry {
    pub kind: String,
    pub coordinates: (i64, i64),
}

/// Whether the decoded address details read the document `m`: each field
/// present with the same text, or absent together.
pub open spec fn address_matches(a: AddressDetails, m: JsonVal) -> bool {
    &&& opt_str_matches(a.city, jfield_str(m, "city"@))
    &&& opt_str_matches(a.city_district, jfield_str(m, "city_district"@))
    &&& opt_str_matches(a.construction, jfield_str(m, "construction"@))
    &&& opt_str_matches(a.continent, jfield_str(m, "continent"@))
    &&& opt_str_matches(a.country, jfield_str(m, "country"@))
    &&& opt_str_matches(a.country_code, jfield_str(m, "country_code"@))
    &&& opt_str_matches(a.house_number, jfield_str(m, "house_number"@))
    &&& opt_str_matches(a.neighbourhood, jfield_str(m, "neighbourhood"@))
    &&& opt_str_matches(a.postcode, jfield_str(m, "postcode"@))
    &&& opt_str_matches(a.public_building, jfield_str(m, "public_building"@))
    &&& opt_str_matches(a.state, jfield_str(m, "state"@))
    &&& opt_str_matches(a.suburb, jfield_str(m, "suburb"@))
}

fn decode_address(v: &serde_json::Value) -> (r: AddressDetails)
    ensures
        address_matches(r, json_model(*v)),
{
    AddressDetails {
        city: get_string(v, "city"),
        city_district: get_string(v, "city_district"),
        construction: get_string(v, "construction"),
        continent: get_string(v, "continent"),
        country: get_string(v, "country"),
        country_code: get_string(v, "country_code"),
        house_number: get_string(v, "house_number"),
        neighbourhood: get_string(v, "neighbourhood"),
        postcode: get_string(v, "postcode"),
        public_building: get_string(v, "public_building"),
        state: get_string(v, "state"),
        suburb: get_string(v, "suburb"),
    }
}

/// Whether the document `m` carries every required property field with the
/// right type.
pub open spec fn properties_shape_ok(m: JsonVal) -> bool {
    &&& jfield_u64(m, "place_id"@) is Some
    &&& jfield_str(m, "osm_type"@) is Some
    &&& jfield_u64(m, "osm_id"@) is Some
    &&& jfield_str(m, "display_name"@) is Some
    &&& jfield_u64(m, "place_rank"@) is Some
    &&& jfield_str(m, "category"@) is Some
    &&& jfield_str(m, "type"@) is Some
    &&& jfield_coord(m, "importance"@) is Some
}

/// Whether the decoded properties read the document `m`.
pub open spec fn properties_matches(p: ResultProperties, m: JsonVal) -> bool {
    &&& properties_shape_ok(m)
    &&& jfield_u64(m, "place_id"@) == Some(p.place_id)
    &&& jfield_str(m, "osm_type"@) == Some(p.osm_type@)
    &&& jfield_u64(m, "osm_id"@) == Some(p.osm_id)
    &&& jfield_str(m, "display_name"@) == Some(p.display_name@)
    &&& jfield_u64(m, "place_rank"@) == Some(p.place_rank)
    &&& jfield_str(m, "category"@) == Some(p.category@)
    &&& jfield_str(m, "type"@) == Some(p.kind@)
    &&& jfield_coord(m, "importance"@) == Some(p.importance)
    &&& match jfield(m, "address"@) {
        Some(am) => p.address matches Some(ad) && address_matches(ad, am),
        None => p.address is None,
    }
}

fn decode_properties(v: &serde_json::Value) -> (r: Option<ResultProperties>)
    ensures
        match r {
            Some(p) => properties_matches(p, json_model(*v)),
            None => !properties_shape_ok(json_model(*v)),
        },
{
    let place_id = match get_u64(v, "place_id") {
        Some(x) => x,
        None => {
            return None;
        },
    };
    let osm_type = match get_string(v, "osm_type") {
        Some(x) => x,
        None => {
            return None;
        },
    };
    let osm_id = match get_u64(v, "osm_id") {
        Some(x) => x,
        None => {
            return None;
        },
    };
    let display_name = match get_string(v, "display_name") {
        Some(x) => x,
        None => {
            return None;
        },
    };
    let place_rank = match get_u64(v, "place_rank") {
        Some(x) => x,
        None => {
            return None;
        },
    };
    let category = match get_string(v, "category") {
        Some(x) => x,
        None => {
            return None;
        },
    };
    let kind = match get_string(v, "type") {
        Some(x) => x,
        None => {
            return None;
        },
    };
    let importance = match get_coord(v, "importance") {
        Some(x) => x,
        None => {
            return None;
        },
    };
    let address = match json_get(v, "address") {
        Some(a) => Some(decode_address(a)),
        None => None,
    };
    Some(
        ResultProperties {
            place_id,
            osm_type,
            osm_id,
            display_name,
            place_rank,
            category,
            kind,
            importance,
            address,
        },
    )
}

fn decode_coord_at(v: &serde_json::Value, i: usize) -> (r: Option<i64>)
    ensures
        r == jelem_coord(json_model(*v), i as int),
{
    match json_array_get(v, i) {
        Some(e) => match crate::json::json_number_text(e) {
            Some(t) => crate::fixed::parse_fixed(t.as_str()),
            None => None,
        },
        None => None,
    }
}

/// Whether the document `m` is a geometry: a type string and a coordinate
/// array whose first two elements read as fixed-point numbers.
pub open spec fn geometry_shape_ok(m: JsonVal) -> bool {
    &&& jfield_str(m, "type"@) is Some
    &&& match jfield(m, "coordinates"@) {
        Some(c) => jelem_coord(c, 0) is Some && jelem_coord(c, 1) is Some,
        None => false,
    }
}

/// Whether the decoded geometry reads the document `m`: the pair holds the
/// first two coordinates, in the array's `(lon, lat)` order.
pub open spec fn geometry_matches(g: ResultGeometry, m: JsonVal) -> bool {
    &&& geometry_shape_ok(m)
    &&& jfield_str(m, "type"@) == Some(g.kind@)
    &&& match jfield(m, "coordinates"@) {
        Some(c) => jelem_coord(c, 0) == Some(g.coordinates.0) && jelem_coord(c, 1) == Some(
            g.coordinates.1,
        ),
        None => false,
    }
}

fn decode_geometry(v: &serde_json::Value) -> (r: Option<ResultGeometry>)
    ensures
        match r {
            Some(g) => geometry_matches(g, json_model(*v)),
            None => !geometry_shape_ok(json_model(*v)),
        },
{
    let kind = match get_string(v, "type") {
        Some(x) => x,
        None => {
            return None;
        },
    };
    let coords = match json_get(v, "coordinates") {
        Some(c) => c,
        None => {
            return None;
        },
    };
    let lon = match decode_coord_at(coords, 0) {
        Some(x) => x,
        None => {
            return None;
        },
    };
    let lat = match decode_coord_at(coords, 1) {
        Some(x) => x,
        None => {
            return None;
        },
    };
    Some(ResultGeometry { kind, coordinates: (lon, lat) })
}

/// Whether the document `m` is a feature: a type string, well-shaped
/// properties, a bounding box of four numbers, and a geometry.
pub open spec fn feature_shape_ok(m: JsonVal) -> bool {
    &&& jfield_str(m, "type"@) is Some
    &&& match jfield(m, "properties"@) {
        Some(pm) => properties_shape_ok(pm),
        None => false,
    }
    &&& match jfield(m, "bbox"@) {
        Some(bm) => jelem_coord(bm, 0) is Some && jelem_coord(bm, 1) is Some && jelem_coord(
            bm,
            2,
        ) is Some && jelem_coord(bm, 3) is Some,
        None => false,
    }
    &&& match jfield(m, "geometry"@) {
        Some(gm) => geometry_shape_ok(gm),
        None => false,
    }
}

/// Whether the decoded feature reads the document `m`.
pub open spec fn feature_matches(f: OpenstreetmapResult, m: JsonVal) -> bool {
    &&& feature_shape_ok(m)
    &&& jfield_str(m, "type"@) == Some(f.kind@)
    &&& match jfield(m, "properties"@) {
        Some(pm) => properties_matches(f.properties, pm),
        None => false,
    }
    &&& match jfield(m, "bbox"@) {
        Some(bm) => jelem_coord(bm, 0) == Some(f.bbox.0) && jelem_coord(bm, 1) == Some(f.bbox.1)
            && jelem_coord(bm, 2) == Some(f.bbox.2) && jelem_coord(bm, 3) == Some(f.bbox.3),
        None => false,
    }
    &&& match jfield(m, "geometry"@) {
        Some(gm) => geometry_matches(f.geometry, gm),
        None => false,
    }
}

fn decode_feature(v: &serde_json::Value) -> (r: Option<OpenstreetmapResult>)
    ensures
        match r {
            Some(f) => feature_matches(f, json_model(*v)),
            None => !feature_shape_ok(json_model(*v)),
        },
{
    let kind = match get_string(v, "type") {
        Some(x) => x,
        None => {
            return None;
        },
    };
    let properties = match json_get(v, "properties") {
        Some(p) => match decode_properties(p) {
            Some(p) => p,
            None => {
                return None;
            },
        },
        None => {
            return None;
        },
    };
    let bb = match json_get(v, "bbox") {
        Some(b) => b,
        None => {
            return None;
        },
    };
    let b0 = match decode_coord_at(bb, 0) {
        Some(x) => x,
        None => {
            return None;
        },
    };
    let b1 = match decode_coord_at(bb, 1) {
        Some(x) => x,
        None => {
            return None;
        },
    };
    let b2 = match decode_coord_at(bb, 2) {
        Some(x) => x,
        None => {
            return None;
        },
    };
    let b3 = match decode_coord_at(bb, 3) {
        Some(x) => x,
        None => {
            return None;
        },
    };
    let geometry = match json_get(v, "geometry") {
        Some(g) => match decode_geometry(g) {
            Some(g) => g,
            None => {
                return None;
            },
        },
        None => {
            return None;
        },
    };
    Some(OpenstreetmapResult { kind, properties, bbox: (b0, b1, b2, b3), geometry })
}

/// An instance of the Nominatim geocoding service, held as its endpoint;
/// the HTTP round trip is the caller's.
#[derive(Clone, Debug)]
pub struct Openstreetmap {
    pub endpoint: String,
}

impl Openstreetmap {
    /// A service instance over the default public endpoint.
    pub fn new() -> (r: Openstreetmap)
        ensures
            r.endpoint@ == "https://nominatim.openstreetmap.org/"@,
    {
        Openstreetmap::new_with_endpoint(String::from_str("https://nominatim.openstreetmap.org/"))
    }

    /// A service instance over a custom endpoint, which should end in a
    /// slash.
    pub fn new_with_endpoint(endpoint: String) -> (r: Openstreetmap)
        ensures
            r.endpoint == endpoint,
    {
        Openstreetmap { endpoint }
    }

    /// The URL of the forward-geocoding endpoint.
    pub fn forward_url(&self) -> (r: String)
        ensures
            r@ == self.endpoint@ + "search"@,
    {
        self.endpoint.clone().concat("search")
    }

    /// The URL of the reverse-geocoding endpoint.
    pub fn reverse_url(&self) -> (r: String)
        ensures
            r@ == self.endpoint@ + "reverse"@,
    {
        self.endpoint.clone().concat("reverse")
    }

    /// The query pairs of a plain forward lookup.
    pub fn forward_query(&self, place: &str) -> (q: Vec<(String, String)>)
        ensures
            q@.len() == 2,
            q@[0].0@ == "q"@ && q@[0].1@ == place@,
            q@[1].0@ == "format"@ && q@[1].1@ == "geojson"@,
    {
        let mut q: Vec<(String, String)> = Vec::new();
        q.push((String::from_str("q"), String::from_str(place)));
        q.push((String::from_str("format"), String::from_str("geojson")));
        q
    }

    /// The query pairs of a detailed forward lookup: the search text, the
    /// response format, the address-details flag, and the viewbox when one
    /// is given.
    pub fn forward_full_query(&self, params: &OpenstreetmapParams) -> (q: Vec<(String, String)>)
        requires
            params.viewbox matches Some(vb) ==> crate::bounds_representable(*vb),
        ensures
            q@.len() == if params.viewbox is Some { 4int } else { 3 },
            q@[0].0@ == "q"@ && q@[0].1@ == params.query@,
            q@[1].0@ == "format"@ && q@[1].1@ == "geojson"@,
            q@[2].0@ == "addressdetails"@ && q@[2].1@ == (if params.addressdetails {
                "1"@
            } else {
                "0"@
            }),
            params.viewbox matches Some(vb) ==> q@[3].0@ == "viewbox"@ && q@[3].1@
                == crate::spec_bbox_string(*vb),
    {
        let mut q: Vec<(String, String)> = Vec::new();
        q.push((String::from_str("q"), String::from_str(params.query)));
        q.push((String::from_str("format"), String::from_str("geojson")));
        let flag = if params.addressdetails {
            String::from_str("1")
        } else {
            String::from_str("0")
        };
        q.push((String::from_str("addressdetails"), flag));
        match params.viewbox {
            Some(vb) => {
                q.push((String::from_str("viewbox"), vb.bbox_string()));
            },
            None => {},
        }
        q
    }

    /// The query pairs of a reverse lookup: the point's longitude and
    /// latitude, by name, and the response format.
    pub fn reverse_query(&self, point: &Point) -> (q: Vec<(String, String)>)
        requires
            point.x != i64::MIN,
            point.y != i64::MIN,
        ensures
            q@.len() == 3,
            q@[0].0@ == "lon"@ && q@[0].1@ == spec_format_fixed(point.x as int),
            q@[1].0@ == "lat"@ && q@[1].1@ == spec_format_fixed(point.y as int),
            q@[2].0@ == "format"@ && q@[2].1@ == "geojson"@,
    {
        let mut q: Vec<(String, String)> = Vec::new();
        q.push((String::from_str("lon"), format_fixed(point.x)));
        q.push((String::from_str("lat"), format_fixed(point.y)));
        q.push((String::from_str("format"), String::from_str("geojson")));
        q
    }
}

impl Default for Openstreetmap {
    /// The default public endpoint.
    fn default() -> (r: Openstreetmap)
        ensures
            r.endpoint@ == "https://nominatim.openstreetmap.org/"@,
    {
        Openstreetmap::new()
    }
}

/// Whether the document `m` is a whole response: a type string, a licence
/// string, and an array of well-shaped features.
pub open spec fn response_shape_ok(m: JsonVal) -> bool {
    &&& jfield_str(m, "type"@) is Some
    &&& jfield_str(m, "licence"@) is Some
    &&& match jfield(m, "features"@) {
        Some(fm) => fm matches JsonVal::Arr(a) && forall|i: int|
            0 <= i < a.len() ==> feature_shape_ok(#[trigger] a[i]),
        None => false,
    }
}

/// Whether the decoded response reads the document `m`, feature by feature
/// and in order.
pub open spec fn response_matches(resp: OpenstreetmapResponse, m: JsonVal) -> bool {
    &&& response_shape_ok(m)
    &&& jfield_str(m, "type"@) == Some(resp.kind@)
    &&& jfield_str(m, "licence"@) == Some(resp.licence@)
    &&& match jfield(m, "features"@) {
        Some(fm) => fm matches JsonVal::Arr(a) && resp.features@.len() == a.len() && forall|i: int|
            0 <= i < a.len() ==> feature_matches(#[trigger] resp.features@[i], a[i]),
        None => false,
    }
}

/// Decode a response body of the `search` or `reverse` endpoint.  The body
/// decodes exactly when it is JSON whose document is a well-shaped
/// response; what comes back reads that document.  Anything else is the
/// decode error kind: a malformed body or a missing or mistyped required
/// field.
pub fn parse_response(body: &str) -> (r: Result<OpenstreetmapResponse, GeocodingError>)
    ensures
        match r {
            Ok(resp) => json_of(body@) matches Some(doc) && response_matches(resp, doc),
            Err(e) => e is Decode && (match json_of(body@) {
                Some(doc) => !response_shape_ok(doc),
                None => true,
            }),
        },
{
    let root = match json_parse(body) {
        Ok(v) => v,
        Err(msg) => {
            return Err(GeocodingError::Decode(msg));
        },
    };
    let ghost doc = json_model(*&root);
    let kind = match get_string(&root, "type") {
        Some(x) => x,
        None => {
            return Err(GeocodingError::Decode(String::from_str("type")));
        },
    };
    let licence = match get_string(&root, "licence") {
        Some(x) => x,
        None => {
            return Err(GeocodingError::Decode(String::from_str("licence")));
        },
    };
    let fs = match json_get(&root, "features") {
        Some(f) => f,
        None => {
            return Err(GeocodingError::Decode(String::from_str("features")));
        },
    };
    let ghost fm = json_model(*fs);
    let len = match json_array_len(fs) {
        Some(l) => l,
        None => {
            return Err(GeocodingError::Decode(String::from_str("features")));
        },
    };
    let ghost fa = fm->Arr_0;
    proof {
        assert(fm matches JsonVal::Arr(aa) && len == aa.len());
    }
    proof {
        assert(jfield(doc, "features"@) == Some(fm));
    }
    let mut features: Vec<OpenstreetmapResult> = Vec::new();
    let mut i: usize = 0;
    while i < len
        invariant
            json_of(body@) == Some(doc),
            jfield(doc, "features"@) == Some(fm),
            fm == json_model(*fs),
            fm matches JsonVal::Arr(aa) && aa == fa,
            len == fa.len(),
            0 <= i <= len,
            features@.len() == i,
            forall|j: int| 0 <= j < i ==> feature_matches(#[trigger] features@[j], fa[j]),
        decreases len - i,
    {
        let fv = match json_array_get(fs, i) {
            Some(f) => f,
            None => {
                proof {
                    assert(false);
                }
                return Err(GeocodingError::Decode(String::from_str("features")));
            },
        };
        let feature = match decode_feature(fv) {
            Some(f) => f,
            None => {
                proof {
                    assert(!feature_shape_ok(fa[i as int]));
                    assert(!response_shape_ok(doc)) by {
                        if response_shape_ok(doc) {
                            assert(feature_shape_ok(fa[i as int]));
                        }
                    };
                }
                return Err(GeocodingError::Decode(String::from_str("features")));
            },
        };
        features.push(feature);
        i = i + 1;
    }
    let resp = OpenstreetmapResponse { kind, licence, features };
    proof {
        assert forall|j: int| 0 <= j < fa.len() implies feature_shape_ok(#[trigger] fa[j]) by {
            assert(feature_matches(resp.features@[j], fa[j]));
        };
        assert(response_shape_ok(doc));
        assert(response_matches(resp, doc));
    }
    Ok(resp)
}

/// Whether `pts` is exactly the coordinate pair of each feature, in order.
pub open spec fn points_match(features: Seq<OpenstreetmapResult>, pts: Seq<Point>) -> bool {
    &&& pts.len() == features.len()
    &&& forall|i: int|
        0 <= i < pts.len() ==> #[trigger] pts[i] == (Point {
            x: features[i].geometry.coordinates.0,
            y: features[i].geometry.coordinates.1,
        })
}

/// Map a decoded response onto the uniform forward contract: one point per
/// feature, in the response's order, each taken from the feature's
/// coordinate pair -- which this provider already serves in `(lon, lat)`
/// order.  An empty feature list maps to an empty sequence.
pub fn forward_points(resp: &OpenstreetmapResponse) -> (pts: Vec<Point>)
    ensures
        points_match(resp.features@, pts@),
{
    let mut pts: Vec<Point> = Vec::new();
    let mut i: usize = 0;
    while i < resp.features.len()
        invariant
            0 <= i <= resp.features@.len(),
            pts@.len() == i,
            forall|j: int|
                0 <= j < i ==> #[trigger] pts@[j] == (Point {
                    x: resp.features@[j].geometry.coordinates.0,
                    y: resp.features@[j].geometry.coordinates.1,
                }),
        decreases resp.features@.len() - i,
    {
        let f = &resp.features[i];
        pts.push(Point { x: f.geometry.coordinates.0, y: f.geometry.coordinates.1 });
        i = i + 1;
    }
    pts
}

/// Map a decoded response onto the uniform reverse contract: the first
/// feature's display name, or absence -- distinct from any error -- when
/// the provider matched nothing.
pub fn reverse_display(resp: &OpenstreetmapResponse) -> (r: Option<String>)
    ensures
        resp.features@.len() == 0 <==> r is None,
        r matches Some(s) ==> s@ == resp.features@[0].properties.display_name@,
    {
    if resp.features.len() > 0 {
        Some(resp.features[0].properties.display_name.clone())
    } else {
        None
    }
}

/// The point a well-shaped feature document maps to: the first two entries
/// of its geometry's coordinate array.
pub open spec fn feature_point(f: JsonVal) -> Point {
    match jfield(f, "geometry"@) {
        Some(g) => match jfield(g, "coordinates"@) {
            Some(c) => Point { x: jelem_coord(c, 0)->Some_0, y: jelem_coord(c, 1)->Some_0 },
            None => Point { x: 0, y: 0 },
        },
        None => Point { x: 0, y: 0 },
    }
}

/// The feature array of a well-shaped response document.
pub open spec fn response_features(doc: JsonVal) -> Seq<JsonVal> {
    jfield(doc, "features"@)->Some_0->Arr_0
}

/// Decode a forward response body and map every feature to a point: the
/// lookup succeeds exactly when the body decodes, and then hands back one
/// point per feature of the document, in order.  A body with zero features
/// yields `Ok` of an empty sequence.
pub fn forward_from_body(body: &str) -> (r: Result<Vec<Point>, GeocodingError>)
    ensures
        match r {
            Ok(pts) => json_of(body@) matches Some(doc) && response_shape_ok(doc) && {
                &&& pts@.len() == response_features(doc).len()
                &&& forall|i: int|
                    0 <= i < pts@.len() ==> #[trigger] pts@[i] == feature_point(
                        response_features(doc)[i],
                    )
            },
            Err(e) => e is Decode && (match json_of(body@) {
                Some(doc) => !response_shape_ok(doc),
                None => true,
            }),
        },
{
    match parse_response(body) {
        Ok(resp) => {
            let pts = forward_points(&resp);
            proof {
                let doc = json_of(body@)->Some_0;
                let fa = response_features(doc);
                assert forall|i: int| 0 <= i < pts@.len() implies #[trigger] pts@[i]
                    == feature_point(fa[i]) by {
                    assert(feature_matches(resp.features@[i], fa[i]));
                };
            }
            Ok(pts)
        },
        Err(e) => Err(e),
    }
}

/// Decode a reverse response body and take the first feature's display
/// name: the lookup succeeds exactly when the body decodes, hands back the
/// document's first display name when there is a feature, and absence --
/// distinct from any error -- when there is none.
pub fn reverse_from_body(body: &str) -> (r: Result<Option<String>, GeocodingError>)
    ensures
        match r {
            Ok(o) => json_of(body@) matches Some(doc) && response_shape_ok(doc) && (match o {
                Some(s) => response_features(doc).len() > 0 && jfield_str(
                    jfield(response_features(doc)[0], "properties"@)->Some_0,
                    "display_name"@,
                ) == Some(s@),
                None => response_features(doc).len() == 0,
            }),
            Err(e) => e is Decode && (match json_of(body@) {
                Some(doc) => !response_shape_ok(doc),
                None => true,
            }),
        },
{
    match parse_response(body) {
        Ok(resp) => {
            let r = reverse_display(&resp);
            proof {
                let doc = json_of(body@)->Some_0;
                let fa = response_features(doc);
                if resp.features@.len() > 0 {
                    assert(feature_matches(resp.features@[0], fa[0]));
                }
            }
            Ok(r)
        },
        Err(e) => Err(e),
    }
}

} // verus!
