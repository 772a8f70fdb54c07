//! The OpenCage Geocoding provider.
//!
//! The functions here build the query pairs the API expects, decode its
//! response body, and map it onto the uniform contract.  Note the coordinate
//! order: this API documents coordinates in `(latitude, longitude)` order,
//! so a reverse query renders the point as `"{lat}, {lon}"`, while the
//! mapped output of a forward lookup is always `(longitude, latitude)`.
//!
//! The API reports the remaining daily quota of a free-tier key through a
//! rate-limit response header; [`Opencage::observe_rate_limit`] folds that
//! header, when the transport saw one, into the client state.

use vstd::prelude::*;
use crate::{pairs_view, GeocodingError, InputBounds, Point};
use crate::decode::{
    assoc_get_i64, coord_pairs_match, coord_pairs_ok, get_i64, get_string, i64_pairs_match,
    i64_pairs_ok, jfield, jfield_coord, jfield_i64, jfield_str, jfield_str_or_int,
    object_coord_pairs, object_i64_pairs, object_string_pairs, opt_str_matches,
    spec_assoc_get_i64, str_items_match, str_items_ok, str_pairs_match, str_pairs_ok,
    string_or_int,
};
use crate::fixed::{format_fixed, spec_format_fixed, spec_parse_u64, parse_u64};
use crate::json::{
    json_array_get, json_array_len, json_get, json_model, json_of, json_parse, JsonVal,
};

verus! {

/// The response header that carries the remaining daily quota.
pub const XRL: &'static str = "x-ratelimit-remaining";

/// Pass this when a `forward_full` call needs no bounding box.
pub const NOBOX: Option<InputBounds> = None;

/// Optional tuning of a request.  An absent field is omitted from the query
/// entirely, never sent empty.
pub struct Parameters<'a> {
    pub language: Option<&'a str>,
    pub countrycode: Option<&'a str>,
    pub limit: Option<&'a str>,
}

/// The query pairs that a parameter set contributes, in `language`,
/// `countrycode`, `limit` order, absent fields contributing nothing.
pub open spec fn spec_params_query<'a>(p: Parameters<'a>) -> Seq<(Seq<char>, Seq<char>)> {
    (match p.language {
        Some(l) => seq![("language"@, l@)],
        None => Seq::empty(),
    }) + (match p.countrycode {
        Some(c) => seq![("countrycode"@, c@)],
        None => Seq::empty(),
    }) + (match p.limit {
        Some(l) => seq![("limit"@, l@)],
        None => Seq::empty(),
    })
}

/// The key and value views of a sequence of borrowed query pairs.
pub open spec fn str_pairs_view(q: Seq<(&str, &str)>) -> Seq<(Seq<char>, Seq<char>)> {
    q.map_values(|t: (&str, &str)| (t.0@, t.1@))
}

impl<'a> Parameters<'a> {
    /// The query pairs of the set parameters, in `language`, `countrycode`,
    /// `limit` order; an absent parameter is omitted entirely.
    pub fn as_query(&self) -> (q: Vec<(&'a str, &'a str)>)
        ensures
            str_pairs_view(q@) == spec_params_query(*self),
    {
        let mut q: Vec<(&'a str, &'a str)> = Vec::new();
        proof {
            assert(str_pairs_view(q@) =~~= Seq::<(Seq<char>, Seq<char>)>::empty());
        }
        match self.language {
            Some(l) => {
                q.push(("language", l));
            },
            None => {},
        }
        let ghost part1 = str_pairs_view(q@);
        proof {
            assert(part1 =~~= (match self.language {
                Some(l) => seq![("language"@, l@)],
                None => Seq::<(Seq<char>, Seq<char>)>::empty(),
            }));
        }
        match self.countrycode {
            Some(c) => {
                q.push(("countrycode", c));
            },
            None => {},
        }
        let ghost part2 = str_pairs_view(q@);
        proof {
            assert(part2 =~~= part1 + (match self.countrycode {
                Some(c) => seq![("countrycode"@, c@)],
                None => Seq::<(Seq<char>, Seq<char>)>::empty(),
            }));
        }
        match self.limit {
            Some(l) => {
                q.push(("limit", l));
            },
            None => {},
        }
        proof {
            assert(str_pairs_view(q@) =~~= part2 + (match self.limit {
                Some(l) => seq![("limit"@, l@)],
                None => Seq::<(Seq<char>, Seq<char>)>::empty(),
            }));
            assert(str_pairs_view(q@) =~~= spec_params_query(*self));
        }
        q
    }
}

impl<'a> Default for Parameters<'a> {
    /// No parameter set.
    fn default() -> (r: Parameters<'a>)
        ensures
            r.language is None,
            r.countrycode is None,
            r.limit is None,
    {
        Parameters { language: None, countrycode: None, limit: None }
    }
}

/// An instance of the OpenCage geocoding service: the API key, the
/// endpoint, the optional request parameters, and the last quota figure a
/// response header reported.  The HTTP round trip is the caller's.
pub struct Opencage<'a> {
    pub api_key: String,
    pub endpoint: String,
    pub parameters: Parameters<'a>,
    pub remaining: Option<u64>,
}

impl<'a> Opencage<'a> {
    /// A service instance over the default endpoint.  No call was made yet,
    /// so no quota figure is known.
    pub fn new(api_key: String) -> (r: Opencage<'a>)
        ensures
            r.api_key == api_key,
            r.endpoint@ == "https://api.opencagedata.com/geocode/v1/json"@,
            r.parameters.language is None,
            r.parameters.countrycode is None,
            r.parameters.limit is None,
            r.remaining is None,
    {
        Opencage {
            api_key,
            endpoint: String::from_str("https://api.opencagedata.com/geocode/v1/json"),
            parameters: Parameters::default(),
            remaining: None,
        }
    }

    /// The remaining daily quota, as of the last response that reported it;
    /// `None` before any did.
    pub fn remaining_calls(&self) -> (r: Option<u64>)
        ensures
            r == self.remaining,
    {
        self.remaining
    }

    /// Fold one response's rate-limit header into the client state: a header
    /// that reads as a number replaces the figure, anything else -- no
    /// header, or one that does not parse -- leaves it untouched.  This
    /// bookkeeping never fails the request it came from.
    pub fn observe_rate_limit(&mut self, header: Option<&str>)
        ensures
            final(self).api_key == old(self).api_key,
            final(self).endpoint == old(self).endpoint,
            final(self).parameters == old(self).parameters,
            final(self).remaining == (match header {
                Some(h) => match spec_parse_u64(h@) {
                    Some(n) => Some(n),
                    None => old(self).remaining,
                },
                None => old(self).remaining,
            }),
    {
        match header {
            Some(h) => {
                match parse_u64(h) {
                    Some(n) => {
                        self.remaining = Some(n);
                    },
                    None => {},
                }
            },
            None => {},
        }
    }

    /// The query pairs of a plain forward lookup: the place, the key, no
    /// annotations, no record, then the optional parameters.
    pub fn forward_query(&self, place: &str) -> (q: Vec<(String, String)>)
        ensures
            pairs_view(q@) == seq![
                ("q"@, place@),
                ("key"@, self.api_key@),
                ("no_annotations"@, "1"@),
                ("no_record"@, "1"@),
            ] + spec_params_query(self.parameters),
    {
        let mut q: Vec<(String, String)> = Vec::new();
        q.push((String::from_str("q"), String::from_str(place)));
        q.push((String::from_str("key"), self.api_key.clone()));
        q.push((String::from_str("no_annotations"), String::from_str("1")));
        q.push((String::from_str("no_record"), String::from_str("1")));
        let ghost head = pairs_view(q@);
        proof {
            assert(head =~~= seq![
                ("q"@, place@),
                ("key"@, self.api_key@),
                ("no_annotations"@, "1"@),
                ("no_record"@, "1"@),
            ]);
        }
        self.extend_params(&mut q);
        q
    }

    /// The query pairs of a plain reverse lookup: the point rendered as
    /// `"{lat}, {lon}"` -- the order this API expects -- the key, no
    /// annotations, no record, then the optional parameters.
    pub fn reverse_query(&self, point: &Point) -> (q: Vec<(String, String)>)
        requires
            point.x != i64::MIN,
            point.y != i64::MIN,
        ensures
            pairs_view(q@) == seq![
                ("q"@, spec_format_fixed(point.y as int) + ", "@ + spec_format_fixed(
                    point.x as int,
                )),
                ("key"@, self.api_key@),
                ("no_annotations"@, "1"@),
                ("no_record"@, "1"@),
            ] + spec_params_query(self.parameters),
    {
        let mut latlon = format_fixed(point.y);
        latlon.append(", ");
        latlon.append(format_fixed(point.x).as_str());
        let mut q: Vec<(String, String)> = Vec::new();
        q.push((String::from_str("q"), latlon));
        q.push((String::from_str("key"), self.api_key.clone()));
        q.push((String::from_str("no_annotations"), String::from_str("1")));
        q.push((String::from_str("no_record"), String::from_str("1")));
        let ghost head = pairs_view(q@);
        proof {
            assert(head =~~= seq![
                ("q"@, spec_format_fixed(point.y as int) + ", "@ + spec_format_fixed(
                    point.x as int,
                )),
                ("key"@, self.api_key@),
                ("no_annotations"@, "1"@),
                ("no_record"@, "1"@),
            ]);
        }
        self.extend_params(&mut q);
        q
    }

    /// The query pairs of an annotated forward lookup: as
    /// [`Self::forward_query`], but asking for annotations and restricted to
    /// `bounds` when one is given.
    pub fn forward_full_query(&self, place: &str, bounds: Option<InputBounds>) -> (q: Vec<
        (String, String),
    >)
        requires
            bounds matches Some(b) ==> crate::bounds_representable(b),
        ensures
            pairs_view(q@) == seq![
                ("q"@, place@),
                ("key"@, self.api_key@),
                ("no_annotations"@, "0"@),
                ("no_record"@, "1"@),
            ] + (match bounds {
                Some(b) => seq![("bounds"@, crate::spec_bbox_string(b))],
                None => Seq::<(Seq<char>, Seq<char>)>::empty(),
            }) + spec_params_query(self.parameters),
    {
        let mut q: Vec<(String, String)> = Vec::new();
        q.push((String::from_str("q"), String::from_str(place)));
        q.push((String::from_str("key"), self.api_key.clone()));
        q.push((String::from_str("no_annotations"), String::from_str("0")));
        q.push((String::from_str("no_record"), String::from_str("1")));
        let ghost head = pairs_view(q@);
        proof {
            assert(head =~~= seq![
                ("q"@, place@),
                ("key"@, self.api_key@),
                ("no_annotations"@, "0"@),
                ("no_record"@, "1"@),
            ]);
        }
        match bounds {
            Some(b) => {
                q.push((String::from_str("bounds"), b.bbox_string()));
            },
            None => {},
        }
        let ghost mid = pairs_view(q@);
        proof {
            assert(mid =~~= head + (match bounds {
                Some(b) => seq![("bounds"@, crate::spec_bbox_string(b))],
                None => Seq::<(Seq<char>, Seq<char>)>::empty(),
            }));
        }
        self.extend_params(&mut q);
        q
    }

    /// The query pairs of an annotated reverse lookup: as
    /// [`Self::reverse_query`], but asking for annotations.
    pub fn reverse_full_query(&self, point: &Point) -> (q: Vec<(String, String)>)
        requires
            point.x != i64::MIN,
            point.y != i64::MIN,
        ensures
            pairs_view(q@) == seq![
                ("q"@, spec_format_fixed(point.y as int) + ", "@ + spec_format_fixed(
                    point.x as int,
                )),
                ("key"@, self.api_key@),
                ("no_annotations"@, "0"@),
                ("no_record"@, "1"@),
            ] + spec_params_query(self.parameters),
    {
        let mut latlon = format_fixed(point.y);
        latlon.append(", ");
        latlon.append(format_fixed(point.x).as_str());
        let mut q: Vec<(String, String)> = Vec::new();
        q.push((String::from_str("q"), latlon));
        q.push((String::from_str("key"), self.api_key.clone()));
        q.push((String::from_str("no_annotations"), String::from_str("0")));
        q.push((String::from_str("no_record"), String::from_str("1")));
        let ghost head = pairs_view(q@);
        proof {
            assert(head =~~= seq![
                ("q"@, spec_format_fixed(point.y as int) + ", "@ + spec_format_fixed(
                    point.x as int,
                )),
                ("key"@, self.api_key@),
                ("no_annotations"@, "0"@),
                ("no_record"@, "1"@),
            ]);
        }
        self.extend_params(&mut q);
        q
    }

    /// Append the optional parameters to `q`, as owned pairs.
    fn extend_params(&self, q: &mut Vec<(String, String)>)
        ensures
            pairs_view(final(q)@) == pairs_view(old(q)@) + spec_params_query(self.parameters),
    {
        let ghost head = pairs_view(q@);
        match self.parameters.language {
            Some(l) => {
                q.push((String::from_str("language"), String::from_str(l)));
            },
            None => {},
        }
        let ghost part1 = pairs_view(q@);
        proof {
            assert(part1 =~~= head + (match self.parameters.language {
                Some(l) => seq![("language"@, l@)],
                None => Seq::<(Seq<char>, Seq<char>)>::empty(),
            }));
        }
        match self.parameters.countrycode {
            Some(c) => {
                q.push((String::from_str("countrycode"), String::from_str(c)));
            },
            None => {},
        }
        let ghost part2 = pairs_view(q@);
        proof {
            assert(part2 =~~= part1 + (match self.parameters.countrycode {
                Some(c) => seq![("countrycode"@, c@)],
                None => Seq::<(Seq<char>, Seq<char>)>::empty(),
            }));
        }
        match self.parameters.limit {
            Some(l) => {
                q.push((String::from_str("limit"), String::from_str(l)));
            },
            None => {},
        }
        proof {
            assert(pairs_view(q@) =~~= part2 + (match self.parameters.limit {
                Some(l) => seq![("limit"@, l@)],
                None => Seq::<(Seq<char>, Seq<char>)>::empty(),
            }));
            assert(pairs_view(q@) =~~= head + spec_params_query(self.parameters));
        }
    }
}

/// The top-level response of a forward- or reverse-geocoding request.
/// String-keyed JSON objects are carried as association lists;
/// `created_unix` is the timestamp in whole seconds.
#[derive(Debug)]
pub struct OpencageResponse {
    pub documentation: String,
    pub licenses: Vec<Vec<(String, String)>>,
    pub rate: Option<Vec<(String, i64)>>,
    pub results: Vec<Results>,
    pub status: Status,
    pub stay_informed: Vec<(String, String)>,
    pub thanks: String,
    pub timestamp: Timestamp,
    pub total_results: i32,
}

/// One geocoding result.  `geometry` holds the coordinate fields by name,
/// fixed-point in units of `10^-9`; decoding guarantees the `lng` and `lat`
/// entries are there, so every result maps to a point.
#[derive(Debug)]
pub struct Results {
    pub annotations: Option<Annotations>,
    pub bounds: Option<Bounds>,
    pub components: Vec<(String, String)>,
    pub confidence: i8,
    pub formatted: String,
    pub geometry: Vec<(String, i64)>,
}

/// Annotations of a geocoding result.  `qibla` is fixed-point in units of
/// `10^-9`.
#[derive(Debug)]
pub struct Annotations {
    pub dms: Option<Vec<(String, String)>>,
    pub mgrs: Option<String>,
    pub maidenhead: Option<String>,
    pub mercator: Option<Vec<(String, i64)>>,
    pub osm: Option<Vec<(String, String)>>,
    pub callingcode: i16,
    pub currency: Currency,
    pub flag: String,
    pub geohash: String,
    pub qibla: i64,
    pub sun: Sun,
    pub timezone: Timezone,
    pub what3words: Vec<(String, String)>,
}

/// Currency metadata.  `iso_numeric` arrives as either a string or an
/// integer and is normalized to a string.
#[derive(Clone, Debug)]
pub struct Currency {
    pub alternate_symbols: Option<Vec<String>>,
    pub decimal_mark: String,
    pub html_entity: String,
    pub iso_code: String,
    pub iso_numeric: String,
    pub name: String,
    pub smallest_denomination: i16,
    pub subunit: String,
    pub subunit_to_unit: i16,
    pub symbol: String,
    pub symbol_first: i16,
    pub thousands_separator: String,
}

/// Sunrise and sunset metadata, as timestamp entries.
#[derive(Clone, Debug)]
pub struct Sun {
    pub rise: Vec<(String, i64)>,
    pub set: Vec<(String, i64)>,
}

/// Timezone metadata.  Two fields arrive as either a string or an integer
/// and are normalized to strings.
#[derive(Clone, Debug)]
pub struct Timezone {
    pub name: String,
    pub now_in_dst: i16,
    pub offset_sec: i32,
    pub offset_string: String,
    pub short_name: String,
}

/// HTTP status metadata.
#[derive(Debug)]
pub struct Status {
    pub message: String,
    pub code: i16,
}

/// Timestamp metadata; `created_unix` in whole seconds.
#[derive(Debug)]
pub struct Timestamp {
    pub created_http: String,
    pub created_unix: i64,
}

/// Bounding-box metadata, each corner a mapping of coordinate fields,
/// fixed-point in units of `10^-9`.
#[derive(Clone, Debug)]
pub struct Bounds {
    pub northeast: Vec<(String, i64)>,
    pub southwest: Vec<(String, i64)>,
}

/// The number field of `m` under `k` as an `i16`, when it fits.
pub open spec fn jfield_i16(m: JsonVal, k: Seq<char>) -> Option<i16> {
    match jfield_i64(m, k) {
        Some(n) => {
            if i16::MIN <= n <= i16::MAX {
                Some(n as i16)
            } else {
                None
            }
        },
        None => None,
    }
}

/// The number field of `m` under `k` as an `i32`, when it fits.
pub open spec fn jfield_i32(m: JsonVal, k: Seq<char>) -> Option<i32> {
    match jfield_i64(m, k) {
        Some(n) => {
            if i32::MIN <= n <= i32::MAX {
                Some(n as i32)
            } else {
                None
            }
        },
        None => None,
    }
}

/// The number field of `m` under `k` as an `i8`, when it fits.
pub open spec fn jfield_i8(m: JsonVal, k: Seq<char>) -> Option<i8> {
    match jfield_i64(m, k) {
        Some(n) => {
            if i8::MIN <= n <= i8::MAX {
                Some(n as i8)
            } else {
                None
            }
        },
        None => None,
    }
}

fn get_i16(v: &serde_json::Value, key: &str) -> (r: Option<i16>)
    ensures
        r == jfield_i16(json_model(*v), key@),
{
    match get_i64(v, key) {
        Some(n) => {
            if i16::MIN as i64 <= n && n <= i16::MAX as i64 {
                Some(n as i16)
            } else {
                None
            }
        },
        None => None,
    }
}

fn get_string_list(v: &serde_json::Value, key: &str) -> (r: Option<Vec<String>>)
    ensures
        match r {
            Some(l) => (match jfield(json_model(*v), key@) {
                Some(am) => str_items_match(l@, am),
                None => false,
            }),
            None => !(match jfield(json_model(*v), key@) {
                Some(am) => str_items_ok(am),
                None => false,
            }),
        },
{
    match json_get(v, key) {
        Some(a) => crate::decode::string_items(a),
        None => None,
    }
}

/// Whether the document `m` carries every required currency field with the
/// right type, and well-typed alternate symbols when they are there.
pub open spec fn currency_shape_ok(m: JsonVal) -> bool {
    &&& match jfield(m, "alternate_symbols"@) {
        Some(am) => str_items_ok(am),
        None => true,
    }
    &&& jfield_str(m, "decimal_mark"@) is Some
    &&& jfield_str(m, "html_entity"@) is Some
    &&& jfield_str(m, "iso_code"@) is Some
    &&& jfield_str_or_int(m, "iso_numeric"@) is Some
    &&& jfield_str(m, "name"@) is Some
    &&& jfield_i16(m, "smallest_denomination"@) is Some
    &&& jfield_str(m, "subunit"@) is Some
    &&& jfield_i16(m, "subunit_to_unit"@) is Some
    &&& jfield_str(m, "symbol"@) is Some
    &&& jfield_i16(m, "symbol_first"@) is Some
    &&& jfield_str(m, "thousands_separator"@) is Some
}

/// Whether the decoded currency reads the document `m`; the ISO numeric
/// code is normalized from either a string or an integer.
pub open spec fn currency_matches(c: Currency, m: JsonVal) -> bool {
    &&& currency_shape_ok(m)
    &&& match (c.alternate_symbols, jfield(m, "alternate_symbols"@)) {
        (Some(l), Some(am)) => str_items_match(l@, am),
        (None, None) => true,
        _ => false,
    }
    &&& jfield_str(m, "decimal_mark"@) == Some(c.decimal_mark@)
    &&& jfield_str(m, "html_entity"@) == Some(c.html_entity@)
    &&& jfield_str(m, "iso_code"@) == Some(c.iso_code@)
    &&& jfield_str_or_int(m, "iso_numeric"@) == Some(c.iso_numeric@)
    &&& jfield_str(m, "name"@) == Some(c.name@)
    &&& jfield_i16(m, "smallest_denomination"@) == Some(c.smallest_denomination)
    &&& jfield_str(m, "subunit"@) == Some(c.subunit@)
    &&& jfield_i16(m, "subunit_to_unit"@) == Some(c.subunit_to_unit)
    &&& jfield_str(m, "symbol"@) == Some(c.symbol@)
    &&& jfield_i16(m, "symbol_first"@) == Some(c.symbol_first)
    &&& jfield_str(m, "thousands_separator"@) == Some(c.thousands_separator@)
}

fn decode_currency(v: &serde_json::Value) -> (r: Option<Currency>)
    ensures
        match r {
            Some(c) => currency_matches(c, json_model(*v)),
            None => !currency_shape_ok(json_model(*v)),
        },
{
    let alternate_symbols = match json_get(v, "alternate_symbols") {
        Some(_) => match get_string_list(v, "alternate_symbols") {
            Some(l) => Some(l),
            None => {
                return None;
            },
        },
        None => None,
    };
    let decimal_mark = match get_string(v, "decimal_mark") {
        Some(x) => x,
        None => {
            return None;
        },
    };
    let html_entity = match get_string(v, "html_entity") {
        Some(x) => x,
        None => {
            return None;
        },
    };
    let iso_code = match get_string(v, "iso_code") {
        Some(x) => x,
        None => {
            return None;
        },
    };
    let iso_numeric = match string_or_int(v, "iso_numeric") {
        Some(x) => x,
        None => {
            return None;
        },
    };
    let name = match get_string(v, "name") {
        Some(x) => x,
        None => {
            return None;
        },
    };
    let smallest_denomination = match get_i16(v, "smallest_denomination") {
        Some(x) => x,
        None => {
            return None;
        },
    };
    let subunit = match get_string(v, "subunit") {
        Some(x) => x,
        None => {
            return None;
        },
    };
    let subunit_to_unit = match get_i16(v, "subunit_to_unit") {
        Some(x) => x,
        None => {
            return None;
        },
    };
    let symbol = match get_string(v, "symbol") {
        Some(x) => x,
        None => {
            return None;
        },
    };
    let symbol_first = match get_i16(v, "symbol_first") {
        Some(x) => x,
        None => {
            return None;
        },
    };
    let thousands_separator = match get_string(v, "thousands_separator") {
        Some(x) => x,
        None => {
            return None;
        },
    };
    Some(
        Currency {
            alternate_symbols,
            decimal_mark,
            html_entity,
            iso_code,
            iso_numeric,
            name,
            smallest_denomination,
            subunit,
            subunit_to_unit,
            symbol,
            symbol_first,
            thousands_separator,
        },
    )
}

/// Whether the document `m` is sun metadata: timestamp mappings under
/// `rise` and `set`.
pub open spec fn sun_shape_ok(m: JsonVal) -> bool {
    &&& match jfield(m, "rise"@) {
        Some(rm) => i64_pairs_ok(rm),
        None => false,
    }
    &&& match jfield(m, "set"@) {
        Some(sm) => i64_pairs_ok(sm),
        None => false,
    }
}

/// Whether the decoded sun metadata reads the document `m`.
pub open spec fn sun_matches(s: Sun, m: JsonVal) -> bool {
    &&& sun_shape_ok(m)
    &&& match jfield(m, "rise"@) {
        Some(rm) => i64_pairs_match(s.rise@, rm),
        None => false,
    }
    &&& match jfield(m, "set"@) {
        Some(sm) => i64_pairs_match(s.set@, sm),
        None => false,
    }
}

fn decode_sun(v: &serde_json::Value) -> (r: Option<Sun>)
    ensures
        match r {
            Some(s) => sun_matches(s, json_model(*v)),
            None => !sun_shape_ok(json_model(*v)),
        },
{
    let rise = match json_get(v, "rise") {
        Some(r) => match object_i64_pairs(r) {
            Some(p) => p,
            None => {
                return None;
            },
        },
        None => {
            return None;
        },
    };
    let set = match json_get(v, "set") {
        Some(s) => match object_i64_pairs(s) {
            Some(p) => p,
            None => {
                return None;
            },
        },
        None => {
            return None;
        },
    };
    Some(Sun { rise, set })
}

/// Whether the document `m` carries every required timezone field with the
/// right type.
pub open spec fn timezone_shape_ok(m: JsonVal) -> bool {
    &&& jfield_str(m, "name"@) is Some
    &&& jfield_i16(m, "now_in_dst"@) is Some
    &&& jfield_i32(m, "offset_sec"@) is Some
    &&& jfield_str_or_int(m, "offset_string"@) is Some
    &&& jfield_str_or_int(m, "short_name"@) is Some
}

/// Whether the decoded timezone reads the document `m`; two fields are
/// normalized from either a string or an integer.
pub open spec fn timezone_matches(t: Timezone, m: JsonVal) -> bool {
    &&& timezone_shape_ok(m)
    &&& jfield_str(m, "name"@) == Some(t.name@)
    &&& jfield_i16(m, "now_in_dst"@) == Some(t.now_in_dst)
    &&& jfield_i32(m, "offset_sec"@) == Some(t.offset_sec)
    &&& jfield_str_or_int(m, "offset_string"@) == Some(t.offset_string@)
    &&& jfield_str_or_int(m, "short_name"@) == Some(t.short_name@)
}

fn decode_timezone(v: &serde_json::Value) -> (r: Option<Timezone>)
    ensures
        match r {
            Some(t) => timezone_matches(t, json_model(*v)),
            None => !timezone_shape_ok(json_model(*v)),
        },
{
    let name = match get_string(v, "name") {
        Some(x) => x,
        None => {
            return None;
        },
    };
    let now_in_dst = match get_i16(v, "now_in_dst") {
        Some(x) => x,
        None => {
            return None;
        },
    };
    let offset_sec = match get_i64(v, "offset_sec") {
        Some(n) => {
            if i32::MIN as i64 <= n && n <= i32::MAX as i64 {
                n as i32
            } else {
                return None;
            }
        },
        None => {
            return None;
        },
    };
    let offset_string = match string_or_int(v, "offset_string") {
        Some(x) => x,
        None => {
            return None;
        },
    };
    let short_name = match string_or_int(v, "short_name") {
        Some(x) => x,
        None => {
            return None;
        },
    };
    Some(Timezone { name, now_in_dst, offset_sec, offset_string, short_name })
}

/// Whether an optional decoded string reads an optional string field that
/// must be a string when it is there.
pub open spec fn opt_str_field_ok(m: JsonVal, k: Seq<char>) -> bool {
    match jfield(m, k) {
        Some(_) => jfield_str(m, k) is Some,
        None => true,
    }
}

/// Whether the document `m` carries every required annotation field with
/// the right type, and well-typed optional ones where they are there.
pub open spec fn annotations_shape_ok(m: JsonVal) -> bool {
    &&& match jfield(m, "dms"@) {
        Some(dm) => str_pairs_ok(dm),
        None => true,
    }
    &&& opt_str_field_ok(m, "mgrs"@)
    &&& opt_str_field_ok(m, "maidenhead"@)
    &&& match jfield(m, "mercator"@) {
        Some(mm) => coord_pairs_ok(mm),
        None => true,
    }
    &&& match jfield(m, "osm"@) {
        Some(om) => str_pairs_ok(om),
        None => true,
    }
    &&& jfield_i16(m, "callingcode"@) is Some
    &&& match jfield(m, "currency"@) {
        Some(cm) => currency_shape_ok(cm),
        None => false,
    }
    &&& jfield_str(m, "flag"@) is Some
    &&& jfield_str(m, "geohash"@) is Some
    &&& jfield_coord(m, "qibla"@) is Some
    &&& match jfield(m, "sun"@) {
        Some(sm) => sun_shape_ok(sm),
        None => false,
    }
    &&& match jfield(m, "timezone"@) {
        Some(tm) => timezone_shape_ok(tm),
        None => false,
    }
    &&& match jfield(m, "what3words"@) {
        Some(wm) => str_pairs_ok(wm),
        None => false,
    }
}

/// Whether the decoded annotations read the document `m`.
pub open spec fn annotations_matches(a: Annotations, m: JsonVal) -> bool {
    &&& annotations_shape_ok(m)
    &&& match (a.dms, jfield(m, "dms"@)) {
        (Some(ps), Some(dm)) => str_pairs_match(ps@, dm),
        (None, None) => true,
        _ => false,
    }
    &&& opt_str_matches(a.mgrs, jfield_str(m, "mgrs"@))
    &&& opt_str_matches(a.maidenhead, jfield_str(m, "maidenhead"@))
    &&& match (a.mercator, jfield(m, "mercator"@)) {
        (Some(ps), Some(mm)) => coord_pairs_match(ps@, mm),
        (None, None) => true,
        _ => false,
    }
    &&& match (a.osm, jfield(m, "osm"@)) {
        (Some(ps), Some(om)) => str_pairs_match(ps@, om),
        (None, None) => true,
        _ => false,
    }
    &&& jfield_i16(m, "callingcode"@) == Some(a.callingcode)
    &&& match jfield(m, "currency"@) {
        Some(cm) => currency_matches(a.currency, cm),
        None => false,
    }
    &&& jfield_str(m, "flag"@) == Some(a.flag@)
    &&& jfield_str(m, "geohash"@) == Some(a.geohash@)
    &&& jfield_coord(m, "qibla"@) == Some(a.qibla)
    &&& match jfield(m, "sun"@) {
        Some(sm) => sun_matches(a.sun, sm),
        None => false,
    }
    &&& match jfield(m, "timezone"@) {
        Some(tm) => timezone_matches(a.timezone, tm),
        None => false,
    }
    &&& match jfield(m, "what3words"@) {
        Some(wm) => str_pairs_match(a.what3words@, wm),
        None => false,
    }
}

#[verifier::rlimit(60)]
fn decode_annotations(v: &serde_json::Value) -> (r: Option<Annotations>)
    ensures
        match r {
            Some(a) => annotations_matches(a, json_model(*v)),
            None => !annotations_shape_ok(json_model(*v)),
        },
{
    let dms = match json_get(v, "dms") {
        Some(d) => match object_string_pairs(d) {
            Some(p) => Some(p),
            None => {
                return None;
            },
        },
        None => None,
    };
    let mgrs = match json_get(v, "mgrs") {
        Some(mv) => match crate::json::json_str(mv) {
            Some(s) => Some(s),
            None => {
                return None;
            },
        },
        None => None,
    };
    let maidenhead = match json_get(v, "maidenhead") {
        Some(mv) => match crate::json::json_str(mv) {
            Some(s) => Some(s),
            None => {
                return None;
            },
        },
        None => None,
    };
    let mercator = match json_get(v, "mercator") {
        Some(mv) => match object_coord_pairs(mv) {
            Some(p) => Some(p),
            None => {
                return None;
            },
        },
        None => None,
    };
    let osm = match json_get(v, "osm") {
        Some(o) => match object_string_pairs(o) {
            Some(p) => Some(p),
            None => {
                return None;
            },
        },
        None => None,
    };
    let callingcode = match get_i16(v, "callingcode") {
        Some(x) => x,
        None => {
            return None;
        },
    };
    let currency = match json_get(v, "currency") {
        Some(c) => match decode_currency(c) {
            Some(c) => c,
            None => {
                return None;
            },
        },
        None => {
            return None;
        },
    };
    let flag = match get_string(v, "flag") {
        Some(x) => x,
        None => {
            return None;
        },
    };
    let geohash = match get_string(v, "geohash") {
        Some(x) => x,
        None => {
            return None;
        },
    };
    let qibla = match crate::decode::get_coord(v, "qibla") {
        Some(x) => x,
        None => {
            return None;
        },
    };
    let sun = match json_get(v, "sun") {
        Some(s) => match decode_sun(s) {
            Some(s) => s,
            None => {
                return None;
            },
        },
        None => {
            return None;
        },
    };
    let timezone = match json_get(v, "timezone") {
        Some(t) => match decode_timezone(t) {
            Some(t) => t,
            None => {
                return None;
            },
        },
        None => {
            return None;
        },
    };
    let what3words = match json_get(v, "what3words") {
        Some(w) => match object_string_pairs(w) {
            Some(p) => p,
            None => {
                return None;
            },
        },
        None => {
            return None;
        },
    };
    Some(
        Annotations {
            dms,
            mgrs,
            maidenhead,
            mercator,
            osm,
            callingcode,
            currency,
            flag,
            geohash,
            qibla,
            sun,
            timezone,
            what3words,
        },
    )
}

/// Whether the document `m` is bounding-box metadata: coordinate mappings
/// under `northeast` and `southwest`.
pub open spec fn bounds_shape_ok(m: JsonVal) -> bool {
    &&& match jfield(m, "northeast"@) {
        Some(nm) => coord_pairs_ok(nm),
        None => false,
    }
    &&& match jfield(m, "southwest"@) {
        Some(sm) => coord_pairs_ok(sm),
        None => false,
    }
}

/// Whether the decoded bounding-box metadata reads the document `m`.
pub open spec fn bounds_matches(b: Bounds, m: JsonVal) -> bool {
    &&& bounds_shape_ok(m)
    &&& match jfield(m, "northeast"@) {
        Some(nm) => coord_pairs_match(b.northeast@, nm),
        None => false,
    }
    &&& match jfield(m, "southwest"@) {
        Some(sm) => coord_pairs_match(b.southwest@, sm),
        None => false,
    }
}

fn decode_bounds(v: &serde_json::Value) -> (r: Option<Bounds>)
    ensures
        match r {
            Some(b) => bounds_matches(b, json_model(*v)),
            None => !bounds_shape_ok(json_model(*v)),
        },
{
    let northeast = match json_get(v, "northeast") {
        Some(c) => match object_coord_pairs(c) {
            Some(p) => p,
            None => {
                return None;
            },
        },
        None => {
            return None;
        },
    };
    let southwest = match json_get(v, "southwest") {
        Some(c) => match object_coord_pairs(c) {
            Some(p) => p,
            None => {
                return None;
            },
        },
        None => {
            return None;
        },
    };
    Some(Bounds { northeast, southwest })
}

/// Whether a result's geometry carries both coordinate fields, so that the
/// forward mapping can read them.
pub open spec fn results_wf(r: Results) -> bool {
    &&& spec_assoc_get_i64(r.geometry@, "lng"@) is Some
    &&& spec_assoc_get_i64(r.geometry@, "lat"@) is Some
}

/// Whether the document `m` is a result: well-shaped optional annotations
/// and bounds, string components, a confidence that fits, a formatted
/// address, and a geometry mapping that carries both coordinate fields.
pub open spec fn result_shape_ok(m: JsonVal) -> bool {
    &&& match jfield(m, "annotations"@) {
        Some(am) => annotations_shape_ok(am),
        None => true,
    }
    &&& match jfield(m, "bounds"@) {
        Some(bm) => bounds_shape_ok(bm),
        None => true,
    }
    &&& match jfield(m, "components"@) {
        Some(cm) => str_pairs_ok(cm),
        None => false,
    }
    &&& jfield_i8(m, "confidence"@) is Some
    &&& jfield_str(m, "formatted"@) is Some
    &&& match jfield(m, "geometry"@) {
        Some(gm) => coord_pairs_ok(gm) && jfield_coord(gm, "lng"@) is Some && jfield_coord(
            gm,
            "lat"@,
        ) is Some,
        None => false,
    }
}

/// Whether the decoded result reads the document `m`.
pub open spec fn result_matches(res: Results, m: JsonVal) -> bool {
    &&& result_shape_ok(m)
    &&& match (res.annotations, jfield(m, "annotations"@)) {
        (Some(a), Some(am)) => annotations_matches(a, am),
        (None, None) => true,
        _ => false,
    }
    &&& match (res.bounds, jfield(m, "bounds"@)) {
        (Some(b), Some(bm)) => bounds_matches(b, bm),
        (None, None) => true,
        _ => false,
    }
    &&& match jfield(m, "components"@) {
        Some(cm) => str_pairs_match(res.components@, cm),
        None => false,
    }
    &&& jfield_i8(m, "confidence"@) == Some(res.confidence)
    &&& jfield_str(m, "formatted"@) == Some(res.formatted@)
    &&& match jfield(m, "geometry"@) {
        Some(gm) => coord_pairs_match(res.geometry@, gm),
        None => false,
    }
}

#[verifier::rlimit(60)]
fn decode_result(v: &serde_json::Value) -> (r: Option<Results>)
    ensures
        match r {
            Some(res) => result_matches(res, json_model(*v)) && results_wf(res),
            None => !result_shape_ok(json_model(*v)),
        },
{
    let annotations = match json_get(v, "annotations") {
        Some(a) => match decode_annotations(a) {
            Some(a) => Some(a),
            None => {
                return None;
            },
        },
        None => None,
    };
    let bounds = match json_get(v, "bounds") {
        Some(b) => match decode_bounds(b) {
            Some(b) => Some(b),
            None => {
                return None;
            },
        },
        None => None,
    };
    let components = match json_get(v, "components") {
        Some(c) => match object_string_pairs(c) {
            Some(p) => p,
            None => {
                return None;
            },
        },
        None => {
            return None;
        },
    };
    let confidence = match get_i64(v, "confidence") {
        Some(n) => {
            if i8::MIN as i64 <= n && n <= i8::MAX as i64 {
                n as i8
            } else {
                return None;
            }
        },
        None => {
            return None;
        },
    };
    let formatted = match get_string(v, "formatted") {
        Some(x) => x,
        None => {
            return None;
        },
    };
    let geometry = match json_get(v, "geometry") {
        Some(g) => match object_coord_pairs(g) {
            Some(p) => p,
            None => {
                return None;
            },
        },
        None => {
            return None;
        },
    };
    // A result must be mappable to a point in uniform order: both
    // coordinate fields have to be there.
    match assoc_get_i64(&geometry, "lng") {
        Some(_) => {},
        None => {
            return None;
        },
    }
    match assoc_get_i64(&geometry, "lat") {
        Some(_) => {},
        None => {
            return None;
        },
    }
    Some(Results { annotations, bounds, components, confidence, formatted, geometry })
}

/// Whether the document `m` is a whole response: every required field with
/// the right type, and an array of well-shaped results.
pub open spec fn response_shape_ok(m: JsonVal) -> bool {
    &&& jfield_str(m, "documentation"@) is Some
    &&& match jfield(m, "licenses"@) {
        Some(lm) => lm matches JsonVal::Arr(a) && forall|i: int|
            0 <= i < a.len() ==> str_pairs_ok(#[trigger] a[i]),
        None => false,
    }
    &&& match jfield(m, "rate"@) {
        Some(rm) => i64_pairs_ok(rm),
        None => true,
    }
    &&& match jfield(m, "results"@) {
        Some(rm) => rm matches JsonVal::Arr(a) && forall|i: int|
            0 <= i < a.len() ==> result_shape_ok(#[trigger] a[i]),
        None => false,
    }
    &&& match jfield(m, "status"@) {
        Some(sm) => jfield_str(sm, "message"@) is Some && jfield_i16(sm, "code"@) is Some,
        None => false,
    }
    &&& match jfield(m, "stay_informed"@) {
        Some(sm) => str_pairs_ok(sm),
        None => false,
    }
    &&& jfield_str(m, "thanks"@) is Some
    &&& match jfield(m, "timestamp"@) {
        Some(tm) => jfield_str(tm, "created_http"@) is Some && jfield_i64(
            tm,
            "created_unix"@,
        ) is Some,
        None => false,
    }
    &&& jfield_i32(m, "total_results"@) is Some
}

/// Whether the decoded response reads the document `m`, result by result
/// and in order.
pub open spec fn response_matches(resp: OpencageResponse, m: JsonVal) -> bool {
    &&& response_shape_ok(m)
    &&& jfield_str(m, "documentation"@) == Some(resp.documentation@)
    &&& match jfield(m, "licenses"@) {
        Some(lm) => lm matches JsonVal::Arr(a) && resp.licenses@.len() == a.len() && forall|i: int|
            0 <= i < a.len() ==> str_pairs_match(#[trigger] resp.licenses@[i]@, a[i]),
        None => false,
    }
    &&& match (resp.rate, jfield(m, "rate"@)) {
        (Some(ps), Some(rm)) => i64_pairs_match(ps@, rm),
        (None, None) => true,
        _ => false,
    }
    &&& match jfield(m, "results"@) {
        Some(rm) => rm matches JsonVal::Arr(a) && resp.results@.len() == a.len() && forall|i: int|
            0 <= i < a.len() ==> result_matches(#[trigger] resp.results@[i], a[i]),
        None => false,
    }
    &&& match jfield(m, "status"@) {
        Some(sm) => jfield_str(sm, "message"@) == Some(resp.status.message@) && jfield_i16(
            sm,
            "code"@,
        ) == Some(resp.status.code),
        None => false,
    }
    &&& match jfield(m, "stay_informed"@) {
        Some(sm) => str_pairs_match(resp.stay_informed@, sm),
        None => false,
    }
    &&& jfield_str(m, "thanks"@) == Some(resp.thanks@)
    &&& match jfield(m, "timestamp"@) {
        Some(tm) => jfield_str(tm, "created_http"@) == Some(resp.timestamp.created_http@)
            && jfield_i64(tm, "created_unix"@) == Some(resp.timestamp.created_unix),
        None => false,
    }
    &&& jfield_i32(m, "total_results"@) == Some(resp.total_results)
}

/// Decode a response body of the geocoding endpoint.  The body decodes
/// exactly when it is JSON whose document is a well-shaped response; what
/// comes back reads that document, and every result of it carries both
/// coordinate fields.  Anything else is the decode error kind: a malformed
/// body or a missing or mistyped required field.
#[verifier::rlimit(100)]
#[verifier::spinoff_prover]
pub fn parse_response(body: &str) -> (r: Result<OpencageResponse, GeocodingError>)
    ensures
        match r {
            Ok(resp) => json_of(body@) matches Some(doc) && response_matches(resp, doc) && forall|
                i: int,
            | 0 <= i < resp.results@.len() ==> results_wf(#[trigger] resp.results@[i]),
            Err(e) => e is Decode && (match json_of(body@) {
                Some(doc) => !response_shape_ok(doc),
                None => true,
            }),
        },
{
    let root = match json_parse(body) {
        Ok(v) => v,
        Err(msg) => {
            return Err(GeocodingError::Decode(msg));
        },
    };
    let ghost doc = json_model(*&root);
    let documentation = match get_string(&root, "documentation") {
        Some(x) => x,
        None => {
            return Err(GeocodingError::Decode(String::from_str("documentation")));
        },
    };
    let lic = match json_get(&root, "licenses") {
        Some(l) => l,
        None => {
            return Err(GeocodingError::Decode(String::from_str("licenses")));
        },
    };
    let ghost lm = json_model(*lic);
    let lic_len = match json_array_len(lic) {
        Some(l) => l,
        None => {
            return Err(GeocodingError::Decode(String::from_str("licenses")));
        },
    };
    let ghost la = lm->Arr_0;
    proof {
        assert(lm matches JsonVal::Arr(aa) && lic_len == aa.len());
        assert(jfield(doc, "licenses"@) == Some(lm));
    }
    let mut licenses: Vec<Vec<(String, String)>> = Vec::new();
    let mut i: usize = 0;
    while i < lic_len
        invariant
            json_of(body@) == Some(doc),
            jfield(doc, "licenses"@) == Some(lm),
            lm == json_model(*lic),
            lm matches JsonVal::Arr(aa) && aa == la,
            lic_len == la.len(),
            0 <= i <= lic_len,
            licenses@.len() == i,
            forall|j: int| 0 <= j < i ==> str_pairs_match(#[trigger] licenses@[j]@, la[j]),
        decreases lic_len - i,
    {
        let entry = match json_array_get(lic, i) {
            Some(e) => match object_string_pairs(e) {
                Some(p) => p,
                None => {
                    proof {
                        assert(!response_shape_ok(doc)) by {
                            if response_shape_ok(doc) {
                                assert(str_pairs_ok(la[i as int]));
                            }
                        };
                    }
                    return Err(GeocodingError::Decode(String::from_str("licenses")));
                },
            },
            None => {
                proof {
                    assert(false);
                }
                return Err(GeocodingError::Decode(String::from_str("licenses")));
            },
        };
        licenses.push(entry);
        i = i + 1;
    }
    let rate = match json_get(&root, "rate") {
        Some(rv) => match object_i64_pairs(rv) {
            Some(p) => Some(p),
            None => {
                return Err(GeocodingError::Decode(String::from_str("rate")));
            },
        },
        None => None,
    };
    let rs = match json_get(&root, "results") {
        Some(r) => r,
        None => {
            return Err(GeocodingError::Decode(String::from_str("results")));
        },
    };
    let ghost rm = json_model(*rs);
    let rs_len = match json_array_len(rs) {
        Some(l) => l,
        None => {
            return Err(GeocodingError::Decode(String::from_str("results")));
        },
    };
    let ghost ra = rm->Arr_0;
    proof {
        assert(rm matches JsonVal::Arr(aa) && rs_len == aa.len());
        assert(jfield(doc, "results"@) == Some(rm));
    }
    let mut results: Vec<Results> = Vec::new();
    let mut j: usize = 0;
    while j < rs_len
        invariant
            json_of(body@) == Some(doc),
            jfield(doc, "results"@) == Some(rm),
            rm == json_model(*rs),
            rm matches JsonVal::Arr(aa) && aa == ra,
            rs_len == ra.len(),
            0 <= j <= rs_len,
            results@.len() == j,
            forall|k: int| 0 <= k < j ==> result_matches(#[trigger] results@[k], ra[k]),
            forall|k: int| 0 <= k < j ==> results_wf(#[trigger] results@[k]),
        decreases rs_len - j,
    {
        let rv = match json_array_get(rs, j) {
            Some(e) => e,
            None => {
                proof {
                    assert(false);
                }
                return Err(GeocodingError::Decode(String::from_str("results")));
            },
        };
        let result = match decode_result(rv) {
            Some(r) => r,
            None => {
                proof {
                    assert(!response_shape_ok(doc)) by {
                        if response_shape_ok(doc) {
                            assert(result_shape_ok(ra[j as int]));
                        }
                    };
                }
                return Err(GeocodingError::Decode(String::from_str("results")));
            },
        };
        results.push(result);
        j = j + 1;
    }
    let status = match json_get(&root, "status") {
        Some(sv) => {
            let message = match get_string(sv, "message") {
                Some(m) => m,
                None => {
                    return Err(GeocodingError::Decode(String::from_str("status")));
                },
            };
            let code = match get_i16(sv, "code") {
                Some(c) => c,
                None => {
                    return Err(GeocodingError::Decode(String::from_str("status")));
                },
            };
            Status { message, code }
        },
        None => {
            return Err(GeocodingError::Decode(String::from_str("status")));
        },
    };
    let stay_informed = match json_get(&root, "stay_informed") {
        Some(s) => match object_string_pairs(s) {
            Some(p) => p,
            None => {
                return Err(GeocodingError::Decode(String::from_str("stay_informed")));
            },
        },
        None => {
            return Err(GeocodingError::Decode(String::from_str("stay_informed")));
        },
    };
    let thanks = match get_string(&root, "thanks") {
        Some(t) => t,
        None => {
            return Err(GeocodingError::Decode(String::from_str("thanks")));
        },
    };
    let timestamp = match json_get(&root, "timestamp") {
        Some(tv) => {
            let created_http = match get_string(tv, "created_http") {
                Some(c) => c,
                None => {
                    return Err(GeocodingError::Decode(String::from_str("timestamp")));
                },
            };
            let created_unix = match get_i64(tv, "created_unix") {
                Some(c) => c,
                None => {
                    return Err(GeocodingError::Decode(String::from_str("timestamp")));
                },
            };
            Timestamp { created_http, created_unix }
        },
        None => {
            return Err(GeocodingError::Decode(String::from_str("timestamp")));
        },
    };
    let total_results = match get_i64(&root, "total_results") {
        Some(n) => {
            if i32::MIN as i64 <= n && n <= i32::MAX as i64 {
                n as i32
            } else {
                return Err(GeocodingError::Decode(String::from_str("total_results")));
            }
        },
        None => {
            return Err(GeocodingError::Decode(String::from_str("total_results")));
        },
    };
    let resp = OpencageResponse {
        documentation,
        licenses,
        rate,
        results,
        status,
        stay_informed,
        thanks,
        timestamp,
        total_results,
    };
    proof {
        assert forall|k: int| 0 <= k < la.len() implies str_pairs_ok(#[trigger] la[k]) by {
            assert(str_pairs_match(resp.licenses@[k]@, la[k]));
        };
        assert forall|k: int| 0 <= k < ra.len() implies result_shape_ok(#[trigger] ra[k]) by {
            assert(result_matches(resp.results@[k], ra[k]));
        };
        assert(response_shape_ok(doc));
        assert(response_matches(resp, doc));
    }
    Ok(resp)
}

/// Whether `pts` reads, in order, exactly the `lng` and `lat` fields of each
/// result's geometry, emitted in uniform `(lon, lat)` order.
pub open spec fn points_match(results: Seq<Results>, pts: Seq<Point>) -> bool {
    &&& pts.len() == results.len()
    &&& forall|i: int|
        0 <= i < pts.len() ==> {
            &&& spec_assoc_get_i64(#[trigger] results[i].geometry@, "lng"@) == Some(pts[i].x)
            &&& spec_assoc_get_i64(results[i].geometry@, "lat"@) == Some(pts[i].y)
        }
}

/// Map a decoded response onto the uniform forward contract: one point per
/// result, in the response's order, each read from the geometry's `lng` and
/// `lat` fields into `(lon, lat)` order.  An empty result list maps to an
/// empty sequence.
pub fn forward_points(resp: &OpencageResponse) -> (pts: Vec<Point>)
    requires
        forall|i: int| 0 <= i < resp.results@.len() ==> results_wf(#[trigger] resp.results@[i]),
    ensures
        points_match(resp.results@, pts@),
{
    let mut pts: Vec<Point> = Vec::new();
    let mut i: usize = 0;
    while i < resp.results.len()
        invariant
            forall|k: int| 0 <= k < resp.results@.len() ==> results_wf(
                #[trigger] resp.results@[k],
            ),
            0 <= i <= resp.results@.len(),
            pts@.len() == i,
            forall|j: int|
                0 <= j < i ==> {
                    &&& spec_assoc_get_i64(#[trigger] resp.results@[j].geometry@, "lng"@) == Some(
                        pts@[j].x,
                    )
                    &&& spec_assoc_get_i64(resp.results@[j].geometry@, "lat"@) == Some(pts@[j].y)
                },
        decreases resp.results@.len() - i,
    {
        let geometry = &resp.results[i].geometry;
        let lng = match assoc_get_i64(geometry, "lng") {
            Some(x) => x,
            None => {
                proof {
                    assert(results_wf(resp.results@[i as int]));
                    assert(false);
                }
                0
            },
        };
        let lat = match assoc_get_i64(geometry, "lat") {
            Some(y) => y,
            None => {
                proof {
                    assert(results_wf(resp.results@[i as int]));
                    assert(false);
                }
                0
            },
        };
        pts.push(Point { x: lng, y: lat });
        i = i + 1;
    }
    pts
}

/// Map a decoded response onto the uniform reverse contract: the first
/// result's formatted address, or absence -- distinct from any error --
/// when the provider matched nothing.
pub fn reverse_display(resp: &OpencageResponse) -> (r: Option<String>)
    ensures
        resp.results@.len() == 0 <==> r is None,
        r matches Some(s) ==> s@ == resp.results@[0].formatted@,
{
    if resp.results.len() > 0 {
        Some(resp.results[0].formatted.clone())
    } else {
        None
    }
}

/// The point a well-shaped result document maps to: the `lng` and `lat`
/// fields of its geometry, in `(lon, lat)` order.
pub open spec fn result_doc_point(rm: JsonVal) -> Point {
    let gm = jfield(rm, "geometry"@)->Some_0;
    Point { x: jfield_coord(gm, "lng"@)->Some_0, y: jfield_coord(gm, "lat"@)->Some_0 }
}

/// The result array of a well-shaped response document.
pub open spec fn response_results(doc: JsonVal) -> Seq<JsonVal> {
    jfield(doc, "results"@)->Some_0->Arr_0
}

/// Decode a forward response body and map every result to a point: the
/// lookup succeeds exactly when the body decodes, and then hands back one
/// point per result of the document, in order.  A body with zero results
/// yields `Ok` of an empty sequence.
pub fn forward_from_body(body: &str) -> (r: Result<Vec<Point>, GeocodingError>)
    ensures
        match r {
            Ok(pts) => json_of(body@) matches Some(doc) && response_shape_ok(doc) && {
                &&& pts@.len() == response_results(doc).len()
                &&& forall|i: int|
                    0 <= i < pts@.len() ==> #[trigger] pts@[i] == result_doc_point(
                        response_results(doc)[i],
                    )
            },
            Err(e) => e is Decode && (match json_of(body@) {
                Some(doc) => !response_shape_ok(doc),
                None => true,
            }),
        },
{
    match parse_response(body) {
        Ok(resp) => {
            let pts = forward_points(&resp);
            proof {
                let doc = json_of(body@)->Some_0;
                let ra = response_results(doc);
                assert forall|i: int| 0 <= i < pts@.len() implies #[trigger] pts@[i]
                    == result_doc_point(ra[i]) by {
                    assert(result_matches(resp.results@[i], ra[i]));
                };
            }
            Ok(pts)
        },
        Err(e) => Err(e),
    }
}

/// Decode a reverse response body and take the first result's formatted
/// address: the lookup succeeds exactly when the body decodes, hands back
/// the document's first formatted address when there is a result, and
/// absence -- distinct from any error -- when there is none.
pub fn reverse_from_body(body: &str) -> (r: Result<Option<String>, GeocodingError>)
    ensures
        match r {
            Ok(o) => json_of(body@) matches Some(doc) && response_shape_ok(doc) && (match o {
                Some(s) => response_results(doc).len() > 0 && jfield_str(
                    response_results(doc)[0],
                    "formatted"@,
                ) == Some(s@),
                None => response_results(doc).len() == 0,
            }),
            Err(e) => e is Decode && (match json_of(body@) {
                Some(doc) => !response_shape_ok(doc),
                None => true,
            }),
        },
{
    match parse_response(body) {
        Ok(resp) => {
            let r = reverse_display(&resp);
            proof {
                let doc = json_of(body@)->Some_0;
                let ra = response_results(doc);
                if resp.results@.len() > 0 {
                    assert(result_matches(resp.results@[0], ra[0]));
                }
            }
            Ok(r)
        },
        Err(e) => Err(e),
    }
}

} // verus!
