//! Forward and reverse geocoding against three public services.
//!
//! Each provider module exposes the same shape of interface: functions that
//! build the query string for a request, and functions that decode a response
//! body and map it onto the uniform contract -- a list of [`Point`]s for a
//! forward lookup, an optional display string for a reverse lookup.  The HTTP
//! round trip itself is left to the caller, so that everything here is a pure
//! computation from plain values to plain values.
//!
//! ### Coordinate representation
//!
//! Coordinates are carried as 64-bit fixed-point numbers with nine decimal
//! places: a [`Point`] component holds the coordinate value multiplied by
//! `10^9` (one nanodegree, or a nanometre for planar grids).  That is finer
//! than any geocoding service resolves, and it lets every computation in this
//! crate be exact integer arithmetic.  The [`fixed`] module converts between
//! this representation and the decimal strings that appear on the wire.
//!
//! ### Coordinate order
//!
//! Whatever order a provider uses internally, a [`Point`] is always given and
//! returned in `(longitude, latitude)` -- `(x, y)` -- order.

use vstd::prelude::*;

pub mod decode;
pub mod fixed;
pub mod geoadmin;
pub mod json;
pub mod opencage;
pub mod openstreetmap;

verus! {

use crate::fixed::{format_fixed, spec_format_fixed};

/// A position, in `(longitude, latitude)` order, as fixed-point values with
/// nine decimal places (see the crate documentation).
#[derive(Clone, Copy, Debug, PartialEq, Eq, Structural)]
pub struct Point {
    pub x: i64,
    pub y: i64,
}

impl Point {
    /// Build a point from a longitude `x` and a latitude `y`.
    pub fn new(x: i64, y: i64) -> (p: Point)
        ensures
            p == (Point { x, y }),
    {
        Point { x, y }
    }

    /// The longitude component.
    pub fn x(&self) -> (r: i64)
        ensures
            r == self.x,
    {
        self.x
    }

    /// The latitude component.
    pub fn y(&self) -> (r: i64)
        ensures
            r == self.y,
    {
        self.y
    }
}

/// A bounding box to search within when forward-geocoding.
///
/// - `minimum_lonlat` is the **bottom-left** or **south-west** corner.
/// - `maximum_lonlat` is the **top-right** or **north-east** corner.
#[derive(Clone, Copy, Debug, PartialEq, Eq, Structural)]
pub struct InputBounds {
    pub minimum_lonlat: Point,
    pub maximum_lonlat: Point,
}

/// The key and value views of a sequence of owned query pairs.
pub open spec fn pairs_view(q: Seq<(String, String)>) -> Seq<(Seq<char>, Seq<char>)> {
    q.map_values(|t: (String, String)| (t.0@, t.1@))
}

/// Whether every coordinate of `b` stays clear of the one fixed-point value
/// that cannot be rendered.
pub open spec fn bounds_representable(b: InputBounds) -> bool {
    &&& b.minimum_lonlat.x != i64::MIN
    &&& b.minimum_lonlat.y != i64::MIN
    &&& b.maximum_lonlat.x != i64::MIN
    &&& b.maximum_lonlat.y != i64::MIN
}

/// The canonical query-string form of a bounding box: the four coordinates
/// in `minLon,minLat,maxLon,maxLat` order, comma-separated, nothing else.
pub open spec fn spec_bbox_string(b: InputBounds) -> Seq<char> {
    spec_format_fixed(b.minimum_lonlat.x as int) + ","@ + spec_format_fixed(
        b.minimum_lonlat.y as int,
    ) + ","@ + spec_format_fixed(b.maximum_lonlat.x as int) + ","@ + spec_format_fixed(
        b.maximum_lonlat.y as int,
    )
}

impl InputBounds {
    /// Build bounds from the minimum (bottom-left) and maximum (top-right)
    /// corners.
    pub fn new(minimum_lonlat: Point, maximum_lonlat: Point) -> (b: InputBounds)
        ensures
            b == (InputBounds { minimum_lonlat, maximum_lonlat }),
    {
        InputBounds { minimum_lonlat, maximum_lonlat }
    }

    /// Render the bounds as the exact string
    /// `"{minLon},{minLat},{maxLon},{maxLat}"`, with no whitespace.
    pub fn bbox_string(&self) -> (r: String)
        requires
            bounds_representable(*self),
        ensures
            r@ == spec_bbox_string(*self),
    {
        let mut out = format_fixed(self.minimum_lonlat.x);
        out.append(",");
        out.append(format_fixed(self.minimum_lonlat.y).as_str());
        out.append(",");
        out.append(format_fixed(self.maximum_lonlat.x).as_str());
        out.append(",");
        out.append(format_fixed(self.maximum_lonlat.y).as_str());
        out
    }
}

/// The errors that a geocoding operation can surface.
///
/// A transport failure, a malformed or incomplete response body, and a
/// malformed header are distinct kinds; each carries a short description.
#[derive(Clone, Debug)]
pub enum GeocodingError {
    /// Forward geocoding failed.
    Forward,
    /// Reverse geocoding failed.
    Reverse,
    /// The HTTP request failed: network unreachable, timeout, or a non-2xx
    /// status.
    Request(String),
    /// A response header could not be read as a string.
    HeaderConversion(String),
    /// A header value could not be parsed as an integer.
    ParseInt(String),
    /// The response body is not valid JSON, or a required field is missing or
    /// has the wrong type.
    Decode(String),
}

} // verus!
