//! Plain data model of the service.
//!
//! The wire formats use floating-point degrees; this core stores every
//! quantity as a plain integer so the logic over it can be reasoned about
//! exactly: latitude and longitude in microdegrees (`*_e6`, one millionth of
//! a degree), speed, elevation and accuracy in thousandths of their unit
//! (`*_e3`), and timestamps in milliseconds since the Unix epoch.  The
//! boundary that talks to the outside converts between the two.

use vstd::prelude::*;

verus! {

/// Non-JSON plain point representation, flat and representing a database row.
pub struct GeoPoint {
    /// The unique row identifier, once assigned by the database.
    pub id: Option<i32>,
    /// Latitude in microdegrees.
    pub lat_e6: i64,
    /// Longitude in microdegrees.
    pub long_e6: i64,
    /// Speed in thousandths of km/h, by convention.
    pub spd_e3: Option<i64>,
    /// Elevation in millimetres.
    pub ele_e3: Option<i64>,
    /// Horizontal accuracy in millimetres.
    pub accuracy_e3: Option<i64>,
    /// Milliseconds since the Unix epoch.
    pub time_ms: i64,
    /// An arbitrary note attached by the logging client.
    pub note: Option<String>,
}

/// The properties member of a GeoJSON feature.
pub struct GeoProperties {
    /// Milliseconds since the Unix epoch.
    pub time_ms: i64,
    /// Elevation in millimetres.
    pub altitude_e3: Option<i64>,
    /// Speed in thousandths of km/h.
    pub speed_e3: Option<i64>,
    /// Horizontal accuracy in millimetres.
    pub accuracy_e3: Option<i64>,
    /// The unique ID of the point.
    pub id: Option<i32>,
    /// An arbitrary note attached by the logging client.
    pub note: Option<String>,
}

/// The geometry member of a GeoJSON feature: always a point.
pub struct GeoGeometry {
    /// Always "Point".
    pub typ: String,
    /// (longitude, latitude) in microdegrees.
    pub coordinates: (i64, i64),
}

/// A GeoJSON feature: one logged point.
pub struct GeoFeature {
    /// Always "Feature".
    pub typ: String,
    pub properties: GeoProperties,
    pub geometry: GeoGeometry,
}

/// A GeoJSON feature collection.
pub struct GeoJSON {
    /// Always "FeatureCollection".
    pub typ: String,
    pub features: Vec<GeoFeature>,
}

/// Body of a bulk ingestion request.
pub struct LogLocations {
    pub locations: Vec<GeoFeature>,
}

/// Returned by the retrieve/live endpoint.
pub struct LiveUpdate {
    /// Always "GeoHubUpdate".
    pub typ: String,
    pub client: String,
    pub last: Option<i32>,
    pub geo: Option<GeoJSON>,
    pub error: Option<String>,
}

/// Clone an optional note, preserving the value exactly.
fn clone_opt_string(s: &Option<String>) -> (r: Option<String>)
    ensures
        r == *s,
{
    match s {
        Some(x) => Some(x.clone()),
        None => None,
    }
}

impl Clone for GeoPoint {
    fn clone(&self) -> (res: Self)
        ensures
            res == *self,
    {
        GeoPoint {
            id: self.id,
            lat_e6: self.lat_e6,
            long_e6: self.long_e6,
            spd_e3: self.spd_e3,
            ele_e3: self.ele_e3,
            accuracy_e3: self.accuracy_e3,
            time_ms: self.time_ms,
            note: clone_opt_string(&self.note),
        }
    }
}

impl Clone for GeoProperties {
    fn clone(&self) -> (res: Self)
        ensures
            res == *self,
    {
        GeoProperties {
            time_ms: self.time_ms,
            altitude_e3: self.altitude_e3,
            speed_e3: self.speed_e3,
            accuracy_e3: self.accuracy_e3,
            id: self.id,
            note: clone_opt_string(&self.note),
        }
    }
}

impl Clone for GeoGeometry {
    fn clone(&self) -> (res: Self)
        ensures
            res == *self,
    {
        GeoGeometry { typ: self.typ.clone(), coordinates: self.coordinates }
    }
}

impl Clone for GeoFeature {
    fn clone(&self) -> (res: Self)
        ensures
            res == *self,
    {
        GeoFeature {
            typ: self.typ.clone(),
            properties: self.properties.clone(),
            geometry: self.geometry.clone(),
        }
    }
}

/// Two collections hold the same type tag and exactly the same features.
pub open spec fn geojson_like(a: GeoJSON, b: GeoJSON) -> bool {
    a.typ == b.typ && a.features@ == b.features@
}

impl Clone for GeoJSON {
    fn clone(&self) -> (res: Self)
        ensures
            geojson_like(res, *self),
    {
        let features = self.features.clone();
        proof {
            assert(features@ =~= self.features@);
        }
        GeoJSON { typ: self.typ.clone(), features }
    }
}

impl LiveUpdate {
    /// Assemble a live-update reply for `client`.
    pub fn new(client: String, last: Option<i32>, geo: Option<GeoJSON>, err: Option<String>) -> (r:
        LiveUpdate)
        ensures
            r.typ@ == "GeoHubUpdate"@,
            r.client == client,
            r.last == last,
            r.geo == geo,
            r.error == err,
    {
        LiveUpdate { typ: "GeoHubUpdate".to_owned(), client, last, geo, error: err }
    }
}

impl GeoJSON {
    /// An empty feature collection.
    pub fn new() -> (r: GeoJSON)
        ensures
            r.typ@ == "FeatureCollection"@,
            r.features@ == Seq::<GeoFeature>::empty(),
    {
        GeoJSON { typ: "FeatureCollection".to_owned(), features: Vec::new() }
    }

    /// Pre-allocate room for `cap` further features.
    pub fn reserve_features(&mut self, cap: usize)
        ensures
            final(self).typ == old(self).typ,
            final(self).features@ == old(self).features@,
    {
        self.features.reserve(cap);
    }

    /// Append one feature to the collection.
    pub fn push_feature(&mut self, feat: GeoFeature)
        ensures
            final(self).typ == old(self).typ,
            final(self).features@ == old(self).features@.push(feat),
    {
        self.features.push(feat);
    }
}

/// The feature `f` renders exactly the point `p`.
pub open spec fn feature_matches_point(f: GeoFeature, p: GeoPoint) -> bool {
    &&& f.typ@ == "Feature"@
    &&& f.properties.id == p.id
    &&& f.properties.time_ms == p.time_ms
    &&& f.properties.altitude_e3 == p.ele_e3
    &&& f.properties.speed_e3 == p.spd_e3
    &&& f.properties.accuracy_e3 == p.accuracy_e3
    &&& f.properties.note == p.note
    &&& f.geometry.typ@ == "Point"@
    &&& f.geometry.coordinates == (p.long_e6, p.lat_e6)
}

/// Render one point as a GeoJSON feature.
pub fn geofeature_from_point(point: GeoPoint) -> (r: GeoFeature)
    ensures
        feature_matches_point(r, point),
{
    GeoFeature {
        typ: "Feature".to_owned(),
        properties: GeoProperties {
            id: point.id,
            time_ms: point.time_ms,
            altitude_e3: point.ele_e3,
            speed_e3: point.spd_e3,
            note: point.note,
            accuracy_e3: point.accuracy_e3,
        },
        geometry: GeoGeometry {
            typ: "Point".to_owned(),
            coordinates: (point.long_e6, point.lat_e6),
        },
    }
}

/// Read a GeoJSON feature back into a plain point.  As in the ingestion wire
/// format, the note is not carried over.
pub fn geopoint_from_feature(feat: GeoFeature) -> (r: GeoPoint)
    ensures
        r.id == feat.properties.id,
        r.accuracy_e3 == feat.properties.accuracy_e3,
        r.ele_e3 == feat.properties.altitude_e3,
        r.long_e6 == feat.geometry.coordinates.0,
        r.lat_e6 == feat.geometry.coordinates.1,
        r.note is None,
        r.spd_e3 == feat.properties.speed_e3,
        r.time_ms == feat.properties.time_ms,
{
    let geo = feat.geometry;
    let prop = feat.properties;
    GeoPoint {
        id: prop.id,
        accuracy_e3: prop.accuracy_e3,
        ele_e3: prop.altitude_e3,
        long_e6: geo.coordinates.0,
        lat_e6: geo.coordinates.1,
        note: None,
        spd_e3: prop.speed_e3,
        time_ms: prop.time_ms,
    }
}

/// Render a batch of points as a feature collection, in order.
pub fn geojson_from_points(points: Vec<GeoPoint>) -> (r: GeoJSON)
    ensures
        r.typ@ == "FeatureCollection"@,
        r.features@.len() == points@.len(),
        forall|i: int|
            0 <= i < points@.len() ==> feature_matches_point(
                #[trigger] r.features@[i],
                points@[i],
            ),
{
    let mut gj = GeoJSON::new();
    gj.reserve_features(points.len());
    let mut i: usize = 0;
    while i < points.len()
        invariant
            i <= points@.len(),
            gj.typ@ == "FeatureCollection"@,
            gj.features@.len() == i,
            forall|j: int|
                0 <= j < i ==> feature_matches_point(#[trigger] gj.features@[j], points@[j]),
        decreases points@.len() - i,
    {
        let f = geofeature_from_point(points[i].clone());
        gj.push_feature(f);
        i += 1;
    }
    gj
}

/// The identifier a point contributes to the cursor: 0 when unassigned.
pub open spec fn point_id(p: GeoPoint) -> int {
    match p.id {
        Some(v) => v as int,
        None => 0,
    }
}

/// The highest identifier seen in a batch of rows, at least 0.
pub open spec fn max_seen_id(s: Seq<GeoPoint>) -> int
    decreases s.len(),
{
    if s.len() == 0 {
        0
    } else {
        let rest = max_seen_id(s.drop_last());
        if point_id(s.last()) > rest {
            point_id(s.last())
        } else {
            rest
        }
    }
}

/// The reply of a backfill query: the rendered rows and the new cursor when
/// the query found any, else the caller's cursor echoed back with the
/// no-rows error so the same request can be re-issued.
pub fn backfill_update(client: String, last: Option<i32>, delta: Option<(GeoJSON, i32)>) -> (r:
    LiveUpdate)
    ensures
        r.typ@ == "GeoHubUpdate"@,
        r.client == client,
        match delta {
            Some(d) => r.last == Some(d.1) && r.geo == Some(d.0) && r.error is None,
            None => r.last == last && r.geo is None && match r.error {
                Some(m) => m@ == "No rows returned"@,
                None => false,
            },
        },
{
    match delta {
        Some(d) => LiveUpdate::new(client, Some(d.1), Some(d.0), None),
        None => LiveUpdate::new(client, last, None, Some("No rows returned".to_owned())),
    }
}

/// The cursor never runs backwards below zero.
proof fn lemma_max_seen_id_nonneg(s: Seq<GeoPoint>)
    ensures
        max_seen_id(s) >= 0,
    decreases s.len(),
{
    if s.len() > 0 {
        lemma_max_seen_id_nonneg(s.drop_last());
    }
}

/// Turn the rows of a delta query into a delta: the rendered collection plus
/// the new cursor, or nothing when the query found no rows.
pub fn delta_from_points(points: Vec<GeoPoint>) -> (r: Option<(GeoJSON, i32)>)
    ensures
        r is Some <==> points@.len() > 0,
        match r {
            Some(d) => {
                &&& d.0.typ@ == "FeatureCollection"@
                &&& d.0.features@.len() == points@.len()
                &&& (forall|i: int|
                    0 <= i < points@.len() ==> feature_matches_point(
                        #[trigger] d.0.features@[i],
                        points@[i],
                    ))
                &&& d.1 == max_seen_id(points@)
            },
            None => points@.len() == 0,
        },
{
    if points.len() == 0 {
        return None;
    }
    let mut last: i32 = 0;
    let mut i: usize = 0;
    while i < points.len()
        invariant
            i <= points@.len(),
            last == max_seen_id(points@.take(i as int)),
        decreases points@.len() - i,
    {
        match points[i].id {
            Some(id) => {
                if id > last {
                    last = id;
                }
            },
            None => {},
        }
        proof {
            assert(points@.take(i as int + 1).drop_last() =~= points@.take(i as int));
            assert(points@.take(i as int + 1).last() == points@[i as int]);
            lemma_max_seen_id_nonneg(points@.take(i as int));
        }
        i += 1;
    }
    proof {
        assert(points@.take(points@.len() as int) =~= points@);
    }
    let gj = geojson_from_points(points);
    Some((gj, last))
}

} // verus!
