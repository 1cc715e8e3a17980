//! What to draw for an issue about a stop: the stops it names as points,
//! and a line from the stop to each related stop.
use vstd::prelude::*;
use crate::collect::{gather, lemma_gather_step, position_of};
use crate::issues::{Feature, FeatureCollection, FeatureView, Geometry, Issue, IssueView, ObjectType, Position, RelatedObjectView, property_texts, texts};
use crate::model::{Gtfs, Stop};
use crate::text::str_to_string;
use crate::validators::stops::{find_stop, stop_ids};

verus! {

/// The id of a related object that is a stop.
pub open spec fn related_stop_of() -> spec_fn(RelatedObjectView) -> Seq<Seq<char>> {
    |o: RelatedObjectView| if o.object_type == Some(ObjectType::Stop) {
        seq![o.id]
    } else {
        Seq::empty()
    }
}

/// Ids of the related objects of an issue that are stops.
pub open spec fn related_stop_ids(issue: IssueView) -> Seq<Seq<char>> {
    gather(issue.related_objects, related_stop_of())
}

/// The point at which a stop is drawn, where it has both coordinates.
pub open spec fn stop_geom(stop: Stop) -> Option<Geometry> {
    match stop.position() {
        Some(p) => Some(Geometry::Point(p)),
        None => None,
    }
}

/// The first stop with this id, if there is one.
pub open spec fn stop_of(stops: Seq<Stop>, id: Seq<char>) -> Option<Stop> {
    match position_of(stop_ids(stops), id) {
        Some(i) => Some(stops[i]),
        None => None,
    }
}

/// The feature for the stop with this id: its point, its id and its
/// name; nothing where the model has no such stop.
pub open spec fn point_feature(stops: Seq<Stop>, id: Seq<char>) -> Seq<FeatureView> {
    match stop_of(stops, id) {
        Some(stop) => seq![
            FeatureView {
                geometry: stop_geom(stop),
                properties: Some(seq![("id"@, stop.id@), ("name"@, stop.name@)]),
            },
        ],
        None => Seq::empty(),
    }
}

/// Whether two positions coincide: they differ by less than 1e-7 degree
/// in longitude and in latitude.
pub open spec fn coincide(a: Position, b: Position) -> bool {
    a.longitude == b.longitude && a.latitude == b.latitude
}

/// The line between two stops, where both have coordinates and these do
/// not coincide.
pub open spec fn line_between(stop1: Stop, stop2: Stop) -> Option<Geometry> {
    match (stop1.position(), stop2.position()) {
        (Some(a), Some(b)) => if coincide(a, b) {
            None
        } else {
            Some(Geometry::LineString(a, b))
        },
        _ => None,
    }
}

/// The feature for the line between two stops, with the issue's
/// explanation where it has one; nothing where the model lacks one of them.
pub open spec fn line_feature(stops: Seq<Stop>, from: Seq<char>, to: Seq<char>, details: Option<Seq<char>>) -> Seq<FeatureView> {
    match (stop_of(stops, from), stop_of(stops, to)) {
        (Some(stop1), Some(stop2)) => seq![
            FeatureView {
                geometry: line_between(stop1, stop2),
                properties: match details {
                    Some(d) => Some(seq![("details"@, d)]),
                    None => None,
                },
            },
        ],
        _ => Seq::empty(),
    }
}

pub open spec fn point_feature_of(stops: Seq<Stop>) -> spec_fn(Seq<char>) -> Seq<FeatureView> {
    |id: Seq<char>| point_feature(stops, id)
}

pub open spec fn line_feature_of(stops: Seq<Stop>, from: Seq<char>, details: Option<Seq<char>>) -> spec_fn(Seq<char>) -> Seq<FeatureView> {
    |to: Seq<char>| line_feature(stops, from, to, details)
}

/// What is drawn for an issue: for an issue about a stop, the points of
/// the stop and of its related stops, then the lines from the stop to
/// each related stop; for any other issue, nothing.
pub open spec fn visualization(issue: IssueView, stops: Seq<Stop>) -> Option<Seq<FeatureView>> {
    if issue.object_type == Some(ObjectType::Stop) {
        let related = related_stop_ids(issue);
        Some(
            gather(seq![issue.object_id] + related, point_feature_of(stops)) + gather(
                related,
                line_feature_of(stops, issue.object_id, issue.details),
            ),
        )
    } else {
        None
    }
}

/// Views of a list of features.
pub open spec fn feature_views(v: Seq<Feature>) -> Seq<FeatureView> {
    v.map_values(|f: Feature| f@)
}

/// The point at which a stop is drawn.
pub fn get_stop_geom(stop: &Stop) -> (r: Option<Geometry>)
    ensures
        r == stop_geom(*stop),
{
    match (stop.longitude, stop.latitude) {
        (Some(lon), Some(lat)) => Some(Geometry::Point(Position { longitude: lon, latitude: lat })),
        _ => None,
    }
}

/// Ids of the related objects of an issue that are stops.
pub fn get_related_stop_ids(issue: &Issue) -> (r: Vec<String>)
    ensures
        texts(r@) == related_stop_ids(issue@),
{
    let related_objects = &issue.related_objects;
    let ghost all = issue@.related_objects;
    let mut out: Vec<String> = Vec::new();
    assert(texts(out@) =~= Seq::<Seq<char>>::empty());
    assert(all.take(0) =~= Seq::empty());
    let mut i: usize = 0;
    while i < related_objects.len()
        invariant
            related_objects == &issue.related_objects,
            all == issue@.related_objects,
            i <= related_objects@.len(),
            texts(out@) == gather(all.take(i as int), related_stop_of()),
        decreases related_objects@.len() - i,
    {
        proof {
            lemma_gather_step(all, i as int, related_stop_of());
            assert(all[i as int] == related_objects@[i as int]@);
        }
        let o = &related_objects[i];
        let ghost before = texts(out@);
        let is_stop = match o.object_type {
            Some(ObjectType::Stop) => true,
            _ => false,
        };
        if is_stop {
            let id = o.id.clone();
            proof {
                crate::collect::lemma_texts_push(out@, id);
            }
            out.push(id);
            assert(texts(out@) =~= before + related_stop_of()(all[i as int]));
        } else {
            assert(texts(out@) =~= before + related_stop_of()(all[i as int]));
        }
        i += 1;
    }
    assert(all.take(i as int) =~= all);
    out
}

/// The feature for the stop with this id.
pub fn geojson_feature_point(stop_id: &String, gtfs: &Gtfs) -> (r: Option<Feature>)
    ensures
        match r {
            Some(f) => point_feature(gtfs.stops@, stop_id@) == seq![f@],
            None => point_feature(gtfs.stops@, stop_id@) == Seq::<FeatureView>::empty(),
        },
{
    match find_stop(&gtfs.stops, stop_id) {
        Some(i) => {
            let stop = &gtfs.stops[i];
            let stop_geom = get_stop_geom(stop);
            let mut properties: Vec<(String, String)> = Vec::new();
            properties.push((str_to_string("id"), stop.id.clone()));
            properties.push((str_to_string("name"), stop.name.clone()));
            assert(property_texts(properties@) =~= seq![("id"@, stop.id@), ("name"@, stop.name@)]);
            Some(Feature { geometry: stop_geom, properties: Some(properties) })
        },
        None => None,
    }
}

/// The line between two stops.
pub fn line_geometry_between_stops(stop1: &Stop, stop2: &Stop) -> (r: Option<Geometry>)
    ensures
        r == line_between(*stop1, *stop2),
{
    match (stop1.longitude, stop1.latitude, stop2.longitude, stop2.latitude) {
        (Some(lon1), Some(lat1), Some(lon2), Some(lat2)) => {
            // no line between two stops that are really close
            if lon1 == lon2 && lat1 == lat2 {
                return None;
            }
            Some(
                Geometry::LineString(
                    Position { longitude: lon1, latitude: lat1 },
                    Position { longitude: lon2, latitude: lat2 },
                ),
            )
        },
        _ => None,
    }
}

/// The feature for the line between two stops.
pub fn geojson_feature_line_string(stop1_id: &String, stop2_id: &String, gtfs: &Gtfs, issue: &Issue) -> (r: Option<Feature>)
    ensures
        match r {
            Some(f) => line_feature(gtfs.stops@, stop1_id@, stop2_id@, issue@.details) == seq![f@],
            None => line_feature(gtfs.stops@, stop1_id@, stop2_id@, issue@.details) == Seq::<FeatureView>::empty(),
        },
{
    let stop1 = find_stop(&gtfs.stops, stop1_id);
    let stop2 = find_stop(&gtfs.stops, stop2_id);
    match (stop1, stop2) {
        (Some(a), Some(b)) => {
            let geom = line_geometry_between_stops(&gtfs.stops[a], &gtfs.stops[b]);
            let properties = match &issue.details {
                Some(details) => {
                    let mut properties: Vec<(String, String)> = Vec::new();
                    properties.push((str_to_string("details"), details.clone()));
                    assert(property_texts(properties@) =~= seq![("details"@, details@)]);
                    Some(properties)
                },
                None => None,
            };
            Some(Feature { geometry: geom, properties })
        },
        _ => None,
    }
}

/// What is drawn for an issue.
pub fn generate_issue_visualization(issue: &Issue, gtfs: &Gtfs) -> (r: Option<FeatureCollection>)
    ensures
        match r {
            Some(fc) => visualization(issue@, gtfs.stops@) == Some(fc@),
            None => visualization(issue@, gtfs.stops@) is None,
        },
{
    match issue.object_type {
        Some(ObjectType::Stop) => {
            let related_stop_ids = get_related_stop_ids(issue);
            let ghost related = texts(related_stop_ids@);
            let ghost stops = gtfs.stops@;
            let ghost points = point_feature_of(stops);
            let ghost lines = line_feature_of(stops, issue@.object_id, issue@.details);
            let mut features: Vec<Feature> = Vec::new();
            match geojson_feature_point(&issue.object_id, gtfs) {
                Some(f) => {
                    features.push(f);
                },
                None => {},
            }
            proof {
                crate::collect::lemma_gather_push(Seq::<Seq<char>>::empty(), issue@.object_id, points);
                assert(Seq::<Seq<char>>::empty().push(issue@.object_id) =~= seq![issue@.object_id]);
                assert(gather(seq![issue@.object_id], points) =~= point_feature(stops, issue@.object_id));
                assert(feature_views(features@) =~= gather(seq![issue@.object_id], points));
                assert(seq![issue@.object_id] + related.take(0) =~= seq![issue@.object_id]);
            }
            let mut i: usize = 0;
            while i < related_stop_ids.len()
                invariant
                    related == texts(related_stop_ids@),
                    stops == gtfs.stops@,
                    points == point_feature_of(stops),
                    i <= related_stop_ids@.len(),
                    feature_views(features@) == gather(seq![issue@.object_id] + related.take(i as int), points),
                decreases related_stop_ids@.len() - i,
            {
                let ghost before = feature_views(features@);
                proof {
                    assert(related[i as int] == related_stop_ids@[i as int]@);
                    assert((seq![issue@.object_id] + related.take(i + 1)).drop_last() =~= seq![issue@.object_id] + related.take(
                        i as int,
                    ));
                }
                match geojson_feature_point(&related_stop_ids[i], gtfs) {
                    Some(f) => {
                        features.push(f);
                        assert(feature_views(features@) =~= before + seq![f@]);
                    },
                    None => {
                        assert(feature_views(features@) =~= before + Seq::<FeatureView>::empty());
                    },
                }
                i += 1;
            }
            assert(related.take(i as int) =~= related);
            let ghost first = feature_views(features@);
            proof {
                assert(related.take(0) =~= Seq::empty());
                assert(first + gather(related.take(0), lines) =~= first);
            }
            let mut i: usize = 0;
            while i < related_stop_ids.len()
                invariant
                    related == texts(related_stop_ids@),
                    stops == gtfs.stops@,
                    lines == line_feature_of(stops, issue@.object_id, issue@.details),
                    i <= related_stop_ids@.len(),
                    feature_views(features@) == first + gather(related.take(i as int), lines),
                decreases related_stop_ids@.len() - i,
            {
                let ghost before = feature_views(features@);
                proof {
                    assert(related[i as int] == related_stop_ids@[i as int]@);
                    lemma_gather_step(related, i as int, lines);
                }
                match geojson_feature_line_string(&issue.object_id, &related_stop_ids[i], gtfs, issue) {
                    Some(f) => {
                        features.push(f);
                        assert(feature_views(features@) =~= before + seq![f@]);
                    },
                    None => {
                        assert(feature_views(features@) =~= before + Seq::<FeatureView>::empty());
                    },
                }
                assert(first + (gather(related.take(i as int), lines) + lines(related[i as int])) =~= before + lines(
                    related[i as int],
                ));
                i += 1;
            }
            assert(related.take(i as int) =~= related);
            Some(FeatureCollection { features })
        },
        _ => None,
    }
}

impl Issue {
    /// Sets what is drawn for the issue; everything else stays.
    pub fn push_related_geojson(&mut self, gtfs: &Gtfs)
        ensures
            final(self)@ == (IssueView { geojson: visualization(old(self)@, gtfs.stops@), ..old(self)@ }),
    {
        self.geojson = generate_issue_visualization(self, gtfs);
    }
}

} // verus!
