//! Issues: what a rule reports, and the mathematical view the contracts use.
use vstd::prelude::*;

verus! {

/// How serious an [`Issue`] is.
#[derive(Debug, Clone, Copy, PartialEq, Eq, Structural, PartialOrd, Ord, Hash)]
pub enum Severity {
    /// The feed could not be analysed in substantial parts.
    Fatal,
    /// The feed does not respect the GTFS specification.
    Error,
    /// Not a specification error, but most likely wrong data.
    Warning,
    /// Plain information.
    Information,
}

/// The categories of issue, in the order in which a report lists them.
#[derive(Debug, Clone, Copy, PartialEq, Eq, Structural, PartialOrd, Ord, Hash)]
pub enum IssueType {
    UnusedStop,
    Slow,
    ExcessiveSpeed,
    NegativeTravelTime,
    CloseStops,
    NullDuration,
    InvalidReference,
    InvalidArchive,
    MissingName,
    MissingId,
    MissingCoordinates,
    InvalidCoordinates,
    InvalidRouteType,
    MissingUrl,
    InvalidUrl,
    InvalidTimezone,
    DuplicateStops,
    MissingPrice,
    InvalidCurrency,
    InvalidTransfers,
    InvalidTransferDuration,
    MissingLanguage,
    InvalidLanguage,
    DuplicateObjectId,
    UnloadableModel,
    MissingMandatoryFile,
    ExtraFile,
    ImpossibleToInterpolateStopTimes,
    InvalidStopLocationTypeInTrip,
    InvalidStopParent,
    IdNotAscii,
    InvalidShapeId,
    UnusedShapeId,
    NegativeStopDuration,
    DuplicateStopSequence,
    NoCalendar,
    SubFolder,
    MissingAgencyId,
    UnusableTrip,
    NoShape,
}

/// Number of issue categories.
pub const ISSUE_TYPE_COUNT: usize = 40;

impl IssueType {
    /// Position of the category in the enumeration, from 0.
    pub open spec fn rank(self) -> nat {
        match self {
            IssueType::UnusedStop => 0,
            IssueType::Slow => 1,
            IssueType::ExcessiveSpeed => 2,
            IssueType::NegativeTravelTime => 3,
            IssueType::CloseStops => 4,
            IssueType::NullDuration => 5,
            IssueType::InvalidReference => 6,
            IssueType::InvalidArchive => 7,
            IssueType::MissingName => 8,
            IssueType::MissingId => 9,
            IssueType::MissingCoordinates => 10,
            IssueType::InvalidCoordinates => 11,
            IssueType::InvalidRouteType => 12,
            IssueType::MissingUrl => 13,
            IssueType::InvalidUrl => 14,
            IssueType::InvalidTimezone => 15,
            IssueType::DuplicateStops => 16,
            IssueType::MissingPrice => 17,
            IssueType::InvalidCurrency => 18,
            IssueType::InvalidTransfers => 19,
            IssueType::InvalidTransferDuration => 20,
            IssueType::MissingLanguage => 21,
            IssueType::InvalidLanguage => 22,
            IssueType::DuplicateObjectId => 23,
            IssueType::UnloadableModel => 24,
            IssueType::MissingMandatoryFile => 25,
            IssueType::ExtraFile => 26,
            IssueType::ImpossibleToInterpolateStopTimes => 27,
            IssueType::InvalidStopLocationTypeInTrip => 28,
            IssueType::InvalidStopParent => 29,
            IssueType::IdNotAscii => 30,
            IssueType::InvalidShapeId => 31,
            IssueType::UnusedShapeId => 32,
            IssueType::NegativeStopDuration => 33,
            IssueType::DuplicateStopSequence => 34,
            IssueType::NoCalendar => 35,
            IssueType::SubFolder => 36,
            IssueType::MissingAgencyId => 37,
            IssueType::UnusableTrip => 38,
            IssueType::NoShape => 39,
        }
    }

    /// The category at a position of the enumeration.
    pub open spec fn at(rank: nat) -> IssueType {
        if rank == 0 { IssueType::UnusedStop }
        else if rank == 1 { IssueType::Slow }
        else if rank == 2 { IssueType::ExcessiveSpeed }
        else if rank == 3 { IssueType::NegativeTravelTime }
        else if rank == 4 { IssueType::CloseStops }
        else if rank == 5 { IssueType::NullDuration }
        else if rank == 6 { IssueType::InvalidReference }
        else if rank == 7 { IssueType::InvalidArchive }
        else if rank == 8 { IssueType::MissingName }
        else if rank == 9 { IssueType::MissingId }
        else if rank == 10 { IssueType::MissingCoordinates }
        else if rank == 11 { IssueType::InvalidCoordinates }
        else if rank == 12 { IssueType::InvalidRouteType }
        else if rank == 13 { IssueType::MissingUrl }
        else if rank == 14 { IssueType::InvalidUrl }
        else if rank == 15 { IssueType::InvalidTimezone }
        else if rank == 16 { IssueType::DuplicateStops }
        else if rank == 17 { IssueType::MissingPrice }
        else if rank == 18 { IssueType::InvalidCurrency }
        else if rank == 19 { IssueType::InvalidTransfers }
        else if rank == 20 { IssueType::InvalidTransferDuration }
        else if rank == 21 { IssueType::MissingLanguage }
        else if rank == 22 { IssueType::InvalidLanguage }
        else if rank == 23 { IssueType::DuplicateObjectId }
        else if rank == 24 { IssueType::UnloadableModel }
        else if rank == 25 { IssueType::MissingMandatoryFile }
        else if rank == 26 { IssueType::ExtraFile }
        else if rank == 27 { IssueType::ImpossibleToInterpolateStopTimes }
        else if rank == 28 { IssueType::InvalidStopLocationTypeInTrip }
        else if rank == 29 { IssueType::InvalidStopParent }
        else if rank == 30 { IssueType::IdNotAscii }
        else if rank == 31 { IssueType::InvalidShapeId }
        else if rank == 32 { IssueType::UnusedShapeId }
        else if rank == 33 { IssueType::NegativeStopDuration }
        else if rank == 34 { IssueType::DuplicateStopSequence }
        else if rank == 35 { IssueType::NoCalendar }
        else if rank == 36 { IssueType::SubFolder }
        else if rank == 37 { IssueType::MissingAgencyId }
        else if rank == 38 { IssueType::UnusableTrip }
        else { IssueType::NoShape }
    }

    /// Position of the category in the enumeration.
    pub fn index(self) -> (r: usize)
        ensures
            r == self.rank(),
            r < ISSUE_TYPE_COUNT,
            IssueType::at(r as nat) == self,
    {
        match self {
            IssueType::UnusedStop => 0,
            IssueType::Slow => 1,
            IssueType::ExcessiveSpeed => 2,
            IssueType::NegativeTravelTime => 3,
            IssueType::CloseStops => 4,
            IssueType::NullDuration => 5,
            IssueType::InvalidReference => 6,
            IssueType::InvalidArchive => 7,
            IssueType::MissingName => 8,
            IssueType::MissingId => 9,
            IssueType::MissingCoordinates => 10,
            IssueType::InvalidCoordinates => 11,
            IssueType::InvalidRouteType => 12,
            IssueType::MissingUrl => 13,
            IssueType::InvalidUrl => 14,
            IssueType::InvalidTimezone => 15,
            IssueType::DuplicateStops => 16,
            IssueType::MissingPrice => 17,
            IssueType::InvalidCurrency => 18,
            IssueType::InvalidTransfers => 19,
            IssueType::InvalidTransferDuration => 20,
            IssueType::MissingLanguage => 21,
            IssueType::InvalidLanguage => 22,
            IssueType::DuplicateObjectId => 23,
            IssueType::UnloadableModel => 24,
            IssueType::MissingMandatoryFile => 25,
            IssueType::ExtraFile => 26,
            IssueType::ImpossibleToInterpolateStopTimes => 27,
            IssueType::InvalidStopLocationTypeInTrip => 28,
            IssueType::InvalidStopParent => 29,
            IssueType::IdNotAscii => 30,
            IssueType::InvalidShapeId => 31,
            IssueType::UnusedShapeId => 32,
            IssueType::NegativeStopDuration => 33,
            IssueType::DuplicateStopSequence => 34,
            IssueType::NoCalendar => 35,
            IssueType::SubFolder => 36,
            IssueType::MissingAgencyId => 37,
            IssueType::UnusableTrip => 38,
            IssueType::NoShape => 39,
        }
    }

    /// The category at a position of the enumeration; `None` past its end.
    pub fn from_index(i: usize) -> (r: Option<IssueType>)
        ensures
            r.is_some() <==> i < ISSUE_TYPE_COUNT,
            r.is_some() ==> r.unwrap() == IssueType::at(i as nat) && r.unwrap().rank() == i,
    {
        match i {
            0 => Some(IssueType::UnusedStop),
            1 => Some(IssueType::Slow),
            2 => Some(IssueType::ExcessiveSpeed),
            3 => Some(IssueType::NegativeTravelTime),
            4 => Some(IssueType::CloseStops),
            5 => Some(IssueType::NullDuration),
            6 => Some(IssueType::InvalidReference),
            7 => Some(IssueType::InvalidArchive),
            8 => Some(IssueType::MissingName),
            9 => Some(IssueType::MissingId),
            10 => Some(IssueType::MissingCoordinates),
            11 => Some(IssueType::InvalidCoordinates),
            12 => Some(IssueType::InvalidRouteType),
            13 => Some(IssueType::MissingUrl),
            14 => Some(IssueType::InvalidUrl),
            15 => Some(IssueType::InvalidTimezone),
            16 => Some(IssueType::DuplicateStops),
            17 => Some(IssueType::MissingPrice),
            18 => Some(IssueType::InvalidCurrency),
            19 => Some(IssueType::InvalidTransfers),
            20 => Some(IssueType::InvalidTransferDuration),
            21 => Some(IssueType::MissingLanguage),
            22 => Some(IssueType::InvalidLanguage),
            23 => Some(IssueType::DuplicateObjectId),
            24 => Some(IssueType::UnloadableModel),
            25 => Some(IssueType::MissingMandatoryFile),
            26 => Some(IssueType::ExtraFile),
            27 => Some(IssueType::ImpossibleToInterpolateStopTimes),
            28 => Some(IssueType::InvalidStopLocationTypeInTrip),
            29 => Some(IssueType::InvalidStopParent),
            30 => Some(IssueType::IdNotAscii),
            31 => Some(IssueType::InvalidShapeId),
            32 => Some(IssueType::UnusedShapeId),
            33 => Some(IssueType::NegativeStopDuration),
            34 => Some(IssueType::DuplicateStopSequence),
            35 => Some(IssueType::NoCalendar),
            36 => Some(IssueType::SubFolder),
            37 => Some(IssueType::MissingAgencyId),
            38 => Some(IssueType::UnusableTrip),
            39 => Some(IssueType::NoShape),
            _ => None,
        }
    }
}

/// The kinds of GTFS object an issue can be about.
#[derive(Debug, Clone, Copy, PartialEq, Eq, Structural, Hash)]
pub enum ObjectType {
    Agency,
    Stop,
    Route,
    Trip,
    Calendar,
    Shape,
    Fare,
    Pathway,
    FeedInfo,
}

/// Text of an optional string.
pub open spec fn opt_text(o: Option<String>) -> Option<Seq<char>> {
    match o {
        Some(s) => Some(s@),
        None => None,
    }
}

/// Texts of a list of strings.
pub open spec fn texts(v: Seq<String>) -> Seq<Seq<char>> {
    v.map_values(|s: String| s@)
}

/// An object related to the object that an issue is about.
#[derive(Debug, Clone, PartialEq, Eq)]
pub struct RelatedObject {
    pub id: String,
    pub object_type: Option<ObjectType>,
    pub name: Option<String>,
}

/// What a [`RelatedObject`] holds.
pub ghost struct RelatedObjectView {
    pub id: Seq<char>,
    pub object_type: Option<ObjectType>,
    pub name: Option<Seq<char>>,
}

impl View for RelatedObject {
    type V = RelatedObjectView;

    open spec fn view(&self) -> RelatedObjectView {
        RelatedObjectView {
            id: self.id@,
            object_type: self.object_type,
            name: opt_text(self.name),
        }
    }
}

/// The line of a file that an issue comes from.
#[derive(Debug, Clone, PartialEq, Eq)]
pub struct RelatedLine {
    pub line_number: u64,
    pub headers: Vec<String>,
    pub values: Vec<String>,
}

/// What a [`RelatedLine`] holds.
pub ghost struct RelatedLineView {
    pub line_number: u64,
    pub headers: Seq<Seq<char>>,
    pub values: Seq<Seq<char>>,
}

impl View for RelatedLine {
    type V = RelatedLineView;

    open spec fn view(&self) -> RelatedLineView {
        RelatedLineView {
            line_number: self.line_number,
            headers: texts(self.headers@),
            values: texts(self.values@),
        }
    }
}

/// The file that an issue comes from.
#[derive(Debug, Clone, PartialEq, Eq)]
pub struct RelatedFile {
    pub file_name: String,
    pub line: Option<RelatedLine>,
}

/// What a [`RelatedFile`] holds.
pub ghost struct RelatedFileView {
    pub file_name: Seq<char>,
    pub line: Option<RelatedLineView>,
}

impl View for RelatedFile {
    type V = RelatedFileView;

    open spec fn view(&self) -> RelatedFileView {
        RelatedFileView {
            file_name: self.file_name@,
            line: match self.line {
                Some(l) => Some(l@),
                None => None,
            },
        }
    }
}

/// A point on the map, in units of 1e-7 degree.
#[derive(Debug, Clone, Copy, PartialEq, Eq, Structural, Hash)]
pub struct Position {
    pub longitude: i64,
    pub latitude: i64,
}

/// The shape drawn for a feature.
#[derive(Debug, Clone, Copy, PartialEq, Eq, Structural, Hash)]
pub enum Geometry {
    Point(Position),
    LineString(Position, Position),
}

/// One drawn feature: a shape, if any, and its named properties.
#[derive(Debug, Clone, PartialEq, Eq)]
pub struct Feature {
    pub geometry: Option<Geometry>,
    pub properties: Option<Vec<(String, String)>>,
}

/// Texts of a list of named properties.
pub open spec fn property_texts(v: Seq<(String, String)>) -> Seq<(Seq<char>, Seq<char>)> {
    v.map_values(|p: (String, String)| (p.0@, p.1@))
}

/// What a [`Feature`] holds.
pub ghost struct FeatureView {
    pub geometry: Option<Geometry>,
    pub properties: Option<Seq<(Seq<char>, Seq<char>)>>,
}

impl View for Feature {
    type V = FeatureView;

    open spec fn view(&self) -> FeatureView {
        FeatureView {
            geometry: self.geometry,
            properties: match self.properties {
                Some(p) => Some(property_texts(p@)),
                None => None,
            },
        }
    }
}

/// The features drawn for one issue.
#[derive(Debug, Clone, PartialEq, Eq)]
pub struct FeatureCollection {
    pub features: Vec<Feature>,
}

impl View for FeatureCollection {
    type V = Seq<FeatureView>;

    open spec fn view(&self) -> Seq<FeatureView> {
        self.features@.map_values(|f: Feature| f@)
    }
}

/// Views of a list of related objects.
pub open spec fn related_views(v: Seq<RelatedObject>) -> Seq<RelatedObjectView> {
    v.map_values(|r: RelatedObject| r@)
}

/// One finding of a rule.
#[derive(Debug, Clone, PartialEq, Eq)]
pub struct Issue {
    pub severity: Severity,
    pub issue_type: IssueType,
    /// Id of the object the issue is about; empty for a feed-wide issue.
    pub object_id: String,
    pub object_type: Option<ObjectType>,
    pub object_name: Option<String>,
    pub related_objects: Vec<RelatedObject>,
    pub details: Option<String>,
    pub related_file: Option<RelatedFile>,
    pub geojson: Option<FeatureCollection>,
}

/// What an [`Issue`] holds.
pub ghost struct IssueView {
    pub severity: Severity,
    pub issue_type: IssueType,
    pub object_id: Seq<char>,
    pub object_type: Option<ObjectType>,
    pub object_name: Option<Seq<char>>,
    pub related_objects: Seq<RelatedObjectView>,
    pub details: Option<Seq<char>>,
    pub related_file: Option<RelatedFileView>,
    pub geojson: Option<Seq<FeatureView>>,
}

impl View for Issue {
    type V = IssueView;

    open spec fn view(&self) -> IssueView {
        IssueView {
            severity: self.severity,
            issue_type: self.issue_type,
            object_id: self.object_id@,
            object_type: self.object_type,
            object_name: opt_text(self.object_name),
            related_objects: related_views(self.related_objects@),
            details: opt_text(self.details),
            related_file: match self.related_file {
                Some(f) => Some(f@),
                None => None,
            },
            geojson: match self.geojson {
                Some(g) => Some(g@),
                None => None,
            },
        }
    }
}

impl IssueView {
    /// A bare issue about the object with the given id.
    pub open spec fn bare(severity: Severity, issue_type: IssueType, id: Seq<char>) -> IssueView {
        IssueView {
            severity,
            issue_type,
            object_id: id,
            object_type: None,
            object_name: None,
            related_objects: Seq::empty(),
            details: None,
            related_file: None,
            geojson: None,
        }
    }

    /// An issue about a described object: its id, kind and name.
    pub open spec fn about(severity: Severity, issue_type: IssueType, o: RelatedObjectView) -> IssueView {
        IssueView {
            object_type: o.object_type,
            object_name: o.name,
            ..IssueView::bare(severity, issue_type, o.id)
        }
    }

    /// The same issue with this explanation.
    pub open spec fn with_details(self, d: Seq<char>) -> IssueView {
        IssueView { details: Some(d), ..self }
    }

    /// The same issue with this object name.
    pub open spec fn with_name(self, n: Seq<char>) -> IssueView {
        IssueView { object_name: Some(n), ..self }
    }

    /// The same issue with this object kind.
    pub open spec fn with_object_type(self, t: ObjectType) -> IssueView {
        IssueView { object_type: Some(t), ..self }
    }

    /// The same issue with one more related object at the end.
    pub open spec fn with_related(self, o: RelatedObjectView) -> IssueView {
        IssueView { related_objects: self.related_objects.push(o), ..self }
    }
}

/// An object that an issue can name: it has an id, a kind and a display name.
pub trait Described {
    /// Id, kind and display name of the object.
    spec fn described(&self) -> RelatedObjectView;

    /// Id, kind and display name of the object.
    fn describe(&self) -> (r: RelatedObject)
        ensures
            r@ == self.described(),
    ;
}

impl Issue {
    /// A new issue with its severity, category and the id of the object concerned.
    pub fn new(severity: Severity, issue_type: IssueType, id: &str) -> (r: Issue)
        ensures
            r@ == IssueView::bare(severity, issue_type, id@),
    {
        let r = Issue {
            severity,
            issue_type,
            object_id: id.to_owned(),
            object_type: None,
            object_name: None,
            related_objects: Vec::new(),
            details: None,
            related_file: None,
            geojson: None,
        };
        assert(r@.related_objects =~= Seq::empty());
        r
    }

    /// A new issue about an object, with the object's id, kind and name.
    pub fn new_with_obj<T: Described>(severity: Severity, issue_type: IssueType, o: &T) -> (r: Issue)
        ensures
            r@ == IssueView::about(severity, issue_type, o.described()),
    {
        let d = o.describe();
        let r = Issue {
            severity,
            issue_type,
            object_id: d.id,
            object_type: d.object_type,
            object_name: d.name,
            related_objects: Vec::new(),
            details: None,
            related_file: None,
            geojson: None,
        };
        assert(r@.related_objects =~= Seq::empty());
        r
    }

    /// Sets the explanation of the issue.
    pub fn details(self, d: &str) -> (r: Issue)
        ensures
            r@ == self@.with_details(d@),
    {
        let mut r = self;
        r.details = Some(d.to_owned());
        r
    }

    /// Sets the name of the object concerned.
    pub fn name(self, d: &str) -> (r: Issue)
        ensures
            r@ == self@.with_name(d@),
    {
        let mut r = self;
        r.object_name = Some(d.to_owned());
        r
    }

    /// Sets the kind of the object concerned.
    pub fn object_type(self, d: ObjectType) -> (r: Issue)
        ensures
            r@ == self@.with_object_type(d),
    {
        let mut r = self;
        r.object_type = Some(d);
        r
    }

    /// Adds a related object at the end of the list.
    pub fn add_related_object<T: Described>(self, o: &T) -> (r: Issue)
        ensures
            r@ == self@.with_related(o.described()),
    {
        let mut r = self;
        r.push_related_object(o);
        r
    }

    /// Adds a related object at the end of the list, in place.
    pub fn push_related_object<T: Described>(&mut self, o: &T)
        ensures
            final(self)@ == old(self)@.with_related(o.described()),
    {
        let d = o.describe();
        self.related_objects.push(d);
        assert(related_views(self.related_objects@) =~= related_views(old(self).related_objects@).push(d@));
    }
}

} // verus!
