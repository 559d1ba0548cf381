//! Data model of the geodesic engine.
//!
//! Angles are micro-degrees: 1 degree = 1_000_000 units, held in `i64`.
//! Distances are meters, held in `i64`.

use vstd::prelude::*;

verus! {

/// A geographic point, in micro-degrees.
#[derive(Clone, Copy, Debug, PartialEq, Eq, Structural)]
pub struct Location {
    /// Latitude in micro-degrees, semantic range [-90_000_000, 90_000_000].
    pub latitude: i64,
    /// Longitude in micro-degrees, semantic range [-180_000_000, 180_000_000].
    pub longitude: i64,
}

impl Location {
    /// Both coordinates within their semantic range.
    pub open spec fn wf(self) -> bool {
        &&& -90_000_000 <= self.latitude <= 90_000_000
        &&& -180_000_000 <= self.longitude <= 180_000_000
    }

    pub fn new(latitude: i64, longitude: i64) -> (r: Location)
        ensures
            r.latitude == latitude,
            r.longitude == longitude,
    {
        Location { latitude, longitude }
    }
}

/// One of the 8 cardinal and intercardinal compass sectors.
#[derive(Clone, Copy, Debug, PartialEq, Eq, Structural)]
pub enum CardinalDirection {
    North,
    NorthEast,
    East,
    SouthEast,
    South,
    SouthWest,
    West,
    NorthWest,
}

impl CardinalDirection {
    /// The conventional label of the sector.
    pub open spec fn label_spec(self) -> Seq<char> {
        match self {
            CardinalDirection::North => "N"@,
            CardinalDirection::NorthEast => "NE"@,
            CardinalDirection::East => "E"@,
            CardinalDirection::SouthEast => "SE"@,
            CardinalDirection::South => "S"@,
            CardinalDirection::SouthWest => "SW"@,
            CardinalDirection::West => "W"@,
            CardinalDirection::NorthWest => "NW"@,
        }
    }

    pub fn label(self) -> (r: &'static str)
        ensures
            r@ == self.label_spec(),
    {
        match self {
            CardinalDirection::North => "N",
            CardinalDirection::NorthEast => "NE",
            CardinalDirection::East => "E",
            CardinalDirection::SouthEast => "SE",
            CardinalDirection::South => "S",
            CardinalDirection::SouthWest => "SW",
            CardinalDirection::West => "W",
            CardinalDirection::NorthWest => "NW",
        }
    }
}

/// One of the 16 compass points of the compass table, in heading order.
#[derive(Clone, Copy, Debug, PartialEq, Eq, Structural)]
pub enum CompassPoint {
    North,
    NorthNorthEast,
    NorthEast,
    EastNorthEast,
    East,
    EastSouthEast,
    SouthEast,
    SouthSouthEast,
    South,
    SouthSouthWest,
    SouthWest,
    WestSouthWest,
    West,
    WestNorthWest,
    NorthWest,
    NorthNorthWest,
}

impl CompassPoint {
    /// The conventional label of the point.
    pub open spec fn label_spec(self) -> Seq<char> {
        match self {
            CompassPoint::North => "N"@,
            CompassPoint::NorthNorthEast => "NNE"@,
            CompassPoint::NorthEast => "NE"@,
            CompassPoint::EastNorthEast => "ENE"@,
            CompassPoint::East => "E"@,
            CompassPoint::EastSouthEast => "ESE"@,
            CompassPoint::SouthEast => "SE"@,
            CompassPoint::SouthSouthEast => "SSE"@,
            CompassPoint::South => "S"@,
            CompassPoint::SouthSouthWest => "SSW"@,
            CompassPoint::SouthWest => "SW"@,
            CompassPoint::WestSouthWest => "WSW"@,
            CompassPoint::West => "W"@,
            CompassPoint::WestNorthWest => "WNW"@,
            CompassPoint::NorthWest => "NW"@,
            CompassPoint::NorthNorthWest => "NNW"@,
        }
    }

    pub fn label(self) -> (r: &'static str)
        ensures
            r@ == self.label_spec(),
    {
        match self {
            CompassPoint::North => "N",
            CompassPoint::NorthNorthEast => "NNE",
            CompassPoint::NorthEast => "NE",
            CompassPoint::EastNorthEast => "ENE",
            CompassPoint::East => "E",
            CompassPoint::EastSouthEast => "ESE",
            CompassPoint::SouthEast => "SE",
            CompassPoint::SouthSouthEast => "SSE",
            CompassPoint::South => "S",
            CompassPoint::SouthSouthWest => "SSW",
            CompassPoint::SouthWest => "SW",
            CompassPoint::WestSouthWest => "WSW",
            CompassPoint::West => "W",
            CompassPoint::WestNorthWest => "WNW",
            CompassPoint::NorthWest => "NW",
            CompassPoint::NorthNorthWest => "NNW",
        }
    }

    /// The point at a given index in heading order (index in 0..16).
    pub open spec fn from_index_spec(i: int) -> CompassPoint {
        if i == 0 { CompassPoint::North }
        else if i == 1 { CompassPoint::NorthNorthEast }
        else if i == 2 { CompassPoint::NorthEast }
        else if i == 3 { CompassPoint::EastNorthEast }
        else if i == 4 { CompassPoint::East }
        else if i == 5 { CompassPoint::EastSouthEast }
        else if i == 6 { CompassPoint::SouthEast }
        else if i == 7 { CompassPoint::SouthSouthEast }
        else if i == 8 { CompassPoint::South }
        else if i == 9 { CompassPoint::SouthSouthWest }
        else if i == 10 { CompassPoint::SouthWest }
        else if i == 11 { CompassPoint::WestSouthWest }
        else if i == 12 { CompassPoint::West }
        else if i == 13 { CompassPoint::WestNorthWest }
        else if i == 14 { CompassPoint::NorthWest }
        else { CompassPoint::NorthNorthWest }
    }

    pub fn from_index(i: usize) -> (r: CompassPoint)
        requires
            i < 16,
        ensures
            r == CompassPoint::from_index_spec(i as int),
    {
        if i == 0 { CompassPoint::North }
        else if i == 1 { CompassPoint::NorthNorthEast }
        else if i == 2 { CompassPoint::NorthEast }
        else if i == 3 { CompassPoint::EastNorthEast }
        else if i == 4 { CompassPoint::East }
        else if i == 5 { CompassPoint::EastSouthEast }
        else if i == 6 { CompassPoint::SouthEast }
        else if i == 7 { CompassPoint::SouthSouthEast }
        else if i == 8 { CompassPoint::South }
        else if i == 9 { CompassPoint::SouthSouthWest }
        else if i == 10 { CompassPoint::SouthWest }
        else if i == 11 { CompassPoint::WestSouthWest }
        else if i == 12 { CompassPoint::West }
        else if i == 13 { CompassPoint::WestNorthWest }
        else if i == 14 { CompassPoint::NorthWest }
        else { CompassPoint::NorthNorthWest }
    }
}

/// Bearing and distance to the reference point, with its cardinal sector.
#[derive(Clone, Copy, Debug, PartialEq, Eq, Structural)]
pub struct QiblaDirection {
    /// Bearing from geographic North in micro-degrees, in [0, 360_000_000).
    pub bearing: i64,
    /// Cardinal sector the bearing falls in.
    pub direction: CardinalDirection,
    /// Great-circle distance to the reference point, in meters.
    pub distance_m: i64,
}

/// One row of the 16-point compass table.
#[derive(Clone, Copy, Debug, PartialEq, Eq, Structural)]
pub struct CompassEntry {
    /// The compass point of this row.
    pub direction: CompassPoint,
    /// The point's fixed heading in micro-degrees (a multiple of 22_500_000).
    pub bearing: i64,
    /// Minimal circular distance between the heading and the true bearing,
    /// in micro-degrees, in [0, 180_000_000].
    pub angular_difference: i64,
    /// Distance in meters when walking this heading (piecewise policy).
    pub short_path_distance_m: i64,
    /// Distance in meters the long way around, constant across the table.
    pub long_path_distance_m: i64,
    /// True for exactly one row: the first row of minimal angular difference.
    pub is_optimal_direction: bool,
}

/// The 16-point compass table of one location.
#[derive(Clone, Debug)]
pub struct CompassTable {
    /// The input location, copied.
    pub location: Location,
    /// True bearing to the reference point, micro-degrees in [0, 360_000_000).
    pub qibla_bearing: i64,
    /// True great-circle distance to the reference point, in meters.
    pub direct_distance_m: i64,
    /// Exactly 16 entries, one per heading, ascending heading order.
    pub entries: Vec<CompassEntry>,
}

} // verus!
