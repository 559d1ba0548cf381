//! The geodesic engine: bearing, distance, and the 16-point compass table,
//! measured toward the fixed reference point (the Kaaba).

use vstd::prelude::*;

use crate::interfaces::{CardinalDirection, CompassEntry, CompassPoint, CompassTable, Location,
    QiblaDirection};
use crate::trig;
use vstd::arithmetic::div_mod::{lemma_div_is_ordered, lemma_div_is_ordered_by_denominator};

verus! {

/// Latitude of the reference point, micro-degrees.
pub const KAABA_LATITUDE_UDEG: i64 = 21_422_500;

/// Longitude of the reference point, micro-degrees.
pub const KAABA_LONGITUDE_UDEG: i64 = 39_826_200;

/// Radius of the spherical Earth model, meters.
pub const EARTH_RADIUS_M: i64 = 6_371_000;

/// round(2 * pi * EARTH_RADIUS_M): the full circumference, meters.
pub const EARTH_CIRCUMFERENCE_M: i64 = 40_030_174;

/// A bearing brought into [0, 360) degrees: the Euclidean remainder.
pub open spec fn normalize_bearing_spec(b: int) -> int {
    b % 360_000_000
}

/// The cardinal sector of a bearing in micro-degrees, half-open 45-degree
/// sectors centered on each cardinal; anything outside [0, 360) falls into
/// the North fallback arm, as a defensive default.
pub open spec fn direction_of_bearing(b: int) -> CardinalDirection {
    if b >= 337_500_000 || b < 22_500_000 {
        CardinalDirection::North
    } else if b < 67_500_000 {
        CardinalDirection::NorthEast
    } else if b < 112_500_000 {
        CardinalDirection::East
    } else if b < 157_500_000 {
        CardinalDirection::SouthEast
    } else if b < 202_500_000 {
        CardinalDirection::South
    } else if b < 247_500_000 {
        CardinalDirection::SouthWest
    } else if b < 292_500_000 {
        CardinalDirection::West
    } else {
        CardinalDirection::NorthWest
    }
}

/// Minimal circular distance between two headings in micro-degrees.
pub open spec fn angular_difference_spec(h: int, b: int) -> int {
    let d: int = if h >= b { h - b } else { b - h };
    if d > 180_000_000 { 360_000_000 - d } else { d }
}

/// Haversine great-circle distance in meters between two points given in
/// micro-degrees, on the spherical Earth model.
pub open spec fn distance_m_spec(lat1: int, lon1: int, lat2: int, lon2: int) -> int {
    let adlat: int = if lat2 >= lat1 { lat2 - lat1 } else { lat1 - lat2 };
    let adlon: int = if lon2 >= lon1 { lon2 - lon1 } else { lon1 - lon2 };
    let half_lat: int = adlat / 2;
    let half_lon: int = adlon / 2;
    let s_lat: int = trig::sin_quarter_spec(half_lat);
    let s_lon: int = if half_lon <= 90_000_000 {
        trig::sin_quarter_spec(half_lon)
    } else {
        trig::sin_quarter_spec(180_000_000 - half_lon)
    };
    let c1: int = trig::sin_quarter_spec(90_000_000 - (if lat1 < 0 { -lat1 } else { lat1 }));
    let c2: int = trig::sin_quarter_spec(90_000_000 - (if lat2 < 0 { -lat2 } else { lat2 }));
    let a_raw: int = s_lat * s_lat + (c1 * c2) * (s_lon * s_lon) / 1_000_000_000_000_000_000;
    let a: int = if a_raw > 1_000_000_000_000_000_000 { 1_000_000_000_000_000_000 } else { a_raw };
    let sq: int = trig::sqrt_floor(a);
    let c_rad9: int = trig::asin_rad9_spec(sq);
    c_rad9 * 12_742_000 / 1_000_000_000
}

/// The true bearing toward the reference point, micro-degrees in [0, 360),
/// from the forward-azimuth formula on the sphere.
pub open spec fn qibla_bearing_spec(loc: Location) -> int {
    let dlon: int = KAABA_LONGITUDE_UDEG - loc.longitude;
    let sdlon: int = trig::sin_udeg_spec(dlon);
    let cdlon: int = trig::cos_udeg_spec(dlon);
    let slat1: int = trig::sin_udeg_spec(loc.latitude as int);
    let clat1: int = trig::cos_udeg_spec(loc.latitude as int);
    let slat2: int = trig::sin_udeg_spec(KAABA_LATITUDE_UDEG as int);
    let clat2: int = trig::cos_udeg_spec(KAABA_LATITUDE_UDEG as int);
    let y: int = trig::fixmul_spec(sdlon, clat2);
    let x: int = trig::fixmul_spec(clat1, slat2) - trig::fixmul_spec(
        trig::fixmul_spec(slat1, clat2),
        cdlon,
    );
    normalize_bearing_spec(trig::atan2_udeg_spec(y, x))
}

/// The piecewise travel distance in meters along a heading whose angular
/// difference from the true bearing is `diff` micro-degrees: toward the
/// reference point the direct distance stretched by the secant of the
/// difference (cosine floored at 0.001), away from it the long way around,
/// and exactly perpendicular the full circumference.
pub open spec fn short_path_spec(direct: int, diff: int) -> int {
    if diff < 90_000_000 {
        let cosv: int = trig::sin_quarter_spec(90_000_000 - diff);
        let cm: int = if cosv < 1_000_000 { 1_000_000 } else { cosv };
        direct * 1_000_000_000 / cm
    } else if diff > 90_000_000 {
        EARTH_CIRCUMFERENCE_M - direct
    } else {
        EARTH_CIRCUMFERENCE_M as int
    }
}

/// The great-circle engine over the spherical Earth model.
pub struct GreatCircleCalculator;

impl GreatCircleCalculator {
    pub fn new() -> (r: Self)
        ensures
            r == (GreatCircleCalculator {}),
    {
        Self
    }

    /// Brings a raw bearing into [0, 360) degrees.
    pub fn normalize_bearing(bearing: i64) -> (r: i64)
        ensures
            r == normalize_bearing_spec(bearing as int),
            0 <= r < 360_000_000,
    {
        let mut v: i64 = bearing;
        while v < 0
            invariant
                v % 360_000_000 == bearing % 360_000_000,
            decreases 360_000_000 - v,
        {
            v = v + 360_000_000;
        }
        while v >= 360_000_000
            invariant
                v >= 0,
                v % 360_000_000 == bearing % 360_000_000,
            decreases v,
        {
            v = v - 360_000_000;
        }
        v
    }

    /// The cardinal sector a bearing falls in.
    pub fn bearing_to_direction(bearing: i64) -> (r: CardinalDirection)
        ensures
            r == direction_of_bearing(bearing as int),
    {
        if bearing >= 337_500_000 || bearing < 22_500_000 {
            CardinalDirection::North
        } else if bearing < 67_500_000 {
            CardinalDirection::NorthEast
        } else if bearing < 112_500_000 {
            CardinalDirection::East
        } else if bearing < 157_500_000 {
            CardinalDirection::SouthEast
        } else if bearing < 202_500_000 {
            CardinalDirection::South
        } else if bearing < 247_500_000 {
            CardinalDirection::SouthWest
        } else if bearing < 292_500_000 {
            CardinalDirection::West
        } else {
            CardinalDirection::NorthWest
        }
    }

    /// Minimal circular distance between a heading and a bearing.
    pub fn angular_difference(heading: i64, bearing: i64) -> (r: i64)
        requires
            0 <= heading <= 360_000_000,
            0 <= bearing < 360_000_000,
        ensures
            r == angular_difference_spec(heading as int, bearing as int),
            0 <= r <= 180_000_000,
    {
        let d: i64 = if heading >= bearing { heading - bearing } else { bearing - heading };
        if d > 180_000_000 { 360_000_000 - d } else { d }
    }

    /// Haversine great-circle distance in meters between two points.
    pub fn calculate_distance(lat1: i64, lon1: i64, lat2: i64, lon2: i64) -> (r: i64)
        requires
            -90_000_000 <= lat1 <= 90_000_000,
            -180_000_000 <= lon1 <= 180_000_000,
            -90_000_000 <= lat2 <= 90_000_000,
            -180_000_000 <= lon2 <= 180_000_000,
        ensures
            r == distance_m_spec(lat1 as int, lon1 as int, lat2 as int, lon2 as int),
            0 <= r <= 20_015_087,
    {
        let adlat: i64 = if lat2 >= lat1 { lat2 - lat1 } else { lat1 - lat2 };
        let adlon: i64 = if lon2 >= lon1 { lon2 - lon1 } else { lon1 - lon2 };
        let half_lat: i64 = adlat / 2;
        let half_lon: i64 = adlon / 2;
        let s_lat: i64 = trig::sin_quarter(half_lat);
        let s_lon: i64 = if half_lon <= 90_000_000 {
            trig::sin_quarter(half_lon)
        } else {
            trig::sin_quarter(180_000_000 - half_lon)
        };
        let alat1: i64 = if lat1 < 0 { -lat1 } else { lat1 };
        let alat2: i64 = if lat2 < 0 { -lat2 } else { lat2 };
        let c1: i64 = trig::sin_quarter(90_000_000 - alat1);
        let c2: i64 = trig::sin_quarter(90_000_000 - alat2);
        let slw: u128 = s_lat as u128;
        let snw: u128 = s_lon as u128;
        let c1w: u128 = c1 as u128;
        let c2w: u128 = c2 as u128;
        proof {
            trig::lemma_mul_bound(slw, slw, 1_000_000_000, 1_000_000_000);
            trig::lemma_mul_bound(snw, snw, 1_000_000_000, 1_000_000_000);
            trig::lemma_mul_bound(c1w, c2w, 1_000_000_000, 1_000_000_000);
        }
        let cc: u128 = c1w * c2w;
        let ss: u128 = snw * snw;
        proof {
            trig::lemma_mul_bound(cc, ss, 1_000_000_000_000_000_000, 1_000_000_000_000_000_000);
        }
        let a_raw: u128 = slw * slw + cc * ss / 1_000_000_000_000_000_000;
        let a: u128 = if a_raw > 1_000_000_000_000_000_000 {
            1_000_000_000_000_000_000
        } else {
            a_raw
        };
        let sq: u128 = trig::isqrt(a);
        proof {
            assert(sq <= 1_000_000_000) by (nonlinear_arith)
                requires
                    sq * sq <= a,
                    a <= 1_000_000_000_000_000_000,
            ;
        }
        let c_rad9: i64 = trig::asin_rad9(sq as i64);
        let dist: u128 = (c_rad9 as u128) * 12_742_000 / 1_000_000_000;
        dist as i64
    }
}

/// The calculation capability: bearing, sector, distance, and the full
/// 16-point table toward the reference point.
pub trait QiblaCalculator {
    /// The true bearing, its cardinal sector, and the great-circle distance.
    fn calculate_qibla(&self, location: &Location) -> (r: QiblaDirection)
        requires
            location.wf(),
        ensures
            r.bearing == qibla_bearing_spec(*location),
            0 <= r.bearing < 360_000_000,
            r.direction == direction_of_bearing(r.bearing as int),
            r.distance_m == distance_m_spec(
                location.latitude as int,
                location.longitude as int,
                KAABA_LATITUDE_UDEG as int,
                KAABA_LONGITUDE_UDEG as int,
            ),
            0 <= r.distance_m <= 20_015_087,
    ;

    /// The 16-point compass table: one entry per heading in ascending order,
    /// the piecewise travel distances, and exactly one optimal entry, the
    /// first of minimal angular difference.
    fn calculate_compass_table(&self, location: &Location) -> (r: CompassTable)
        requires
            location.wf(),
        ensures
            r.location == *location,
            r.qibla_bearing == qibla_bearing_spec(*location),
            0 <= r.qibla_bearing < 360_000_000,
            r.direct_distance_m == distance_m_spec(
                location.latitude as int,
                location.longitude as int,
                KAABA_LATITUDE_UDEG as int,
                KAABA_LONGITUDE_UDEG as int,
            ),
            0 <= r.direct_distance_m <= 20_015_087,
            r.entries@.len() == 16,
            forall|j: int|
                #![trigger r.entries@[j]]
                0 <= j < 16 ==> {
                    let e = r.entries@[j];
                    &&& e.direction == CompassPoint::from_index_spec(j)
                    &&& e.bearing == j * 22_500_000
                    &&& e.angular_difference == angular_difference_spec(
                        j * 22_500_000,
                        r.qibla_bearing as int,
                    )
                    &&& 0 <= e.angular_difference <= 180_000_000
                    &&& e.short_path_distance_m == short_path_spec(
                        r.direct_distance_m as int,
                        e.angular_difference as int,
                    )
                    &&& e.short_path_distance_m >= 0
                    &&& e.long_path_distance_m == EARTH_CIRCUMFERENCE_M - r.direct_distance_m
                    &&& e.long_path_distance_m > 0
                },
            exists|k: int| 0 <= k < 16 && (#[trigger] r.entries@[k].is_optimal_direction),
            forall|j: int, k: int|
                #![trigger r.entries@[j].is_optimal_direction, r.entries@[k].is_optimal_direction]
                0 <= j < 16 && 0 <= k < 16 && r.entries@[j].is_optimal_direction
                    && r.entries@[k].is_optimal_direction ==> j == k,
            forall|j: int, k: int|
                #![trigger r.entries@[k].is_optimal_direction, r.entries@[j].angular_difference]
                0 <= j < 16 && 0 <= k < 16 && r.entries@[k].is_optimal_direction
                    ==> r.entries@[k].angular_difference <= r.entries@[j].angular_difference,
            forall|j: int, k: int|
                #![trigger r.entries@[k].is_optimal_direction, r.entries@[j].angular_difference]
                0 <= j < k < 16 && r.entries@[k].is_optimal_direction
                    ==> r.entries@[j].angular_difference > r.entries@[k].angular_difference,
    ;
}

impl QiblaCalculator for GreatCircleCalculator {
    fn calculate_qibla(&self, location: &Location) -> (r: QiblaDirection) {
        let dlon: i64 = KAABA_LONGITUDE_UDEG - location.longitude;
        let sdlon: i64 = trig::sin_udeg(dlon);
        let cdlon: i64 = trig::cos_udeg(dlon);
        let slat1: i64 = trig::sin_udeg(location.latitude);
        let clat1: i64 = trig::cos_udeg(location.latitude);
        let slat2: i64 = trig::sin_udeg(KAABA_LATITUDE_UDEG);
        let clat2: i64 = trig::cos_udeg(KAABA_LATITUDE_UDEG);
        let y: i64 = trig::fixmul(sdlon, clat2);
        let x: i64 = trig::fixmul(clat1, slat2) - trig::fixmul(trig::fixmul(slat1, clat2), cdlon);
        let raw: i64 = trig::atan2_udeg(y, x);
        let bearing: i64 = GreatCircleCalculator::normalize_bearing(raw);
        let direction: CardinalDirection = GreatCircleCalculator::bearing_to_direction(bearing);
        let distance: i64 = GreatCircleCalculator::calculate_distance(
            location.latitude,
            location.longitude,
            KAABA_LATITUDE_UDEG,
            KAABA_LONGITUDE_UDEG,
        );
        QiblaDirection { bearing, direction, distance_m: distance }
    }

    fn calculate_compass_table(&self, location: &Location) -> (r: CompassTable) {
        let qibla: QiblaDirection = self.calculate_qibla(location);
        let bearing: i64 = qibla.bearing;
        let direct: i64 = qibla.distance_m;

        let mut besti: usize = 0;
        let mut bestd: i64 = GreatCircleCalculator::angular_difference(0, bearing);
        let mut i: usize = 1;
        while i < 16
            invariant
                1 <= i <= 16,
                (besti as int) < i,
                0 <= bearing < 360_000_000,
                bestd == angular_difference_spec(besti as int * 22_500_000, bearing as int),
                forall|j: int|
                    0 <= j < i ==> bestd <= #[trigger] angular_difference_spec(
                        j * 22_500_000,
                        bearing as int,
                    ),
                forall|j: int|
                    0 <= j < besti ==> #[trigger] angular_difference_spec(
                        j * 22_500_000,
                        bearing as int,
                    ) > bestd,
            decreases 16 - i,
        {
            let h: i64 = (i as i64) * 22_500_000;
            let d: i64 = GreatCircleCalculator::angular_difference(h, bearing);
            if d < bestd {
                bestd = d;
                besti = i;
            }
            i = i + 1;
        }

        let mut entries: Vec<CompassEntry> = Vec::new();
        let mut i: usize = 0;
        while i < 16
            invariant
                i <= 16,
                entries@.len() == i as int,
                0 <= bearing < 360_000_000,
                0 <= direct <= 20_015_087,
                (besti as int) < 16,
                forall|j: int|
                    #![trigger entries@[j]]
                    0 <= j < i ==> {
                        let e = entries@[j];
                        &&& e.direction == CompassPoint::from_index_spec(j)
                        &&& e.bearing == j * 22_500_000
                        &&& e.angular_difference == angular_difference_spec(
                            j * 22_500_000,
                            bearing as int,
                        )
                        &&& 0 <= e.angular_difference <= 180_000_000
                        &&& e.short_path_distance_m == short_path_spec(
                            direct as int,
                            e.angular_difference as int,
                        )
                        &&& e.short_path_distance_m >= 0
                        &&& e.long_path_distance_m == EARTH_CIRCUMFERENCE_M - direct
                        &&& e.long_path_distance_m > 0
                        &&& (e.is_optimal_direction <==> j == besti)
                    },
            decreases 16 - i,
        {
            let h: i64 = (i as i64) * 22_500_000;
            let diff: i64 = GreatCircleCalculator::angular_difference(h, bearing);
            let short: i64 = if diff < 90_000_000 {
                let cosv: i64 = trig::sin_quarter(90_000_000 - diff);
                let cm: i64 = if cosv < 1_000_000 { 1_000_000 } else { cosv };
                let num: u128 = (direct as u128) * 1_000_000_000;
                proof {
                    lemma_div_is_ordered_by_denominator(num as int, 1_000_000, cm as int);
                    lemma_div_is_ordered(num as int, 20_015_087_000_000_000, 1_000_000);
                }
                (num / (cm as u128)) as i64
            } else if diff > 90_000_000 {
                EARTH_CIRCUMFERENCE_M - direct
            } else {
                EARTH_CIRCUMFERENCE_M
            };
            let entry: CompassEntry = CompassEntry {
                direction: CompassPoint::from_index(i),
                bearing: h,
                angular_difference: diff,
                short_path_distance_m: short,
                long_path_distance_m: EARTH_CIRCUMFERENCE_M - direct,
                is_optimal_direction: i == besti,
            };
            entries.push(entry);
            i = i + 1;
        }

        let table: CompassTable = CompassTable {
            location: *location,
            qibla_bearing: bearing,
            direct_distance_m: direct,
            entries,
        };
        proof {
            assert(table.entries@[besti as int].is_optimal_direction);
        }
        table
    }
}

} // verus!
