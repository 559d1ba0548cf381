//! Geodesic engine computing the great-circle bearing and distance from a
//! point on Earth to the Kaaba, together with a 16-point compass table.
//!
//! All angles are held in micro-degrees (1 degree = 1_000_000 units) and all
//! distances in meters, so that every computation is exact integer arithmetic
//! with a verified relation between each result and its specification.

pub mod geocoding;
pub mod interfaces;
pub mod qibla;
pub mod trig;
