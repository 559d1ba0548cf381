use meccz::interfaces::Location;
use meccz::qibla::{GreatCircleCalculator, QiblaCalculator, EARTH_CIRCUMFERENCE_M};

fn udeg(x: f64) -> i64 {
    (x * 1_000_000.0).round() as i64
}

fn deg(x: i64) -> f64 {
    x as f64 / 1_000_000.0
}

fn km(m: i64) -> f64 {
    m as f64 / 1000.0
}

#[test]
fn test_compass_table() {
    let calculator = GreatCircleCalculator::new();
    let paris = Location {
        latitude: udeg(48.8566),
        longitude: udeg(2.3522),
    };
    let table = calculator.calculate_compass_table(&paris);

    // Should have 16 compass directions
    assert_eq!(table.entries.len(), 16);

    // Should have the correct location
    assert!((deg(table.location.latitude) - 48.8566).abs() < 0.0001);
    assert!((deg(table.location.longitude) - 2.3522).abs() < 0.0001);

    // Should have a reasonable Qibla bearing
    assert!(deg(table.qibla_bearing) > 100.0 && deg(table.qibla_bearing) < 130.0);

    // Should have a reasonable direct distance
    assert!(km(table.direct_distance_m) > 4000.0 && km(table.direct_distance_m) < 5000.0);

    // One direction should be marked as optimal
    let optimal_count = table.entries.iter().filter(|e| e.is_optimal_direction).count();
    assert_eq!(optimal_count, 1);

    // All entries should have valid bearings and differences
    for entry in &table.entries {
        assert!(entry.bearing >= 0 && entry.bearing < 360_000_000);
        assert!(entry.angular_difference >= 0 && entry.angular_difference <= 180_000_000);
        assert!(entry.short_path_distance_m > 0);
        assert!(entry.long_path_distance_m > 0);
    }
}

#[test]
fn test_compass_table_mathematical_properties() {
    let calculator = GreatCircleCalculator::new();
    let location = Location {
        latitude: udeg(45.0),
        longitude: udeg(0.0),
    }; // Somewhere in France
    let table = calculator.calculate_compass_table(&location);

    // The sum of all angular differences should follow certain mathematical properties
    let total_angular_diff: i64 = table.entries.iter().map(|e| e.angular_difference).sum();

    // With 16 evenly spaced directions, we expect certain patterns
    assert!(total_angular_diff > 0);

    // The optimal direction should have the smallest angular difference
    let optimal_entry = table.entries.iter().find(|e| e.is_optimal_direction).unwrap();
    let min_diff = table.entries.iter().map(|e| e.angular_difference).min().unwrap();
    assert!(optimal_entry.angular_difference == min_diff);

    // Long path distances should be consistent (all approximately circumference - direct distance)
    let expected_long_distance = 2.0 * std::f64::consts::PI * 6371.0 - km(table.direct_distance_m);
    for entry in &table.entries {
        // Allow some variation due to calculation method
        assert!((km(entry.long_path_distance_m) - expected_long_distance).abs() < 1000.0);
    }
}

#[test]
fn table_headings_ascend_in_fixed_steps() {
    let calculator = GreatCircleCalculator::new();
    let table = calculator.calculate_compass_table(&Location {
        latitude: udeg(40.7128),
        longitude: udeg(-74.0060),
    });
    assert_eq!(table.entries.len(), 16);
    let expected_labels = [
        "N", "NNE", "NE", "ENE", "E", "ESE", "SE", "SSE", "S", "SSW", "SW", "WSW", "W", "WNW",
        "NW", "NNW",
    ];
    for (i, entry) in table.entries.iter().enumerate() {
        assert_eq!(entry.bearing, (i as i64) * 22_500_000);
        assert_eq!(entry.direction.label(), expected_labels[i]);
        if i > 0 {
            assert!(entry.bearing > table.entries[i - 1].bearing);
        }
    }
}

#[test]
fn long_path_identical_across_entries() {
    let calculator = GreatCircleCalculator::new();
    let table = calculator.calculate_compass_table(&Location {
        latitude: udeg(13.45),
        longitude: udeg(144.7652),
    });
    let expected = EARTH_CIRCUMFERENCE_M - table.direct_distance_m;
    for entry in &table.entries {
        assert_eq!(entry.long_path_distance_m, expected);
    }
}

#[test]
fn optimal_entry_is_first_minimum() {
    let calculator = GreatCircleCalculator::new();
    // At the Kaaba itself the bearing is 0, so the North heading (index 0)
    // must win even though other headings tie in no way; a location whose
    // bearing is exactly between two headings must pick the earlier one.
    let table = calculator.calculate_compass_table(&Location {
        latitude: udeg(21.4225),
        longitude: udeg(39.8262),
    });
    let optimal_index = table
        .entries
        .iter()
        .position(|e| e.is_optimal_direction)
        .unwrap();
    let min_diff = table.entries.iter().map(|e| e.angular_difference).min().unwrap();
    assert_eq!(
        table.entries[optimal_index].angular_difference, min_diff,
        "optimal entry must reach the minimal angular difference"
    );
    for (i, entry) in table.entries.iter().enumerate() {
        if i < optimal_index {
            assert!(entry.angular_difference > min_diff);
        }
        assert_eq!(entry.is_optimal_direction, i == optimal_index);
    }
}

#[test]
fn perpendicular_heading_gets_full_circumference() {
    let calculator = GreatCircleCalculator::new();
    let table = calculator.calculate_compass_table(&Location {
        latitude: udeg(48.8566),
        longitude: udeg(2.3522),
    });
    for entry in &table.entries {
        if entry.angular_difference < 90_000_000 {
            // Heading roughly toward the reference point: at least the
            // direct distance, stretched by the secant of the difference.
            assert!(entry.short_path_distance_m >= table.direct_distance_m);
        } else if entry.angular_difference > 90_000_000 {
            assert_eq!(
                entry.short_path_distance_m,
                EARTH_CIRCUMFERENCE_M - table.direct_distance_m
            );
        } else {
            assert_eq!(entry.short_path_distance_m, EARTH_CIRCUMFERENCE_M);
        }
    }
}
