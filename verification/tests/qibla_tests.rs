use meccz::interfaces::Location;
use meccz::qibla::{GreatCircleCalculator, QiblaCalculator};

fn udeg(x: f64) -> i64 {
    (x * 1_000_000.0).round() as i64
}

fn deg(x: i64) -> f64 {
    x as f64 / 1_000_000.0
}

fn km(m: i64) -> f64 {
    m as f64 / 1000.0
}

#[test]
fn test_kaaba_to_kaaba() {
    let calculator = GreatCircleCalculator::new();
    let kaaba = Location {
        latitude: udeg(21.4225),
        longitude: udeg(39.8262),
    };
    let result = calculator.calculate_qibla(&kaaba);

    // Distance should be 0 when at Kaaba
    assert!(km(result.distance_m) < 1.0); // Allow small numerical error
}

#[test]
fn test_paris_qibla() {
    let calculator = GreatCircleCalculator::new();
    let paris = Location {
        latitude: udeg(48.8566),
        longitude: udeg(2.3522),
    };
    let result = calculator.calculate_qibla(&paris);

    // Expected values for Paris (approximate)
    assert!((deg(result.bearing) - 119.0).abs() < 5.0); // Should be around 119 degrees
    assert!(result.direction.label() == "SE");
    assert!((km(result.distance_m) - 4500.0).abs() < 500.0); // Should be around 4500 km
}

#[test]
fn test_new_york_qibla() {
    let calculator = GreatCircleCalculator::new();
    let new_york = Location {
        latitude: udeg(40.7128),
        longitude: udeg(-74.0060),
    };
    let result = calculator.calculate_qibla(&new_york);

    // Expected values for New York (approximate)
    assert!((deg(result.bearing) - 58.0).abs() < 5.0); // Should be around 58 degrees
    assert!(result.direction.label() == "NE");
    assert!((km(result.distance_m) - 10300.0).abs() < 500.0); // Should be around 10300 km
}

#[test]
fn test_guam_qibla() {
    let calculator = GreatCircleCalculator::new();
    let guam = Location {
        latitude: udeg(13.4500),
        longitude: udeg(144.7652),
    };
    let result = calculator.calculate_qibla(&guam);

    // Expected values for Guam (approximate)
    assert!((deg(result.bearing) - 294.0).abs() < 5.0); // Should be around 294 degrees
    assert!(result.direction.label() == "NW");
    assert!((km(result.distance_m) - 11000.0).abs() < 500.0); // Should be around 11000 km
}

#[test]
fn test_direction_mapping() {
    let _calculator = GreatCircleCalculator::new();

    // Test various bearings and their expected directions
    let test_cases = vec![
        (0.0, "N"),
        (45.0, "NE"),
        (90.0, "E"),
        (135.0, "SE"),
        (180.0, "S"),
        (225.0, "SW"),
        (270.0, "W"),
        (315.0, "NW"),
        (359.0, "N"),
    ];

    for (bearing, expected_dir) in test_cases {
        let dir = GreatCircleCalculator::bearing_to_direction(udeg(bearing));
        assert_eq!(dir.label(), expected_dir);
    }
}

#[test]
fn test_distance_calculation_accuracy() {
    let calculator = GreatCircleCalculator::new();

    // Test known distances between major cities
    let paris = Location {
        latitude: udeg(48.8566),
        longitude: udeg(2.3522),
    };
    let london = Location {
        latitude: udeg(51.5074),
        longitude: udeg(-0.1278),
    };

    // Paris to Mecca
    let paris_qibla = calculator.calculate_qibla(&paris);
    // Should be approximately 4500 km
    assert!((km(paris_qibla.distance_m) - 4500.0).abs() < 200.0);

    // London to Mecca
    let london_qibla = calculator.calculate_qibla(&london);
    // Should be approximately 4600 km
    assert!((km(london_qibla.distance_m) - 4600.0).abs() < 200.0);
}

#[test]
fn test_bearing_normalization() {
    let calculator = GreatCircleCalculator::new();

    // Test locations that should give bearings in each quadrant
    let test_locations = vec![
        // North-east bearing
        (
            Location { latitude: udeg(10.0), longitude: udeg(30.0) },
            (0.0, 90.0),
        ),
        // South-east bearing
        (
            Location { latitude: udeg(30.0), longitude: udeg(30.0) },
            (90.0, 180.0),
        ),
        // South-west bearing
        (
            Location { latitude: udeg(30.0), longitude: udeg(50.0) },
            (180.0, 270.0),
        ),
        // North-west bearing
        (
            Location { latitude: udeg(10.0), longitude: udeg(50.0) },
            (270.0, 360.0),
        ),
    ];

    for (location, (min_bearing, max_bearing)) in test_locations {
        let result = calculator.calculate_qibla(&location);
        let b = deg(result.bearing);
        assert!(
            b >= min_bearing && b < max_bearing,
            "Bearing {} not in range [{}, {})",
            b,
            min_bearing,
            max_bearing
        );
    }
}

#[test]
fn bearing_always_in_range() {
    let calculator = GreatCircleCalculator::new();
    let locations = [
        (0.0, 0.0),
        (90.0, 0.0),
        (-90.0, 0.0),
        (0.0, 180.0),
        (0.0, -180.0),
        (21.4225, 39.8262),
        (-33.8688, 151.2093),
        (64.1466, -21.9426),
    ];
    for (lat, lon) in locations {
        let result = calculator.calculate_qibla(&Location {
            latitude: udeg(lat),
            longitude: udeg(lon),
        });
        assert!(result.bearing >= 0 && result.bearing < 360_000_000);
        assert!(result.distance_m >= 0);
    }
}

#[test]
fn classification_boundaries() {
    // Half-open sectors: each boundary belongs to the sector it starts.
    assert_eq!(GreatCircleCalculator::bearing_to_direction(0).label(), "N");
    assert_eq!(
        GreatCircleCalculator::bearing_to_direction(22_500_000).label(),
        "NE"
    );
    // 337.4999 degrees: still below the North wraparound boundary.
    assert_eq!(
        GreatCircleCalculator::bearing_to_direction(337_499_900).label(),
        "NW"
    );
    // 337.5 degrees exactly: the first bearing of the North wraparound
    // sector per the half-open convention.
    assert_eq!(
        GreatCircleCalculator::bearing_to_direction(337_500_000).label(),
        "N"
    );
    assert_eq!(
        GreatCircleCalculator::bearing_to_direction(337_499_999).label(),
        "NW"
    );
    assert_eq!(
        GreatCircleCalculator::bearing_to_direction(292_500_000).label(),
        "NW"
    );
    assert_eq!(
        GreatCircleCalculator::bearing_to_direction(292_499_999).label(),
        "W"
    );
}

#[test]
fn normalize_bearing_exact() {
    assert_eq!(GreatCircleCalculator::normalize_bearing(0), 0);
    assert_eq!(
        GreatCircleCalculator::normalize_bearing(-45_000_000),
        315_000_000
    );
    assert_eq!(
        GreatCircleCalculator::normalize_bearing(360_000_000),
        0
    );
    assert_eq!(
        GreatCircleCalculator::normalize_bearing(725_000_000),
        5_000_000
    );
    assert_eq!(
        GreatCircleCalculator::normalize_bearing(-360_000_001),
        359_999_999
    );
}

#[test]
fn angular_difference_exact() {
    assert_eq!(
        GreatCircleCalculator::angular_difference(0, 350_000_000),
        10_000_000
    );
    assert_eq!(
        GreatCircleCalculator::angular_difference(180_000_000, 0),
        180_000_000
    );
    assert_eq!(
        GreatCircleCalculator::angular_difference(22_500_000, 22_500_000),
        0
    );
    assert_eq!(
        GreatCircleCalculator::angular_difference(337_500_000, 100_000_000),
        122_500_000
    );
}
