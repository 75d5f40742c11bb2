use media_metadata_plus::readers::video::iso6709_fields;

fn number(bytes: &[u8]) -> Option<f64> {
    std::str::from_utf8(bytes).ok()?.parse().ok()
}

/// The coordinates of an ISO 6709 string: the library splits the text, the
/// numbers are read as floats here.
fn parse_iso6709(s: &str) -> Option<(f64, f64, Option<f64>)> {
    let f = iso6709_fields(s)?;
    let lat = number(&f.latitude)?;
    let lon = number(&f.longitude)?;
    let alt = f.altitude.as_deref().and_then(number);
    Some((lat, lon, alt))
}

fn assert_close(actual: Option<(f64, f64, Option<f64>)>, lat: f64, lon: f64, alt: Option<f64>) {
    let (a_lat, a_lon, a_alt) = actual.unwrap();
    assert!((a_lat - lat).abs() < 1e-6, "lat: got {a_lat}, want {lat}");
    assert!((a_lon - lon).abs() < 1e-6, "lon: got {a_lon}, want {lon}");
    match (a_alt, alt) {
        (Some(a), Some(e)) => assert!((a - e).abs() < 1e-6, "alt: got {a}, want {e}"),
        (None, None) => {}
        (a, e) => panic!("alt: got {a:?}, want {e:?}"),
    }
}

#[test]
fn parse_iso6709_lat_lon_only() {
    assert_close(
        parse_iso6709("+37.4220-122.0840/"),
        37.4220,
        -122.0840,
        None,
    );
}

#[test]
fn parse_iso6709_with_altitude() {
    assert_close(
        parse_iso6709("+27.5916+086.5640+8850/"),
        27.5916,
        86.5640,
        Some(8850.0),
    );
}

#[test]
fn parse_iso6709_negative_latitude() {
    assert_close(
        parse_iso6709("-33.8688+151.2093/"),
        -33.8688,
        151.2093,
        None,
    );
}

#[test]
fn parse_iso6709_tolerates_missing_trailing_slash() {
    assert_close(parse_iso6709("+37.4220-122.0840"), 37.4220, -122.0840, None);
}

#[test]
fn parse_iso6709_rejects_empty_string() {
    assert_eq!(parse_iso6709(""), None);
    assert_eq!(parse_iso6709("/"), None);
}
