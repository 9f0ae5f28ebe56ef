use std::cell::Cell;

use mooncal::calendar::build_calendar;
use mooncal::calendar::calendar_attachment;
use mooncal::calendar::event_description;
use mooncal::calendar::event_times;
use mooncal::calendar::generate_calendar;
use mooncal::calendar::CalendarError;
use mooncal::calendar::CreateCalendar;
use mooncal::datetime::civil_from_unix;
use mooncal::datetime::format_dtstamp;
use mooncal::datetime::format_readable_utc;
use mooncal::julian::julian_to_unix;
use mooncal::julian::solar_day_start;
use mooncal::julian::unix_to_julian;
use mooncal::moonrise::generate_moonrises;
use mooncal::moonrise::needs_requery;
use mooncal::moonrise::MoonriseOracle;
use mooncal::robots;
use mooncal::search::json_escape;
use mooncal::search::search_query_body;
use mooncal::FeatureClass;
use mooncal::LocationResponse;
use mooncal::LocationSource;

fn sample_source() -> LocationSource {
    LocationSource {
        name: "New York City".to_string(),
        ascii_name: "New York City".to_string(),
        location: vec![-74000000, 40700000],
        feature_class: "P".to_string(),
        feature_code: "PPL".to_string(),
        country_code: "US".to_string(),
        admin1: Some("NY".to_string()),
        admin2: None,
        population: Some(8000000),
        elevation: Some(10),
        timezone: "America/New_York".to_string(),
        modification_date: "2020-01-01".to_string(),
    }
}

/// An oracle that reports one moonrise a fixed offset into every solar day.
struct SteadyOracle {
    offset: i64,
    calls: Cell<u64>,
}

impl MoonriseOracle for SteadyOracle {
    fn moonrise(&self, day_start: i64, _lon_udeg: i64, _lat_udeg: i64) -> Option<i64> {
        self.calls.set(self.calls.get() + 1);
        Some(day_start + self.offset)
    }
}

/// An oracle that reports no moonrise for one chosen solar day.
struct GapOracle {
    skipped_day: i64,
}

impl MoonriseOracle for GapOracle {
    fn moonrise(&self, day_start: i64, _lon_udeg: i64, _lat_udeg: i64) -> Option<i64> {
        if day_start == self.skipped_day {
            None
        } else {
            Some(day_start + 40000)
        }
    }
}

/// An oracle whose first two naive answers lie 100 seconds apart, the
/// day-boundary aliasing artifact the generator corrects.
struct AliasedOracle {
    base: i64,
    calls: Cell<u64>,
}

impl MoonriseOracle for AliasedOracle {
    fn moonrise(&self, day_start: i64, _lon_udeg: i64, _lat_udeg: i64) -> Option<i64> {
        self.calls.set(self.calls.get() + 1);
        if day_start == self.base {
            Some(self.base + 86300)
        } else if day_start == self.base + 86400 {
            Some(self.base + 86400)
        } else {
            Some(day_start + 500)
        }
    }
}

const NOW: i64 = 1700000000;

#[test]
fn julian_round_trip_representative_timestamps() {
    for t in [0i64, 1, -1, 86400, -86400, 1700000000, -210866760000, 253000000000] {
        let jd = unix_to_julian(t);
        assert_eq!(julian_to_unix(jd), t);
    }
}

#[test]
fn julian_of_epoch() {
    // The Unix epoch falls at Julian Date 2440587.5 days.
    let jd = unix_to_julian(0);
    assert_eq!(jd.half_seconds, 421733520000);
    assert_eq!(julian_to_unix(jd), 0);
}

#[test]
fn solar_day_start_at_zero_longitude() {
    // At longitude zero the solar day is the UTC day.
    assert_eq!(solar_day_start(NOW, 0), (NOW / 86400) * 86400);
}

#[test]
fn solar_day_start_shifts_with_longitude() {
    let utc_day = (NOW / 86400) * 86400;
    // NOW is 22:13:20 into its UTC day; at longitude 180 the day boundary
    // moves half a day earlier, so the instant falls in the next solar day.
    assert_eq!(solar_day_start(NOW, 180000000), utc_day + 86400);
    assert_eq!(solar_day_start(NOW, -180000000), utc_day);
}

#[test]
fn generator_returns_at_most_n_increasing_instants() {
    let oracle = SteadyOracle { offset: 40000, calls: Cell::new(0) };
    let rises = generate_moonrises(&oracle, NOW, 40700000, -74000000, 5);
    assert_eq!(rises.len(), 5);
    for w in rises.windows(2) {
        assert!(w[0] < w[1]);
        assert!(w[1] - w[0] > 500);
    }
}

#[test]
fn generator_skips_days_without_moonrise() {
    let s0 = solar_day_start(NOW, 0);
    let oracle = GapOracle { skipped_day: s0 + 86400 };
    let rises = generate_moonrises(&oracle, NOW, 10000000, 0, 3);
    assert_eq!(rises, vec![s0 + 40000, s0 + 2 * 86400 + 40000]);
}

#[test]
fn proximity_correction_requeries_next_boundary() {
    let s0 = solar_day_start(NOW, 0);
    let oracle = AliasedOracle { base: s0, calls: Cell::new(0) };
    let rises = generate_moonrises(&oracle, NOW, 10000000, 0, 2);
    // The second naive answer lay 100 seconds after the first accepted
    // instant, so the generator asked the next boundary once more.
    assert_eq!(oracle.calls.get(), 3);
    assert_eq!(rises, vec![s0 + 86300, s0 + 2 * 86400 + 500]);
    for w in rises.windows(2) {
        assert!(w[1] - w[0] > 500);
    }
}

#[test]
fn requery_decision() {
    assert!(!needs_requery(1000, None));
    assert!(needs_requery(1000, Some(1500)));
    assert!(!needs_requery(1000, Some(1501)));
    // An answer before the previously accepted instant also triggers the
    // correction.
    assert!(needs_requery(1000, Some(400)));
}

#[test]
fn compact_rendering_near_supported_maximum() {
    let text = format_dtstamp(253234079999);
    assert_eq!(text.len(), 16);
    assert!(text.starts_with("9994"));
    assert!(text.ends_with("Z"));
}

#[test]
fn event_times_exact_offsets() {
    let (start, end) = event_times(1700000000, 30, 45);
    assert_eq!(start, 1700000000 - 30 * 60);
    assert_eq!(end, 1700000000 + 45 * 60);
}

#[test]
fn civil_date_of_epoch_and_leap_day() {
    let c = civil_from_unix(0);
    assert_eq!((c.year, c.month, c.day, c.hour, c.minute, c.second), (1970, 1, 1, 0, 0, 0));
    let leap = civil_from_unix(1709164800);
    assert_eq!((leap.year, leap.month, leap.day), (2024, 2, 29));
}

#[test]
fn compact_and_readable_renderings() {
    assert_eq!(format_dtstamp(0), "19700101T000000Z");
    assert_eq!(format_dtstamp(1700000000), "20231114T221320Z");
    assert_eq!(format_readable_utc(1700000000), "2023-11-14 22:13:20 UTC");
}

#[test]
fn description_renders_in_requested_timezone() {
    let d = event_description(1700000000, &Some("America/New_York".to_string()));
    assert_eq!(d, "Moonrise @ 2023-11-14 17:13:20 EST");
}

#[test]
fn description_falls_back_to_utc_for_unknown_timezone() {
    let d = event_description(1700000000, &Some("Not/A_Zone".to_string()));
    assert_eq!(d, "Moonrise @ 2023-11-14 22:13:20 UTC");
    let default = event_description(1700000000, &None);
    assert_eq!(default, "Moonrise @ 2023-11-14 22:13:20 UTC");
}

#[test]
fn calendar_document_shape() {
    let moonrises = vec![1700000000i64, 1700086400, 1700172800];
    let doc = build_calendar(&moonrises, 15, 15, &None, &None);
    assert!(doc.starts_with("BEGIN:VCALENDAR\r\n"));
    assert!(doc.ends_with("END:VCALENDAR\r\n"));
    assert_eq!(doc.matches("BEGIN:VEVENT").count(), 3);
    assert_eq!(doc.matches("SUMMARY:Moonrise\r\n").count(), 3);
    assert_eq!(doc.matches("DESCRIPTION:Moonrise @ ").count(), 3);
    assert!(doc.contains("DTSTART:20231114T215820Z"));
    assert!(doc.contains("DTEND:20231114T222820Z"));
}

#[test]
fn calendar_document_exact_text() {
    let moonrises = vec![1700000000i64];
    let doc = build_calendar(&moonrises, 0, 0, &None, &None);
    assert_eq!(
        doc,
        "BEGIN:VCALENDAR\r\nVERSION:2.0\r\nPRODID:-//mooncal//EN\r\n\
         BEGIN:VEVENT\r\nSUMMARY:Moonrise\r\n\
         DESCRIPTION:Moonrise @ 2023-11-14 22:13:20 UTC\r\n\
         DTSTART:20231114T221320Z\r\nDTEND:20231114T221320Z\r\n\
         END:VEVENT\r\nEND:VCALENDAR\r\n"
    );
}

#[test]
fn compact_rendering_at_year_boundary() {
    assert_eq!(format_dtstamp(1704067199), "20231231T235959Z");
    assert_eq!(format_dtstamp(1704067200), "20240101T000000Z");
}

#[test]
fn calendar_document_custom_summary() {
    let moonrises = vec![1700000000i64];
    let doc = build_calendar(&moonrises, 0, 0, &Some("Luna".to_string()), &None);
    assert!(doc.contains("SUMMARY:Luna\r\n"));
    assert!(doc.contains("DTSTART:20231114T221320Z"));
}

#[test]
fn calendar_endpoint_scenario() {
    let oracle = SteadyOracle { offset: 50000, calls: Cell::new(0) };
    let request = CreateCalendar {
        lat: 40700000,
        lon: -74000000,
        before: 15,
        after: 15,
        number_of_days: 3,
        summary: None,
        timezone: None,
    };
    let doc = generate_calendar(&oracle, NOW, &request).unwrap();
    let events = doc.matches("BEGIN:VEVENT").count();
    assert!(events <= 3);
    assert_eq!(doc.matches("SUMMARY:Moonrise\r\n").count(), events);
    assert_eq!(doc.matches("DESCRIPTION:Moonrise @ ").count(), events);
    assert_eq!(calendar_attachment(), "attachment; filename=\"moonrises.ical\"");
}

#[test]
fn calendar_request_validation() {
    let oracle = SteadyOracle { offset: 50000, calls: Cell::new(0) };
    let good = CreateCalendar {
        lat: 40700000,
        lon: -74000000,
        before: 15,
        after: 15,
        number_of_days: 3,
        summary: None,
        timezone: None,
    };
    assert!(generate_calendar(&oracle, NOW, &good).is_ok());
    let mut bad = good.clone();
    bad.lat = 91000000;
    assert_eq!(generate_calendar(&oracle, NOW, &bad), Err(CalendarError::InvalidLatitude));
    let mut bad = good.clone();
    bad.lon = -181000000;
    assert_eq!(generate_calendar(&oracle, NOW, &bad), Err(CalendarError::InvalidLongitude));
    let mut bad = good.clone();
    bad.number_of_days = 0;
    assert_eq!(generate_calendar(&oracle, NOW, &bad), Err(CalendarError::InvalidDayCount));
    let mut bad = good.clone();
    bad.before = 2000000;
    assert_eq!(generate_calendar(&oracle, NOW, &bad), Err(CalendarError::OffsetTooLarge));
}

#[test]
fn empty_window_yields_empty_document() {
    let s0 = solar_day_start(NOW, 0);
    let oracle = GapOracle { skipped_day: s0 };
    let request = CreateCalendar {
        lat: 80000000,
        lon: 0,
        before: 5,
        after: 5,
        number_of_days: 1,
        summary: None,
        timezone: None,
    };
    let doc = generate_calendar(&oracle, NOW, &request).unwrap();
    assert_eq!(doc.matches("BEGIN:VEVENT").count(), 0);
    assert!(doc.starts_with("BEGIN:VCALENDAR\r\n"));
    assert!(doc.ends_with("END:VCALENDAR\r\n"));
}

#[test]
fn feature_class_decoding() {
    assert_eq!(FeatureClass::from_str("A"), Some(FeatureClass::Region));
    assert_eq!(FeatureClass::from_str("H"), Some(FeatureClass::WaterBody));
    assert_eq!(FeatureClass::from_str("L"), Some(FeatureClass::Area));
    assert_eq!(FeatureClass::from_str("P"), Some(FeatureClass::City));
    assert_eq!(FeatureClass::from_str("R"), Some(FeatureClass::Road));
    assert_eq!(FeatureClass::from_str("S"), Some(FeatureClass::Spot));
    assert_eq!(FeatureClass::from_str("T"), Some(FeatureClass::Hill));
    assert_eq!(FeatureClass::from_str("U"), Some(FeatureClass::Undersea));
    assert_eq!(FeatureClass::from_str("V"), Some(FeatureClass::Forest));
    assert_eq!(FeatureClass::from_str(""), None);
    assert_eq!(FeatureClass::from_str("X"), None);
    assert_eq!(FeatureClass::from_str("AB"), None);
}

#[test]
fn location_record_swaps_stored_coordinate_order() {
    let record = LocationResponse::from_source_with_id("42", sample_source()).unwrap();
    assert_eq!(record.longitude, -74000000);
    assert_eq!(record.latitude, 40700000);
    assert_eq!(record.id, "42");
    assert_eq!(record.name, "New York City");
    assert_eq!(record.feature_class, Some(FeatureClass::City));
    assert_eq!(record.population, Some(8000000));
    assert_eq!(record.admin2, None);
}

#[test]
fn location_record_rejects_empty_coordinates() {
    let mut source = sample_source();
    source.location = vec![];
    assert!(LocationResponse::from_source_with_id("42", source).is_none());
}

#[test]
fn json_escaping() {
    assert_eq!(json_escape("plain"), "plain");
    assert_eq!(json_escape("a\"b\\c"), "a\\\"b\\\\c");
    assert_eq!(json_escape("line\nbreak"), "line\\u000abreak");
    assert_eq!(json_escape("\u{1f}"), "\\u001f");
}

#[test]
fn search_body_embeds_escaped_query() {
    let body = search_query_body("York");
    assert_eq!(
        body,
        "{\"query\":{\"bool\":{\"must\":{\"multi_match\":{\"fields\":[\"name\",\"country_code\"],\"query\":\"York\",\"fuzziness\":\"AUTO\"}},\"filter\":{\"range\":{\"population\":{\"gt\":0}}}}}}"
    );
    let quoted = search_query_body("a\"b");
    assert!(quoted.contains("\"query\":\"a\\\"b\""));
}

#[test]
fn robots_disallows_all() {
    assert_eq!(robots(), "User-Agent: *\nDisallow: /");
}
