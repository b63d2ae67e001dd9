//! Tests of the identifier normalizer, time parsing, calendars, expiry,
//! matching and the scheduled-arrival calculator, on concrete values.

use transit_fusion::cache::{CachedNetworkData, GTFSCache};
use transit_fusion::model::{
    AlertInfo, CalendarDate, LineMeta, NVTError, NVTModels, RealTimeInfo, ServiceCalendar,
    StopMeta, StopTime, StopTimeUpdateData, Trip, TripUpdateData,
};

fn empty_cache(source: &str, now: u64) -> GTFSCache {
    GTFSCache::empty(String::from(source), now)
}

fn empty_network(now: u64) -> CachedNetworkData {
    CachedNetworkData {
        tbm_stops_metadata: Vec::new(),
        tbm_lines_metadata: Vec::new(),
        tbm_gtfs_cache: empty_cache("TBM", now),
        transgironde_stops: Vec::new(),
        transgironde_lines: Vec::new(),
        transgironde_gtfs_cache: empty_cache("NewAquitaine", now),
        sncf_stops: Vec::new(),
        sncf_lines: Vec::new(),
        sncf_gtfs_cache: empty_cache("SNCF", now),
        last_static_update: now,
        alerts: Vec::new(),
        real_time: Vec::new(),
        trip_updates: Vec::new(),
        last_dynamic_update: now,
    }
}

fn stop_time(trip: &str, arrival: &str, stop: &str, seq: u32) -> StopTime {
    StopTime {
        trip_id: String::from(trip),
        arrival_time: String::from(arrival),
        departure_time: String::from(arrival),
        stop_id: String::from(stop),
        stop_sequence: seq,
        stop_headsign: None,
    }
}

fn trip(id: &str, route: &str, service: &str, headsign: Option<&str>) -> Trip {
    Trip {
        trip_id: String::from(id),
        route_id: String::from(route),
        service_id: String::from(service),
        trip_headsign: headsign.map(String::from),
        direction_id: Some(0),
    }
}

fn all_week(service: &str) -> ServiceCalendar {
    ServiceCalendar {
        service_id: String::from(service),
        monday: true,
        tuesday: true,
        wednesday: true,
        thursday: true,
        friday: true,
        saturday: true,
        sunday: true,
        start_date: String::from("20200101"),
        end_date: String::from("20301231"),
    }
}

#[test]
fn sncf_stop_id_extraction() {
    let r = NVTModels::extract_sncf_stop_id("StopPoint:OCETGV INOUI-87192039").unwrap();
    assert_eq!(r, "87192039");
    let plain = NVTModels::extract_sncf_stop_id("87581234").unwrap();
    assert_eq!(plain, "87581234");
}

#[test]
fn stop_id_extraction_with_marker() {
    let r = NVTModels::extract_stop_id("xx:BP:12345:extra").unwrap();
    assert_eq!(r, "12345");
    let direct = NVTModels::extract_stop_id("BP:7.7").unwrap();
    assert_eq!(direct, "7.7");
}

#[test]
fn stop_id_extraction_second_to_last() {
    let r = NVTModels::extract_stop_id("a:b:c").unwrap();
    assert_eq!(r, "b");
    let two = NVTModels::extract_stop_id("left:right").unwrap();
    assert_eq!(two, "left");
    let bare = NVTModels::extract_stop_id("plain").unwrap();
    assert_eq!(bare, "plain");
}

#[test]
fn line_id_extraction() {
    assert_eq!(NVTModels::extract_line_id("A:B:42:C"), Some("42"));
    assert_eq!(NVTModels::extract_line_id("A:B:42"), Some("42"));
    assert_eq!(NVTModels::extract_line_id("A:B"), None);
}

#[test]
fn line_code_from_route() {
    assert_eq!(
        NVTModels::extract_line_code_from_route("GIRONDE:Line:952", "TransGironde"),
        "952"
    );
    assert_eq!(NVTModels::extract_line_code_from_route("X:Line:99", "TBM"), "99");
    assert_eq!(
        NVTModels::extract_line_code_from_route("OCE:TGV-1234", "SNCF"),
        "OCE:TGV-1234"
    );
}

#[test]
fn gtfs_time_parsing() {
    assert_eq!(NVTModels::parse_gtfs_time("08:15:00"), Some(29700));
    assert_eq!(NVTModels::parse_gtfs_time("25:30:00"), Some(91800));
    assert_eq!(NVTModels::parse_gtfs_time("00:00:00"), Some(0));
    assert_eq!(NVTModels::parse_gtfs_time("8:15"), None);
    assert_eq!(NVTModels::parse_gtfs_time("aa:bb:cc"), None);
    assert_eq!(NVTModels::parse_gtfs_time(""), None);
}

#[test]
fn coordinate_parsing() {
    assert_eq!(transit_fusion::tables::parse_coord("44.8378"), Some(44_837_800));
    assert_eq!(transit_fusion::tables::parse_coord("-0.5792"), Some(-579_200));
    assert_eq!(transit_fusion::tables::parse_coord("45"), Some(45_000_000));
    assert_eq!(transit_fusion::tables::parse_coord(".5"), Some(500_000));
    assert_eq!(transit_fusion::tables::parse_coord("1e5"), None);
    assert_eq!(transit_fusion::tables::parse_coord(""), None);
    assert_eq!(transit_fusion::tables::parse_coord("-"), None);
}

#[test]
fn expiry_boundary_at_fifteen_days() {
    let mut c = empty_cache("TBM", 0);
    c.cached_at = 0;
    assert!(c.is_expired_at(15, 15 * 86400));
    assert!(!c.is_expired_at(15, 15 * 86400 - 1));
    assert!(!c.is_expired_at(15, 0));
    assert!(c.is_expired_at(0, 0));
}

#[test]
fn service_calendar_exception_precedence() {
    let mut cal = all_week("S");
    cal.monday = true;
    let removed = CalendarDate {
        service_id: String::from("S"),
        date: String::from("20250106"),
        exception_type: 2,
    };
    // A Monday with the weekly flag set, removed by a type-2 exception.
    assert!(!NVTModels::is_service_active(
        "S",
        "20250106",
        0,
        &vec![cal.clone()],
        &vec![removed]
    ));
    // A service with no weekly flag, added by a type-1 exception.
    let mut off = all_week("S");
    off.monday = false;
    let added = CalendarDate {
        service_id: String::from("S"),
        date: String::from("20250106"),
        exception_type: 1,
    };
    assert!(NVTModels::is_service_active(
        "S",
        "20250106",
        0,
        &vec![off],
        &vec![added]
    ));
}

#[test]
fn service_calendar_range_and_weekday() {
    let cal = all_week("S");
    assert!(NVTModels::is_service_active("S", "20250106", 0, &vec![cal.clone()], &vec![]));
    // Out of range.
    assert!(!NVTModels::is_service_active("S", "20310101", 0, &vec![cal.clone()], &vec![]));
    // Unknown service.
    assert!(!NVTModels::is_service_active("T", "20250106", 0, &vec![cal], &vec![]));
}

fn calc_cache_with(arrivals: Vec<&str>, now: u64) -> CachedNetworkData {
    let mut net = empty_network(now);
    let mut rows = Vec::new();
    for (i, a) in arrivals.iter().enumerate() {
        rows.push(stop_time(&format!("T{}", i), a, "S1", 1));
    }
    let mut trips = Vec::new();
    for (i, _) in arrivals.iter().enumerate() {
        trips.push(trip(&format!("T{}", i), "X:Line:99", "SVC", Some("End")));
    }
    net.transgironde_gtfs_cache.stop_times = vec![(String::from("S1"), rows)];
    net.transgironde_gtfs_cache.trips = trips;
    net.transgironde_gtfs_cache.calendar = vec![all_week("SVC")];
    net
}

#[test]
fn next_day_wraparound() {
    let net = calc_cache_with(vec!["25:30:00"], 1000);
    // Before the late-evening threshold the next-day time is excluded.
    let early = NVTModels::get_scheduled_arrivals_at("S1", &net, 10, "20250106", 0, 79199);
    assert_eq!(early.len(), 0);
    // At the threshold it appears.
    let late = NVTModels::get_scheduled_arrivals_at("S1", &net, 10, "20250106", 0, 79200);
    assert_eq!(late.len(), 1);
    assert_eq!(late[0].arrival_time, "25:30:00");
}

#[test]
fn same_day_times_only_in_the_future() {
    let net = calc_cache_with(vec!["08:15:00"], 1000);
    let before = NVTModels::get_scheduled_arrivals_at("S1", &net, 10, "20250106", 0, 29700);
    assert_eq!(before.len(), 1);
    let after = NVTModels::get_scheduled_arrivals_at("S1", &net, 10, "20250106", 0, 29701);
    assert_eq!(after.len(), 0);
}

#[test]
fn scheduled_arrivals_sorted_and_truncated() {
    let net = calc_cache_with(vec!["10:00:00", "08:00:00", "09:00:00"], 1000);
    let r = NVTModels::get_scheduled_arrivals_at("S1", &net, 2, "20250106", 0, 0);
    assert_eq!(r.len(), 2);
    assert_eq!(r[0].arrival_time, "08:00:00");
    assert_eq!(r[1].arrival_time, "09:00:00");
    assert_eq!(r[0].line_code, "99");
    assert_eq!(r[0].line_color, "808080");
    assert_eq!(r[0].operator, "TransGironde");
}

#[test]
fn scheduled_arrivals_deduplicate_by_key() {
    // Two rows with the same line code, arrival time and destination but
    // different trip ids: one survives.
    let net = calc_cache_with(vec!["08:00:00", "08:00:00"], 1000);
    let r = NVTModels::get_scheduled_arrivals_at("S1", &net, 10, "20250106", 0, 0);
    assert_eq!(r.len(), 1);
}

fn vehicle(id: &str, stop: &str, ts: Option<i64>) -> RealTimeInfo {
    RealTimeInfo {
        vehicle_id: String::from(id),
        trip_id: String::from("T"),
        route_id: Some(String::from("42")),
        direction_id: Some(0),
        destination: None,
        latitude: 44_000_000,
        longitude: -500_000,
        stop_id: Some(String::from(stop)),
        current_stop_sequence: None,
        timestamp: ts,
        delay: None,
    }
}

#[test]
fn build_stops_matches_filters_and_sorts() {
    let meta = StopMeta {
        stop_id: String::from("S1"),
        stop_name: String::from("Stop One"),
        latitude: 44_000_000,
        longitude: -500_000,
        lines: vec![String::from("LineA")],
    };
    let now: i64 = 10_000;
    let real_time = vec![
        vehicle("late", "S1", Some(9_995)),
        vehicle("stale", "S1", Some(now - 121)),
        vehicle("early", "S1", Some(9_990)),
        vehicle("elsewhere", "S2", Some(9_995)),
        vehicle("undated", "S1", None),
    ];
    let stops = NVTModels::build_stops_at(
        vec![meta],
        &Vec::new(),
        &real_time,
        &Vec::new(),
        &Vec::new(),
        now,
    );
    assert_eq!(stops.len(), 1);
    let s = &stops[0];
    assert_eq!(s.stop_id, "S1");
    assert_eq!(s.lines, vec![String::from("LineA")]);
    // The stale entry and the one at another stop are gone.
    assert_eq!(s.real_time.len(), 3);
    // Ascending by timestamp, the undated entry last.
    assert_eq!(s.real_time[0].vehicle_id, "early");
    assert_eq!(s.real_time[1].vehicle_id, "late");
    assert_eq!(s.real_time[2].vehicle_id, "undated");
    for e in &s.real_time {
        assert_eq!(e.stop_id.as_deref(), Some("S1"));
        if let Some(t) = e.timestamp {
            assert!(t >= now - 120);
        }
    }
}

#[test]
fn build_stops_caps_at_ten_entries() {
    let meta = StopMeta {
        stop_id: String::from("S1"),
        stop_name: String::from("Stop One"),
        latitude: 0,
        longitude: 0,
        lines: Vec::new(),
    };
    let now: i64 = 10_000;
    let mut real_time = Vec::new();
    for i in 0..15 {
        real_time.push(vehicle(&format!("v{}", i), "S1", Some(9_900 + i)));
    }
    let stops = NVTModels::build_stops_at(
        vec![meta],
        &Vec::new(),
        &real_time,
        &Vec::new(),
        &Vec::new(),
        now,
    );
    assert_eq!(stops[0].real_time.len(), 10);
    // The ten soonest survive.
    assert_eq!(stops[0].real_time[0].timestamp, Some(9_900));
    assert_eq!(stops[0].real_time[9].timestamp, Some(9_909));
}

#[test]
fn build_stops_attaches_synthetic_trip_updates() {
    let meta = StopMeta {
        stop_id: String::from("S1"),
        stop_name: String::from("Stop One"),
        latitude: 1,
        longitude: 2,
        lines: Vec::new(),
    };
    let lines_meta = vec![LineMeta {
        line_ref: String::from("op:net:42:x"),
        line_name: String::from("Line 42"),
        line_code: String::from("42"),
        destinations: vec![(String::from("0"), String::from("Terminus"))],
    }];
    let now: i64 = 10_000;
    let tu = TripUpdateData {
        trip_id: Some(String::from("TRIP")),
        route_id: Some(String::from("42")),
        direction_id: Some(0),
        stop_time_updates: vec![StopTimeUpdateData {
            stop_id: Some(String::from("S1")),
            arrival_delay: Some(60),
            arrival_time: Some(10_100),
            departure_delay: None,
            departure_time: None,
        }],
    };
    let stops = NVTModels::build_stops_at(
        vec![meta],
        &Vec::new(),
        &Vec::new(),
        &vec![tu],
        &lines_meta,
        now,
    );
    assert_eq!(stops[0].real_time.len(), 1);
    let e = &stops[0].real_time[0];
    assert_eq!(e.vehicle_id, "scheduled");
    assert_eq!(e.trip_id, "TRIP");
    assert_eq!(e.destination.as_deref(), Some("Terminus"));
    assert_eq!(e.timestamp, Some(10_100));
    assert_eq!(e.delay, Some(60));
    assert_eq!(e.stop_id.as_deref(), Some("S1"));
}

#[test]
fn build_stops_attaches_alerts_by_stop() {
    let meta = StopMeta {
        stop_id: String::from("S1"),
        stop_name: String::from("Stop One"),
        latitude: 0,
        longitude: 0,
        lines: Vec::new(),
    };
    let alert = AlertInfo {
        id: String::from("A1"),
        text: String::from("Works"),
        description: String::from("desc"),
        url: None,
        route_ids: Vec::new(),
        stop_ids: vec![String::from("S1")],
        active_period_start: None,
        active_period_end: None,
        severity: 1,
    };
    let other = AlertInfo {
        stop_ids: vec![String::from("S9")],
        ..alert.clone()
    };
    let stops = NVTModels::build_stops_at(
        vec![meta],
        &vec![alert, other],
        &Vec::new(),
        &Vec::new(),
        &Vec::new(),
        10_000,
    );
    assert_eq!(stops[0].alerts.len(), 1);
    assert_eq!(stops[0].alerts[0].id, "A1");
}

#[test]
fn build_lines_resolves_colors_and_filters() {
    let meta = LineMeta {
        line_ref: String::from("op:net:42:x"),
        line_name: String::from("Line 42"),
        line_code: String::from("42"),
        destinations: Vec::new(),
    };
    let routes = vec![(String::from("42"), String::from("FF00AA"))];
    let now: i64 = 10_000;
    let rt = vec![
        RealTimeInfo {
            route_id: Some(String::from("42")),
            ..vehicle("on-line", "S1", Some(9_990))
        },
        RealTimeInfo {
            route_id: Some(String::from("7")),
            ..vehicle("other-line", "S1", Some(9_990))
        },
    ];
    let lines = NVTModels::build_lines_at(
        vec![meta],
        &Vec::new(),
        &rt,
        &routes,
        &Vec::new(),
        now,
    );
    assert_eq!(lines.len(), 1);
    assert_eq!(lines[0].route_id, "42");
    assert_eq!(lines[0].color, "FF00AA");
    assert_eq!(lines[0].operator, "TBM");
    assert_eq!(lines[0].real_time.len(), 1);
    assert_eq!(lines[0].real_time[0].vehicle_id, "on-line");
}

#[test]
fn apply_dynamic_data_merges_and_retains() {
    let mut net = empty_network(100);
    net.alerts = vec![AlertInfo {
        id: String::from("old"),
        text: String::new(),
        description: String::new(),
        url: None,
        route_ids: Vec::new(),
        stop_ids: Vec::new(),
        active_period_start: None,
        active_period_end: None,
        severity: 0,
    }];
    let sncf_alert = AlertInfo {
        id: String::from("sncf"),
        ..net.alerts[0].clone()
    };
    // An urban fetch failure keeps the old alerts and appends the others.
    net.apply_dynamic_data(None, None, None, Some(vec![sncf_alert]), None, 200);
    assert_eq!(net.alerts.len(), 2);
    assert_eq!(net.alerts[0].id, "old");
    assert_eq!(net.alerts[1].id, "sncf");
    assert_eq!(net.last_dynamic_update, 200);
}

#[test]
fn needs_static_refresh_threshold() {
    let net = empty_network(1000);
    assert!(!net.needs_static_refresh_at(3600, 1000 + 3600));
    assert!(net.needs_static_refresh_at(3600, 1000 + 3601));
}

#[test]
fn error_descriptions() {
    assert_eq!(
        NVTError::NetworkError(String::from("down")).describe(),
        "Network error: down"
    );
    assert_eq!(NVTError::ParseError(String::from("bad")).describe(), "Parse error: bad");
    assert_eq!(NVTError::FileError(String::from("gone")).describe(), "File error: gone");
}

#[test]
fn route_colors_must_be_hex() {
    let mk = |color: &str| -> Vec<Vec<String>> {
        vec![vec![
            String::from("R1"),
            String::new(),
            String::new(),
            String::new(),
            String::new(),
            String::new(),
            String::new(),
            String::from(color),
        ]]
    };
    // Six characters that are not hex digits are rejected.
    assert!(NVTModels::parse_route_colors(&mk("GGGGGG"), 7).is_empty());
    // Mixed-case hex is kept.
    let kept = NVTModels::parse_route_colors(&mk("AbC0eF"), 7);
    assert_eq!(kept.len(), 1);
    assert_eq!(kept[0].1, "AbC0eF");
    // Wrong length is rejected even when hexadecimal.
    assert!(NVTModels::parse_route_colors(&mk("ABC"), 7).is_empty());
}

#[test]
fn vehicle_details_need_a_carrying_line() {
    let mut net = empty_network(1000);
    net.real_time = vec![vehicle("bus-7", "S1", Some(10_000))];
    // The vehicle is tracked, but no fused line carries an entry with it:
    // no detail is owed.
    let empty_view = net.to_network_data_at(10_000);
    assert!(NVTModels::vehicle_details_in("bus-7", &net, &empty_view).is_none());
    // With a line whose canonical id matches the vehicle's route, the
    // detail is owed and copies the line's fields.
    net.tbm_lines_metadata = vec![LineMeta {
        line_ref: String::from("op:net:42:x"),
        line_name: String::from("Line 42"),
        line_code: String::from("42"),
        destinations: Vec::new(),
    }];
    let view = net.to_network_data_at(10_000);
    let details = NVTModels::vehicle_details_in("bus-7", &net, &view).unwrap();
    assert_eq!(details.line_name, "Line 42");
    assert_eq!(details.operator, "TBM");
}

#[test]
fn timestamp_display_in_paris() {
    assert_eq!(NVTModels::format_timestamp_full(0), "1970-01-01 01:00:00");
}

#[test]
fn cache_stats_text() {
    let net = empty_network(1000);
    let text = NVTModels::get_cache_stats_at(&net, 1000);
    assert_eq!(
        text,
        "Cache Statistics:\n\
         - TBM: 0 stops, 0 lines\n\
         - New-Aquitaine: 0 stops, 0 lines\n\
         - SNCF: 0 stops, 0 lines\n\
         - TBM Colors: 0 | TBM Shapes: 0\n\
         - New-Aquitaine Colors: 0 | New-Aquitaine Shapes: 0\n\
         - SNCF Colors: 0 | SNCF Shapes: 0\n\
         - Vehicles tracked: 0 | Alerts: 0\n\
         - Static data age: 0s | Dynamic data age: 0s\n\
         - Last update: 1970-01-01 01:16:40"
    );
}

#[test]
fn network_projection_concatenates_operators() {
    let mut net = empty_network(1000);
    net.tbm_stops_metadata = vec![StopMeta {
        stop_id: String::from("U1"),
        stop_name: String::from("Urban"),
        latitude: 1,
        longitude: 2,
        lines: Vec::new(),
    }];
    net.transgironde_stops = vec![transit_fusion::model::Stop {
        stop_id: String::from("R1"),
        stop_name: String::from("Regional"),
        latitude: 3,
        longitude: 4,
        lines: Vec::new(),
        alerts: Vec::new(),
        real_time: Vec::new(),
    }];
    let network = net.to_network_data_at(10_000);
    assert_eq!(network.stops.len(), 2);
    assert_eq!(network.stops[0].stop_id, "U1");
    assert_eq!(network.stops[1].stop_id, "R1");
    assert!(network.lines.is_empty());
    assert!(network.shapes.is_empty());
}

#[test]
fn vehicle_details_carry_the_vehicle() {
    let mut net = empty_network(1000);
    let v = vehicle("bus-7", "S1", Some(10_000));
    net.real_time = vec![v.clone()];
    net.tbm_lines_metadata = vec![LineMeta {
        line_ref: String::from("op:net:42:x"),
        line_name: String::from("Line 42"),
        line_code: String::from("42"),
        destinations: Vec::new(),
    }];
    let details = NVTModels::get_vehicle_details_at("bus-7", &net, 10_000).unwrap();
    assert_eq!(details.vehicle_id, "bus-7");
    assert_eq!(details.trip_id, v.trip_id);
    assert_eq!(details.line_code, "42");
    assert!(NVTModels::get_vehicle_details_at("ghost", &net, 10_000).is_none());
}
