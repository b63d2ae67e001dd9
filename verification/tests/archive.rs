//! Tests of the archive parser and fusion on synthetic zipped GTFS data,
//! of the discovery flattening, and of the real-time feed flattening.

use std::io::{Cursor, Write};

use transit_fusion::model::{
    AlertData, FeedEntityData, InformedEntityData, LineRecord, NVTModels, PeriodData,
    StopPointRecord, VehicleData,
};

fn build_zip(entries: &[(&str, &str)]) -> Vec<u8> {
    let mut cursor = Cursor::new(Vec::new());
    {
        let mut writer = zip::ZipWriter::new(&mut cursor);
        let options = zip::write::SimpleFileOptions::default()
            .compression_method(zip::CompressionMethod::Stored);
        for (name, contents) in entries {
            writer.start_file(*name, options).unwrap();
            writer.write_all(contents.as_bytes()).unwrap();
        }
        writer.finish().unwrap();
    }
    cursor.into_inner()
}

fn regional_archive() -> Vec<u8> {
    build_zip(&[
        (
            "routes.txt",
            "route_id,agency_id,route_short_name,route_long_name,route_desc,route_type,route_url,route_color,route_text_color\n\
             X:Line:99,AG1,99,Ninety Nine,,3,,FF0000,FFFFFF\n",
        ),
        (
            "stops.txt",
            "stop_id,stop_code,stop_name,stop_desc,stop_url,stop_lat,stop_lon,zone_id,parent_station,location_type\n\
             S1,,Stop One,,,44.8378,-0.5792,,,0\n\
             PARENT,,Station,,,44.8,-0.5,,,1\n",
        ),
        (
            "agency.txt",
            "agency_id,agency_name,agency_url,agency_timezone,agency_phone\n\
             AG1,Calibus,https://example.invalid,Europe/Paris,0000\n",
        ),
        (
            "trips.txt",
            "route_id,service_id,trip_id,trip_headsign,direction_id,block_id,wheelchair_accessible,shape_id\n\
             X:Line:99,SVC,T1,End,0,,,SH1\n",
        ),
        (
            "stop_times.txt",
            "trip_id,arrival_time,departure_time,stop_id,stop_sequence,stop_headsign\n\
             T1,08:00:00,08:01:00,S1,1,\n",
        ),
        (
            "calendar.txt",
            "service_id,monday,tuesday,wednesday,thursday,friday,saturday,sunday,start_date,end_date\n\
             SVC,1,1,1,1,1,1,1,20200101,20301231\n",
        ),
        (
            "shapes.txt",
            "shape_id,shape_pt_sequence,shape_pt_lat,shape_pt_lon\n\
             SH1,2,44.85,-0.58\n\
             SH1,1,44.84,-0.57\n",
        ),
    ])
}

#[test]
fn regional_archive_end_to_end() {
    let bytes = regional_archive();
    let cache = NVTModels::parse_transgironde_archive(&bytes, 1000).unwrap();
    assert_eq!(cache.source, "NewAquitaine");
    assert_eq!(cache.cached_at, 1000);
    // Parent stations are excluded.
    assert_eq!(cache.stops.len(), 1);
    assert_eq!(cache.stops[0].0, "S1");
    assert_eq!(cache.stops[0].2, 44_837_800);
    assert_eq!(cache.stops[0].3, -579_200);
    // Shapes are grouped and sorted by sequence.
    assert_eq!(cache.shapes.len(), 1);
    assert_eq!(cache.shapes[0].0, "SH1");
    assert_eq!(cache.shapes[0].1[0].sequence, 1);
    assert_eq!(cache.shapes[0].1[1].sequence, 2);
    // Route-to-shape lists are deduplicated and sorted.
    assert_eq!(cache.route_to_shapes.len(), 1);
    assert_eq!(cache.route_to_shapes[0].1, vec![String::from("SH1")]);

    let (stops, lines, cache) = NVTModels::parse_transgironde_from_cache(cache);
    // Exactly one line with the canonical short code and the cached color.
    assert_eq!(lines.len(), 1);
    assert_eq!(lines[0].line_code, "99");
    assert_eq!(lines[0].color, "FF0000");
    assert_eq!(lines[0].operator, "Calibus");
    assert_eq!(lines[0].line_name, "Calibus 99");
    // Exactly one stop, serving the full route id through the join.
    assert_eq!(stops.len(), 1);
    assert_eq!(stops[0].stop_id, "S1");
    assert_eq!(stops[0].lines, vec![String::from("X:Line:99")]);
    assert_eq!(cache.routes.len(), 1);
}

#[test]
fn archive_without_routes_is_a_file_error() {
    let bytes = build_zip(&[("stops.txt", "stop_id\nS1\n")]);
    let err = NVTModels::parse_transgironde_archive(&bytes, 0).unwrap_err();
    match err {
        transit_fusion::model::NVTError::FileError(_) => {}
        other => panic!("unexpected error kind: {:?}", other),
    }
}

#[test]
fn garbage_bytes_are_a_parse_error() {
    let bytes = vec![1, 2, 3, 4];
    let err = NVTModels::parse_transgironde_archive(&bytes, 0).unwrap_err();
    match err {
        transit_fusion::model::NVTError::ParseError(_) => {}
        other => panic!("unexpected error kind: {:?}", other),
    }
}

#[test]
fn sncf_archive_normalizes_stop_ids() {
    let bytes = build_zip(&[
        (
            "routes.txt",
            "route_id,agency_id,route_short_name,route_long_name,route_desc,route_type,route_url,route_color\n\
             OCE:1,,TGV,Grand,,2,,00FF00\n",
        ),
        (
            "stops.txt",
            "stop_id,stop_code,stop_name,stop_desc,stop_lat,stop_lon,zone,url,parent,location_type\n\
             StopPoint:OCETGV INOUI-87192039,,Bordeaux,,44.8,-0.5,,,,0\n",
        ),
    ]);
    let cache = NVTModels::parse_sncf_archive(&bytes, 5).unwrap();
    assert_eq!(cache.source, "SNCF");
    assert_eq!(cache.stops.len(), 1);
    assert_eq!(cache.stops[0].0, "87192039");
    let (_, lines, _) = NVTModels::parse_sncf_from_cache(cache);
    assert_eq!(lines.len(), 1);
    assert_eq!(lines[0].operator, "SNCF");
    assert_eq!(lines[0].line_name, "SNCF 1");
}

#[test]
fn discovery_stop_points_flatten_and_fail_when_empty() {
    let good = StopPointRecord {
        stop_ref: Some(String::from("net:BP:4242:z")),
        stop_name: Some(String::from("Central")),
        latitude: Some(44_000_000),
        longitude: Some(-500_000),
        lines: vec![String::from("L1")],
    };
    let broken = StopPointRecord {
        stop_ref: None,
        stop_name: Some(String::from("nameless")),
        latitude: Some(0),
        longitude: Some(0),
        lines: Vec::new(),
    };
    let metas = NVTModels::flatten_stop_points(&vec![good, broken.clone()]).unwrap();
    assert_eq!(metas.len(), 1);
    assert_eq!(metas[0].stop_id, "4242");
    assert_eq!(metas[0].stop_name, "Central");
    assert!(NVTModels::flatten_stop_points(&vec![broken]).is_err());
    assert!(NVTModels::flatten_stop_points(&Vec::new()).is_err());
}

#[test]
fn discovery_lines_flatten_and_fail_when_empty() {
    let rec = LineRecord {
        line_ref: Some(String::from("A:B:42:C")),
        line_name: Some(String::from("Forty Two")),
        line_code: Some(String::from("42")),
        destinations: vec![
            (Some(String::from("0")), Some(String::from("North"))),
            (Some(String::from("1")), None),
        ],
    };
    let metas = NVTModels::flatten_line_refs(&vec![rec]).unwrap();
    assert_eq!(metas.len(), 1);
    assert_eq!(metas[0].line_code, "42");
    assert_eq!(metas[0].destinations, vec![(String::from("0"), String::from("North"))]);
    assert!(NVTModels::flatten_line_refs(&Vec::new()).is_err());
}

#[test]
fn feed_alerts_flatten_with_placeholders() {
    let entity = FeedEntityData {
        id: String::from("E1"),
        alert: Some(AlertData {
            header_texts: Vec::new(),
            description_texts: vec![String::from("details")],
            url_texts: Vec::new(),
            informed: vec![
                InformedEntityData {
                    route_id: Some(String::from("R1")),
                    stop_id: None,
                },
                InformedEntityData {
                    route_id: None,
                    stop_id: Some(String::from("S1")),
                },
            ],
            periods: vec![PeriodData { start: Some(5), end: None }],
            severity: None,
        }),
        vehicle: None,
        trip_update: None,
    };
    let alerts = NVTModels::alerts_from_feed(&vec![entity]);
    assert_eq!(alerts.len(), 1);
    assert_eq!(alerts[0].id, "E1");
    assert_eq!(alerts[0].text, "No title");
    assert_eq!(alerts[0].description, "details");
    assert_eq!(alerts[0].route_ids, vec![String::from("R1")]);
    assert_eq!(alerts[0].stop_ids, vec![String::from("S1")]);
    assert_eq!(alerts[0].active_period_start, Some(5));
    assert_eq!(alerts[0].severity, 0);
}

#[test]
fn feed_vehicles_flatten_with_defaults() {
    let entity = FeedEntityData {
        id: String::from("E2"),
        alert: None,
        vehicle: Some(VehicleData {
            vehicle_id: None,
            label: Some(String::from("to town")),
            trip_id: Some(String::from("T9")),
            route_id: Some(String::from("R9")),
            direction_id: Some(1),
            latitude: None,
            longitude: None,
            stop_id: Some(String::from("S9")),
            current_stop_sequence: Some(4),
            timestamp: Some(77),
        }),
        trip_update: None,
    };
    let rt = NVTModels::vehicles_from_feed(&vec![entity]);
    assert_eq!(rt.len(), 1);
    assert_eq!(rt[0].vehicle_id, "Unknown");
    assert_eq!(rt[0].trip_id, "T9");
    assert_eq!(rt[0].destination.as_deref(), Some("to town"));
    assert_eq!(rt[0].latitude, 0);
    assert_eq!(rt[0].timestamp, Some(77));
    assert_eq!(rt[0].delay, None);
}

#[test]
fn network_queries_find_by_id_and_code() {
    let bytes = regional_archive();
    let cache = NVTModels::parse_transgironde_archive(&bytes, 1000).unwrap();
    let (stops, lines, cache) = NVTModels::parse_transgironde_from_cache(cache);
    let network = transit_fusion::model::NetworkData {
        stops,
        lines,
        shapes: cache.shapes.clone(),
    };
    assert!(network.find_stop("S1").is_some());
    assert!(network.find_stop("S2").is_none());
    // The code lookup ignores ASCII case; the line's operator is listed.
    assert!(network.find_line_by_code("99").is_some());
    assert_eq!(network.lines_by_operator("CALIBUS").len(), 1);
    assert_eq!(network.operators(), vec![String::from("Calibus")]);
}
