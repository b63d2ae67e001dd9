//! Assembles a per-operator [`GTFSCache`] from the raw bytes of a zipped
//! GTFS archive. Missing optional tables degrade to empty results; a
//! missing required table (routes, stops) is a hard failure, and bytes that
//! are no readable archive fail the parse.

use vstd::prelude::*;

use crate::cache::GTFSCache;
use crate::model::{NVTError, NVTModels};
use crate::tables::{
    agencies_spec, calendar_dates_spec, calendar_spec, csv_rows, csv_rows_of, route_agencies_spec,
    route_colors_spec, route_shape_rows_spec, route_shapes_ok, shape_rows_spec, shape_table_ok,
    sncf_stops_spec, stop_rows_match, stop_time_rows_spec, stop_times_table_ok, tbm_stops_spec,
    transfers_spec, transgironde_stops_spec, trips_spec, zip_entry, zip_entry_of,
};

verus! {

/// Whether the archive holds a readable entry of this name.
pub open spec fn entry_ok(bytes: Seq<u8>, name: Seq<char>) -> bool {
    zip_entry_of(bytes, name) matches Some(Some(_))
}

/// The text of an entry known to be readable.
pub open spec fn entry_text(bytes: Seq<u8>, name: Seq<char>) -> Seq<char> {
    zip_entry_of(bytes, name).unwrap().unwrap()
}

/// The deep views of a record list.
pub open spec fn rows_deep_view(rows: Seq<Vec<String>>) -> Seq<Seq<Seq<char>>> {
    rows.map_values(|v: Vec<String>| v.deep_view())
}

/// Whether `rel` holds of record rows whose views are the given entry's CSV
/// records: what a table derived from that entry satisfies.
pub open spec fn derived_from_entry(
    bytes: Seq<u8>,
    name: Seq<char>,
    rel: spec_fn(Seq<Vec<String>>) -> bool,
) -> bool {
    exists|rows: Seq<Vec<String>>|
        #[trigger] rows_deep_view(rows) == csv_rows_of(entry_text(bytes, name)) && rel(rows)
}

/// Reads one optional table: its CSV records when the entry is readable, no
/// records otherwise.
fn read_optional_rows(zip_bytes: &Vec<u8>, name: &str) -> (r: Vec<Vec<String>>)
    ensures
        entry_ok(zip_bytes@, name@) ==> rows_deep_view(r@) == csv_rows_of(
            entry_text(zip_bytes@, name@),
        ),
        !entry_ok(zip_bytes@, name@) ==> r@.len() == 0,
{
    match zip_entry(zip_bytes, name) {
        Some(Some(text)) => {
            let rows = csv_rows(text.as_str());
            proof {
                assert(rows_deep_view(rows@) =~= rows.deep_view());
                assert(text@ == entry_text(zip_bytes@, name@));
            }
            rows
        },
        _ => Vec::new(),
    }
}

/// Reads one required table: its CSV records, a parse failure when the
/// bytes are no archive, a file failure when the entry is missing.
fn read_required_rows(zip_bytes: &Vec<u8>, name: &str) -> (r: Result<Vec<Vec<String>>, NVTError>)
    ensures
        r is Ok <==> entry_ok(zip_bytes@, name@),
        zip_entry_of(zip_bytes@, name@) is None ==> (r matches Err(NVTError::ParseError(_))),
        (zip_entry_of(zip_bytes@, name@) matches Some(None)) ==> (r matches Err(
            NVTError::FileError(_),
        )),
        r is Ok ==> rows_deep_view(r.unwrap()@) == csv_rows_of(entry_text(zip_bytes@, name@)),
{
    match zip_entry(zip_bytes, name) {
        Some(Some(text)) => {
            let rows = csv_rows(text.as_str());
            proof {
                assert(rows_deep_view(rows@) =~= rows.deep_view());
                assert(text@ == entry_text(zip_bytes@, name@));
            }
            Ok(rows)
        },
        Some(None) => Err(NVTError::FileError(String::from_str("required table not found"))),
        None => Err(NVTError::ParseError(String::from_str("failed to open archive"))),
    }
}

impl NVTModels {
    /// Parses the regional operator's archive into its cache: routes and
    /// stops are required, the remaining tables degrade to empty when
    /// absent, and the cache is stamped at `now` under the regional source
    /// label.
    pub fn parse_transgironde_archive(zip_bytes: &Vec<u8>, now: u64) -> (r: Result<
        GTFSCache,
        NVTError,
    >)
        ensures
            r is Ok <==> entry_ok(zip_bytes@, "routes.txt"@) && entry_ok(
                zip_bytes@,
                "stops.txt"@,
            ),
            r is Ok ==> {
                let c = r.unwrap();
                &&& c.cached_at == now
                &&& c.source@ == "NewAquitaine"@
                &&& derived_from_entry(
                    zip_bytes@,
                    "routes.txt"@,
                    (|rows: Seq<Vec<String>>| c.routes@ == route_colors_spec(rows, 7)
                        && c.route_agencies@ == route_agencies_spec(rows)),
                )
                &&& derived_from_entry(
                    zip_bytes@,
                    "stops.txt"@,
                    (|rows: Seq<Vec<String>>| c.stops@ == transgironde_stops_spec(rows)),
                )
                &&& (entry_ok(zip_bytes@, "agency.txt"@) ==> derived_from_entry(
                    zip_bytes@,
                    "agency.txt"@,
                    (|rows: Seq<Vec<String>>| c.agencies@ == agencies_spec(rows)),
                ))
                &&& (!entry_ok(zip_bytes@, "agency.txt"@) ==> c.agencies@.len() == 0)
                &&& (entry_ok(zip_bytes@, "shapes.txt"@) ==> derived_from_entry(
                    zip_bytes@,
                    "shapes.txt"@,
                    (|rows: Seq<Vec<String>>| shape_table_ok(
                        c.shapes@,
                        shape_rows_spec(rows, 1, 2, 3),
                    )),
                ))
                &&& (!entry_ok(zip_bytes@, "shapes.txt"@) ==> c.shapes@.len() == 0)
                &&& (entry_ok(zip_bytes@, "trips.txt"@) ==> derived_from_entry(
                    zip_bytes@,
                    "trips.txt"@,
                    (|rows: Seq<Vec<String>>| route_shapes_ok(
                        c.route_to_shapes@,
                        route_shape_rows_spec(rows, 7),
                    ) && c.trips@ == trips_spec(rows)),
                ))
                &&& (!entry_ok(zip_bytes@, "trips.txt"@) ==> c.route_to_shapes@.len() == 0
                    && c.trips@.len() == 0)
                &&& (entry_ok(zip_bytes@, "stop_times.txt"@) ==> derived_from_entry(
                    zip_bytes@,
                    "stop_times.txt"@,
                    (|rows: Seq<Vec<String>>| stop_times_table_ok(
                        c.stop_times@,
                        stop_time_rows_spec(rows),
                    )),
                ))
                &&& (!entry_ok(zip_bytes@, "stop_times.txt"@) ==> c.stop_times@.len() == 0)
                &&& (entry_ok(zip_bytes@, "calendar.txt"@) ==> derived_from_entry(
                    zip_bytes@,
                    "calendar.txt"@,
                    (|rows: Seq<Vec<String>>| c.calendar@ == calendar_spec(rows)),
                ))
                &&& (!entry_ok(zip_bytes@, "calendar.txt"@) ==> c.calendar@.len() == 0)
                &&& (entry_ok(zip_bytes@, "calendar_dates.txt"@) ==> derived_from_entry(
                    zip_bytes@,
                    "calendar_dates.txt"@,
                    (|rows: Seq<Vec<String>>| c.calendar_dates@ == calendar_dates_spec(rows)),
                ))
                &&& (!entry_ok(zip_bytes@, "calendar_dates.txt"@) ==> c.calendar_dates@.len()
                    == 0)
                &&& (entry_ok(zip_bytes@, "transfers.txt"@) ==> derived_from_entry(
                    zip_bytes@,
                    "transfers.txt"@,
                    (|rows: Seq<Vec<String>>| c.transfers@ == transfers_spec(rows)),
                ))
                &&& (!entry_ok(zip_bytes@, "transfers.txt"@) ==> c.transfers@.len() == 0)
            },
    {
        let agency_rows = read_optional_rows(zip_bytes, "agency.txt");
        let agencies = Self::parse_agencies(&agency_rows);
        let route_rows = match read_required_rows(zip_bytes, "routes.txt") {
            Ok(rows) => rows,
            Err(e) => {
                return Err(e);
            },
        };
        let (routes, route_agencies) = Self::parse_transgironde_routes(&route_rows);
        let stop_rows = match read_required_rows(zip_bytes, "stops.txt") {
            Ok(rows) => rows,
            Err(e) => {
                return Err(e);
            },
        };
        let stops = Self::parse_transgironde_stops(&stop_rows);
        let shape_rows = read_optional_rows(zip_bytes, "shapes.txt");
        let shapes = Self::parse_transgironde_shapes(&shape_rows);
        let trip_rows = read_optional_rows(zip_bytes, "trips.txt");
        let route_to_shapes = Self::parse_transgironde_trips(&trip_rows);
        let trips = Self::parse_trips_info(&trip_rows);
        let st_rows = read_optional_rows(zip_bytes, "stop_times.txt");
        let stop_times = Self::parse_stop_times(&st_rows);
        let cal_rows = read_optional_rows(zip_bytes, "calendar.txt");
        let calendar = Self::parse_calendar(&cal_rows);
        let cd_rows = read_optional_rows(zip_bytes, "calendar_dates.txt");
        let calendar_dates = Self::parse_calendar_dates(&cd_rows);
        let tr_rows = read_optional_rows(zip_bytes, "transfers.txt");
        let transfers = Self::parse_transfers(&tr_rows);
        let cache = GTFSCache {
            routes,
            stops,
            shapes,
            route_to_shapes,
            stop_times,
            trips,
            calendar,
            calendar_dates,
            agencies,
            route_agencies,
            transfers,
            cached_at: now,
            source: String::from_str("NewAquitaine"),
        };
        Ok(cache)
    }

    /// Parses the national-rail archive into its cache: routes and stops
    /// are required; the agency, route-agency and transfer tables are not
    /// part of this export and stay empty; the cache is stamped at `now`
    /// under the national-rail source label.
    pub fn parse_sncf_archive(zip_bytes: &Vec<u8>, now: u64) -> (r: Result<GTFSCache, NVTError>)
        ensures
            r is Ok <==> entry_ok(zip_bytes@, "routes.txt"@) && entry_ok(
                zip_bytes@,
                "stops.txt"@,
            ),
            r is Ok ==> {
                let c = r.unwrap();
                &&& c.cached_at == now
                &&& c.source@ == "SNCF"@
                &&& c.agencies@.len() == 0
                &&& c.route_agencies@.len() == 0
                &&& c.transfers@.len() == 0
                &&& derived_from_entry(
                    zip_bytes@,
                    "routes.txt"@,
                    (|rows: Seq<Vec<String>>| c.routes@ == route_colors_spec(rows, 7)),
                )
                &&& derived_from_entry(
                    zip_bytes@,
                    "stops.txt"@,
                    (|rows: Seq<Vec<String>>| stop_rows_match(c.stops@, sncf_stops_spec(rows))),
                )
                &&& (entry_ok(zip_bytes@, "shapes.txt"@) ==> derived_from_entry(
                    zip_bytes@,
                    "shapes.txt"@,
                    (|rows: Seq<Vec<String>>| shape_table_ok(
                        c.shapes@,
                        shape_rows_spec(rows, 3, 1, 2),
                    )),
                ))
                &&& (!entry_ok(zip_bytes@, "shapes.txt"@) ==> c.shapes@.len() == 0)
                &&& (entry_ok(zip_bytes@, "trips.txt"@) ==> derived_from_entry(
                    zip_bytes@,
                    "trips.txt"@,
                    (|rows: Seq<Vec<String>>| route_shapes_ok(
                        c.route_to_shapes@,
                        route_shape_rows_spec(rows, 7),
                    ) && c.trips@ == trips_spec(rows)),
                ))
                &&& (!entry_ok(zip_bytes@, "trips.txt"@) ==> c.route_to_shapes@.len() == 0
                    && c.trips@.len() == 0)
                &&& (entry_ok(zip_bytes@, "stop_times.txt"@) ==> derived_from_entry(
                    zip_bytes@,
                    "stop_times.txt"@,
                    (|rows: Seq<Vec<String>>| stop_times_table_ok(
                        c.stop_times@,
                        stop_time_rows_spec(rows),
                    )),
                ))
                &&& (!entry_ok(zip_bytes@, "stop_times.txt"@) ==> c.stop_times@.len() == 0)
                &&& (entry_ok(zip_bytes@, "calendar.txt"@) ==> derived_from_entry(
                    zip_bytes@,
                    "calendar.txt"@,
                    (|rows: Seq<Vec<String>>| c.calendar@ == calendar_spec(rows)),
                ))
                &&& (!entry_ok(zip_bytes@, "calendar.txt"@) ==> c.calendar@.len() == 0)
                &&& (entry_ok(zip_bytes@, "calendar_dates.txt"@) ==> derived_from_entry(
                    zip_bytes@,
                    "calendar_dates.txt"@,
                    (|rows: Seq<Vec<String>>| c.calendar_dates@ == calendar_dates_spec(rows)),
                ))
                &&& (!entry_ok(zip_bytes@, "calendar_dates.txt"@) ==> c.calendar_dates@.len()
                    == 0)
            },
    {
        let route_rows = match read_required_rows(zip_bytes, "routes.txt") {
            Ok(rows) => rows,
            Err(e) => {
                return Err(e);
            },
        };
        let routes = Self::parse_sncf_routes(&route_rows);
        let stop_rows = match read_required_rows(zip_bytes, "stops.txt") {
            Ok(rows) => rows,
            Err(e) => {
                return Err(e);
            },
        };
        let stops = Self::parse_sncf_stops(&stop_rows);
        let shape_rows = read_optional_rows(zip_bytes, "shapes.txt");
        let shapes = Self::parse_sncf_shapes(&shape_rows);
        let trip_rows = read_optional_rows(zip_bytes, "trips.txt");
        let route_to_shapes = Self::parse_sncf_trips(&trip_rows);
        let trips = Self::parse_trips_info(&trip_rows);
        let st_rows = read_optional_rows(zip_bytes, "stop_times.txt");
        let stop_times = Self::parse_stop_times(&st_rows);
        let cal_rows = read_optional_rows(zip_bytes, "calendar.txt");
        let calendar = Self::parse_calendar(&cal_rows);
        let cd_rows = read_optional_rows(zip_bytes, "calendar_dates.txt");
        let calendar_dates = Self::parse_calendar_dates(&cd_rows);
        Ok(
            GTFSCache {
                routes,
                stops,
                shapes,
                route_to_shapes,
                stop_times,
                trips,
                calendar,
                calendar_dates,
                agencies: Vec::new(),
                route_agencies: Vec::new(),
                transfers: Vec::new(),
                cached_at: now,
                source: String::from_str("SNCF"),
            },
        )
    }

    /// Parses the urban operator's archive into its cache: only the routes
    /// table is required; its color stands in field five, the trips table's
    /// shape id in field six, and stops are kept without a station or
    /// zero-coordinate filter; the cache is stamped at `now` under the
    /// urban source label.
    pub fn parse_tbm_archive(zip_bytes: &Vec<u8>, now: u64) -> (r: Result<GTFSCache, NVTError>)
        ensures
            r is Ok <==> entry_ok(zip_bytes@, "routes.txt"@),
            r is Ok ==> {
                let c = r.unwrap();
                &&& c.cached_at == now
                &&& c.source@ == "TBM"@
                &&& c.agencies@.len() == 0
                &&& c.route_agencies@.len() == 0
                &&& c.transfers@.len() == 0
                &&& derived_from_entry(
                    zip_bytes@,
                    "routes.txt"@,
                    (|rows: Seq<Vec<String>>| c.routes@ == route_colors_spec(rows, 5)),
                )
                &&& (entry_ok(zip_bytes@, "stops.txt"@) ==> derived_from_entry(
                    zip_bytes@,
                    "stops.txt"@,
                    (|rows: Seq<Vec<String>>| c.stops@ == tbm_stops_spec(rows)),
                ))
                &&& (!entry_ok(zip_bytes@, "stops.txt"@) ==> c.stops@.len() == 0)
                &&& (entry_ok(zip_bytes@, "shapes.txt"@) ==> derived_from_entry(
                    zip_bytes@,
                    "shapes.txt"@,
                    (|rows: Seq<Vec<String>>| shape_table_ok(
                        c.shapes@,
                        shape_rows_spec(rows, 3, 1, 2),
                    )),
                ))
                &&& (!entry_ok(zip_bytes@, "shapes.txt"@) ==> c.shapes@.len() == 0)
                &&& (entry_ok(zip_bytes@, "trips.txt"@) ==> derived_from_entry(
                    zip_bytes@,
                    "trips.txt"@,
                    (|rows: Seq<Vec<String>>| route_shapes_ok(
                        c.route_to_shapes@,
                        route_shape_rows_spec(rows, 6),
                    ) && c.trips@ == trips_spec(rows)),
                ))
                &&& (!entry_ok(zip_bytes@, "trips.txt"@) ==> c.route_to_shapes@.len() == 0
                    && c.trips@.len() == 0)
                &&& (entry_ok(zip_bytes@, "stop_times.txt"@) ==> derived_from_entry(
                    zip_bytes@,
                    "stop_times.txt"@,
                    (|rows: Seq<Vec<String>>| stop_times_table_ok(
                        c.stop_times@,
                        stop_time_rows_spec(rows),
                    )),
                ))
                &&& (!entry_ok(zip_bytes@, "stop_times.txt"@) ==> c.stop_times@.len() == 0)
                &&& (entry_ok(zip_bytes@, "calendar.txt"@) ==> derived_from_entry(
                    zip_bytes@,
                    "calendar.txt"@,
                    (|rows: Seq<Vec<String>>| c.calendar@ == calendar_spec(rows)),
                ))
                &&& (!entry_ok(zip_bytes@, "calendar.txt"@) ==> c.calendar@.len() == 0)
                &&& (entry_ok(zip_bytes@, "calendar_dates.txt"@) ==> derived_from_entry(
                    zip_bytes@,
                    "calendar_dates.txt"@,
                    (|rows: Seq<Vec<String>>| c.calendar_dates@ == calendar_dates_spec(rows)),
                ))
                &&& (!entry_ok(zip_bytes@, "calendar_dates.txt"@) ==> c.calendar_dates@.len()
                    == 0)
            },
    {
        let route_rows = match read_required_rows(zip_bytes, "routes.txt") {
            Ok(rows) => rows,
            Err(e) => {
                return Err(e);
            },
        };
        let routes = Self::parse_route_colors(&route_rows, 5);
        let stop_rows = read_optional_rows(zip_bytes, "stops.txt");
        let stops = Self::parse_tbm_stops(&stop_rows);
        let shape_rows = read_optional_rows(zip_bytes, "shapes.txt");
        let shapes = Self::parse_sncf_shapes(&shape_rows);
        let trip_rows = read_optional_rows(zip_bytes, "trips.txt");
        let route_to_shapes = crate::tables::group_route_shapes(
            &Self::parse_route_shape_rows(&trip_rows, 6),
        );
        let trips = Self::parse_trips_info(&trip_rows);
        let st_rows = read_optional_rows(zip_bytes, "stop_times.txt");
        let stop_times = Self::parse_stop_times(&st_rows);
        let cal_rows = read_optional_rows(zip_bytes, "calendar.txt");
        let calendar = Self::parse_calendar(&cal_rows);
        let cd_rows = read_optional_rows(zip_bytes, "calendar_dates.txt");
        let calendar_dates = Self::parse_calendar_dates(&cd_rows);
        Ok(
            GTFSCache {
                routes,
                stops,
                shapes,
                route_to_shapes,
                stop_times,
                trips,
                calendar,
                calendar_dates,
                agencies: Vec::new(),
                route_agencies: Vec::new(),
                transfers: Vec::new(),
                cached_at: now,
                source: String::from_str("TBM"),
            },
        )
    }
}

} // verus!
