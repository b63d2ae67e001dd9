//! Per-operator cache of parsed GTFS tables with a source-specific expiry,
//! and the process-wide network cache with its two freshness clocks.

use vstd::prelude::*;

use crate::clock::current_unix_seconds;
use crate::model::{
    Agency, AlertInfo, CalendarDate, Line, LineMeta, RealTimeInfo, ServiceCalendar, ShapePoint,
    Stop, StopMeta, StopTime, Transfer, Trip, TripUpdateData, view_shapes,
};

verus! {

/// One operator's parsed static tables. Route, shape, stop-time and agency
/// tables are association lists keyed by their first component; `stops`
/// holds `(stop id, stop name, latitude, longitude)` rows with coordinates
/// in microdegrees.
#[derive(Debug, Clone, PartialEq)]
pub struct GTFSCache {
    pub routes: Vec<(String, String)>,
    pub stops: Vec<(String, String, i64, i64)>,
    pub shapes: Vec<(String, Vec<ShapePoint>)>,
    pub route_to_shapes: Vec<(String, Vec<String>)>,
    pub stop_times: Vec<(String, Vec<StopTime>)>,
    pub trips: Vec<Trip>,
    pub calendar: Vec<ServiceCalendar>,
    pub calendar_dates: Vec<CalendarDate>,
    pub agencies: Vec<Agency>,
    pub route_agencies: Vec<(String, String)>,
    pub transfers: Vec<Transfer>,
    pub cached_at: u64,
    pub source: String,
}

/// The views of a string-keyed table of string lists.
pub open spec fn view_string_lists(s: Seq<(String, Vec<String>)>) -> Seq<(String, Seq<String>)> {
    s.map_values(|e: (String, Vec<String>)| (e.0, e.1@))
}

/// The views of a stop-times table: stop id and row sequence of each entry.
pub open spec fn view_stop_times(s: Seq<(String, Vec<StopTime>)>) -> Seq<(String, Seq<StopTime>)> {
    s.map_values(|e: (String, Vec<StopTime>)| (e.0, e.1@))
}

/// Ghost view of a [`GTFSCache`].
pub struct GTFSCacheV {
    pub routes: Seq<(String, String)>,
    pub stops: Seq<(String, String, i64, i64)>,
    pub shapes: Seq<(String, Seq<ShapePoint>)>,
    pub route_to_shapes: Seq<(String, Seq<String>)>,
    pub stop_times: Seq<(String, Seq<StopTime>)>,
    pub trips: Seq<Trip>,
    pub calendar: Seq<ServiceCalendar>,
    pub calendar_dates: Seq<CalendarDate>,
    pub agencies: Seq<Agency>,
    pub route_agencies: Seq<(String, String)>,
    pub transfers: Seq<Transfer>,
    pub cached_at: u64,
    pub source: String,
}

impl View for GTFSCache {
    type V = GTFSCacheV;

    open spec fn view(&self) -> GTFSCacheV {
        GTFSCacheV {
            routes: self.routes@,
            stops: self.stops@,
            shapes: view_shapes(self.shapes@),
            route_to_shapes: view_string_lists(self.route_to_shapes@),
            stop_times: view_stop_times(self.stop_times@),
            trips: self.trips@,
            calendar: self.calendar@,
            calendar_dates: self.calendar_dates@,
            agencies: self.agencies@,
            route_agencies: self.route_agencies@,
            transfers: self.transfers@,
            cached_at: self.cached_at,
            source: self.source,
        }
    }
}

/// Whether a cache stamped at `cached_at` has expired by `now`: the elapsed
/// whole days reach the threshold. A clock reading before the stamp counts
/// as no elapsed time.
pub open spec fn expired_spec(cached_at: u64, max_age_days: u64, now: u64) -> bool {
    (if now >= cached_at {
        (now - cached_at) as u64
    } else {
        0u64
    }) / 86400u64 >= max_age_days
}

/// Once a cache is expired, it stays expired as the clock advances: the
/// expiry test is monotonic in elapsed wall-clock time.
pub proof fn lemma_expired_monotonic(cached_at: u64, max_age_days: u64, n1: u64, n2: u64)
    requires
        n1 <= n2,
        expired_spec(cached_at, max_age_days, n1),
    ensures
        expired_spec(cached_at, max_age_days, n2),
{
    let e1 = if n1 >= cached_at {
        (n1 - cached_at) as u64
    } else {
        0u64
    };
    let e2 = if n2 >= cached_at {
        (n2 - cached_at) as u64
    } else {
        0u64
    };
    vstd::arithmetic::div_mod::lemma_div_is_ordered(e1 as int, e2 as int, 86400);
}

/// The boundary of the expiry rule, for every stamp a clock can reach: at
/// exactly the threshold's worth of elapsed seconds the cache is expired;
/// one second earlier it is not.
pub proof fn lemma_expiry_boundary(cached_at: u64, max_age_days: u64)
    requires
        max_age_days >= 1,
        cached_at + max_age_days * 86400 <= u64::MAX,
    ensures
        expired_spec(cached_at, max_age_days, (cached_at + max_age_days * 86400) as u64),
        !expired_spec(cached_at, max_age_days, (cached_at + max_age_days * 86400 - 1) as u64),
{
    vstd::arithmetic::div_mod::lemma_fundamental_div_mod_converse(
        max_age_days * 86400,
        86400,
        max_age_days as int,
        0,
    );
    vstd::arithmetic::div_mod::lemma_fundamental_div_mod_converse(
        max_age_days * 86400 - 1,
        86400,
        max_age_days as int - 1,
        86399,
    );
}

/// A cache read back less than the threshold's worth of seconds after it
/// was stamped is not expired, so [`GTFSCache::accept_loaded`] hands it
/// back unchanged: the acceptance half of the save-then-load round trip.
pub proof fn lemma_unexpired_cache_accepted(cached_at: u64, max_age_days: u64, now: u64)
    requires
        cached_at <= now,
        now - cached_at < max_age_days * 86400,
    ensures
        !expired_spec(cached_at, max_age_days, now),
{
    let e = (now - cached_at) as int;
    vstd::arithmetic::div_mod::lemma_div_is_ordered(
        e,
        max_age_days * 86400 - 1,
        86400,
    );
    vstd::arithmetic::div_mod::lemma_fundamental_div_mod_converse(
        max_age_days * 86400 - 1,
        86400,
        max_age_days as int - 1,
        86399,
    );
}

impl GTFSCache {
    /// Whether the cache counts as expired at clock reading `now`.
    pub fn is_expired_at(&self, max_age_days: u64, now: u64) -> (r: bool)
        ensures
            r == expired_spec(self.cached_at, max_age_days, now),
    {
        let age_secs: u64 = if now >= self.cached_at {
            now - self.cached_at
        } else {
            0
        };
        age_secs / 86400 >= max_age_days
    }

    /// Whether the cache counts as expired now. The clock's reading cannot
    /// be pinned down; [`Self::is_expired_at`] carries the exact contract.
    pub fn is_expired(&self, max_age_days: u64) -> (r: bool)
        ensures
            exists|now: u64| r == expired_spec(self.cached_at, max_age_days, now),
    {
        let now = current_unix_seconds();
        self.is_expired_at(max_age_days, now)
    }

    /// Admits a cache read back from disk: hands it back unless it has
    /// expired at clock reading `now`. The caller that loaded nothing, or
    /// could not parse what it loaded, never reaches this point.
    pub fn accept_loaded(self, max_age_days: u64, now: u64) -> (r: Option<GTFSCache>)
        ensures
            expired_spec(self.cached_at, max_age_days, now) ==> r is None,
            !expired_spec(self.cached_at, max_age_days, now) ==> r == Some(self),
    {
        if self.is_expired_at(max_age_days, now) {
            None
        } else {
            Some(self)
        }
    }

    /// An empty per-operator cache stamped at `now`, as the degraded paths
    /// fall back to.
    pub fn empty(source: String, now: u64) -> (r: GTFSCache)
        ensures
            r.routes@.len() == 0,
            r.stops@.len() == 0,
            r.shapes@.len() == 0,
            r.route_to_shapes@.len() == 0,
            r.stop_times@.len() == 0,
            r.trips@.len() == 0,
            r.calendar@.len() == 0,
            r.calendar_dates@.len() == 0,
            r.agencies@.len() == 0,
            r.route_agencies@.len() == 0,
            r.transfers@.len() == 0,
            r.cached_at == now,
            r.source == source,
    {
        GTFSCache {
            routes: Vec::new(),
            stops: Vec::new(),
            shapes: Vec::new(),
            route_to_shapes: Vec::new(),
            stop_times: Vec::new(),
            trips: Vec::new(),
            calendar: Vec::new(),
            calendar_dates: Vec::new(),
            agencies: Vec::new(),
            route_agencies: Vec::new(),
            transfers: Vec::new(),
            cached_at: now,
            source,
        }
    }
}

/// The process-wide cache: per-operator static tables, the urban operator's
/// raw discovery metadata, the global real-time lists, and two independent
/// freshness stamps.
#[derive(Debug, Clone, PartialEq)]
pub struct CachedNetworkData {
    pub tbm_stops_metadata: Vec<StopMeta>,
    pub tbm_lines_metadata: Vec<LineMeta>,
    pub tbm_gtfs_cache: GTFSCache,
    pub transgironde_stops: Vec<Stop>,
    pub transgironde_lines: Vec<Line>,
    pub transgironde_gtfs_cache: GTFSCache,
    pub sncf_stops: Vec<Stop>,
    pub sncf_lines: Vec<Line>,
    pub sncf_gtfs_cache: GTFSCache,
    pub last_static_update: u64,
    pub alerts: Vec<AlertInfo>,
    pub real_time: Vec<RealTimeInfo>,
    pub trip_updates: Vec<TripUpdateData>,
    pub last_dynamic_update: u64,
}

/// Whether more than `max_age_seconds` have elapsed since the static stamp
/// by clock reading `now`; a reading before the stamp counts as no elapsed
/// time.
pub open spec fn static_age_exceeded(
    last_static_update: u64,
    max_age_seconds: u64,
    now: u64,
) -> bool {
    (if now >= last_static_update {
        (now - last_static_update) as u64
    } else {
        0u64
    }) > max_age_seconds
}

impl CachedNetworkData {
    /// Whether the static tables are older than `max_age_seconds` at clock
    /// reading `now`; see [`static_age_exceeded`].
    pub fn needs_static_refresh_at(&self, max_age_seconds: u64, now: u64) -> (r: bool)
        ensures
            r == static_age_exceeded(self.last_static_update, max_age_seconds, now),
    {
        let age: u64 = if now >= self.last_static_update {
            now - self.last_static_update
        } else {
            0
        };
        age > max_age_seconds
    }

    /// Whether the static tables are older than `max_age_seconds` at some
    /// clock reading — the decision the periodic refresh is built on.
    /// [`Self::needs_static_refresh_at`] carries the exact per-reading
    /// contract.
    pub fn needs_static_refresh(&self, max_age_seconds: u64) -> (r: bool)
        ensures
            exists|now: u64|
                r == static_age_exceeded(self.last_static_update, max_age_seconds, now),
    {
        let now = current_unix_seconds();
        self.needs_static_refresh_at(max_age_seconds, now)
    }

    /// Commits one dynamic refresh: each `Some` replaces its field and each
    /// `None` keeps the previous value; the secondary operator's alerts and
    /// trip updates are appended to the urban ones, or dropped entirely when
    /// their fetch failed; the dynamic stamp is set to `now`. Static fields
    /// are untouched.
    pub fn apply_dynamic_data(
        &mut self,
        tbm_alerts: Option<Vec<AlertInfo>>,
        vehicles: Option<Vec<RealTimeInfo>>,
        tbm_updates: Option<Vec<TripUpdateData>>,
        sncf_alerts: Option<Vec<AlertInfo>>,
        sncf_updates: Option<Vec<TripUpdateData>>,
        now: u64,
    )
        ensures
            final(self).alerts@ == (match tbm_alerts {
                Some(a) => a@,
                None => old(self).alerts@,
            }) + (match sncf_alerts {
                Some(a) => a@,
                None => Seq::<AlertInfo>::empty(),
            }),
            final(self).real_time@ == (match vehicles {
                Some(v) => v@,
                None => old(self).real_time@,
            }),
            final(self).trip_updates@ == (match tbm_updates {
                Some(u) => u@,
                None => old(self).trip_updates@,
            }) + (match sncf_updates {
                Some(u) => u@,
                None => Seq::<TripUpdateData>::empty(),
            }),
            final(self).last_dynamic_update == now,
            final(self).tbm_stops_metadata == old(self).tbm_stops_metadata,
            final(self).tbm_lines_metadata == old(self).tbm_lines_metadata,
            final(self).tbm_gtfs_cache == old(self).tbm_gtfs_cache,
            final(self).transgironde_stops == old(self).transgironde_stops,
            final(self).transgironde_lines == old(self).transgironde_lines,
            final(self).transgironde_gtfs_cache == old(self).transgironde_gtfs_cache,
            final(self).sncf_stops == old(self).sncf_stops,
            final(self).sncf_lines == old(self).sncf_lines,
            final(self).sncf_gtfs_cache == old(self).sncf_gtfs_cache,
            final(self).last_static_update == old(self).last_static_update,
    {
        match tbm_alerts {
            Some(a) => {
                self.alerts = a;
            },
            None => {},
        }
        match vehicles {
            Some(v) => {
                self.real_time = v;
            },
            None => {},
        }
        match tbm_updates {
            Some(u) => {
                self.trip_updates = u;
            },
            None => {},
        }
        match sncf_alerts {
            Some(a) => {
                let mut extra = a;
                self.alerts.append(&mut extra);
            },
            None => {
                proof {
                    assert(self.alerts@ + Seq::<AlertInfo>::empty() =~= self.alerts@);
                }
            },
        }
        match sncf_updates {
            Some(u) => {
                let mut extra = u;
                self.trip_updates.append(&mut extra);
            },
            None => {
                proof {
                    assert(self.trip_updates@ + Seq::<TripUpdateData>::empty()
                        =~= self.trip_updates@);
                }
            },
        }
        self.last_dynamic_update = now;
    }

    /// Commits one static refresh: each operator's `Some` triple of stops,
    /// lines and tables replaces that operator's snapshot, each `None` keeps
    /// the previous one; the static stamp is set to `now`. Dynamic fields
    /// are untouched.
    pub fn apply_static_data(
        &mut self,
        tbm: Option<(Vec<StopMeta>, Vec<LineMeta>, GTFSCache)>,
        transgironde: Option<(Vec<Stop>, Vec<Line>, GTFSCache)>,
        sncf: Option<(Vec<Stop>, Vec<Line>, GTFSCache)>,
        now: u64,
    )
        ensures
            match tbm {
                Some(t) => final(self).tbm_stops_metadata == t.0 && final(self).tbm_lines_metadata
                    == t.1 && final(self).tbm_gtfs_cache == t.2,
                None => final(self).tbm_stops_metadata == old(self).tbm_stops_metadata && final(self).tbm_lines_metadata == old(self).tbm_lines_metadata && final(self).tbm_gtfs_cache
                    == old(self).tbm_gtfs_cache,
            },
            match transgironde {
                Some(t) => final(self).transgironde_stops == t.0 && final(self).transgironde_lines
                    == t.1 && final(self).transgironde_gtfs_cache == t.2,
                None => final(self).transgironde_stops == old(self).transgironde_stops && final(self).transgironde_lines == old(self).transgironde_lines && final(self).transgironde_gtfs_cache == old(self).transgironde_gtfs_cache,
            },
            match sncf {
                Some(t) => final(self).sncf_stops == t.0 && final(self).sncf_lines == t.1 && final(self).sncf_gtfs_cache == t.2,
                None => final(self).sncf_stops == old(self).sncf_stops && final(self).sncf_lines
                    == old(self).sncf_lines && final(self).sncf_gtfs_cache == old(self).sncf_gtfs_cache,
            },
            final(self).last_static_update == now,
            final(self).alerts == old(self).alerts,
            final(self).real_time == old(self).real_time,
            final(self).trip_updates == old(self).trip_updates,
            final(self).last_dynamic_update == old(self).last_dynamic_update,
    {
        match tbm {
            Some(t) => {
                let (stops, lines, cache) = t;
                self.tbm_stops_metadata = stops;
                self.tbm_lines_metadata = lines;
                self.tbm_gtfs_cache = cache;
            },
            None => {},
        }
        match transgironde {
            Some(t) => {
                let (stops, lines, cache) = t;
                self.transgironde_stops = stops;
                self.transgironde_lines = lines;
                self.transgironde_gtfs_cache = cache;
            },
            None => {},
        }
        match sncf {
            Some(t) => {
                let (stops, lines, cache) = t;
                self.sncf_stops = stops;
                self.sncf_lines = lines;
                self.sncf_gtfs_cache = cache;
            },
            None => {},
        }
        self.last_static_update = now;
    }
}

} // verus!
