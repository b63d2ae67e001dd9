//! The exposed read surface: queries over the fused network snapshot,
//! detailed vehicle state, cache statistics, and the response envelope the
//! serving layer wraps results in.

use vstd::prelude::*;

use crate::cache::CachedNetworkData;
use crate::clock::{current_unix_seconds, paris_timestamp_text};
use crate::model::{Line, NVTModels, NetworkData, RealTimeInfo, Stop, VehicleDetails, view_lines};
use crate::strutil::{dec_seq, str_eq, u64_to_dec};

verus! {

/// The lower-case ASCII scalar of a character: letters fold, everything
/// else stands.
pub open spec fn lower_scalar(c: char) -> int {
    if 'A' <= c && c <= 'Z' {
        c as u32 + 32
    } else {
        c as u32 as int
    }
}

/// Whether two strings match ignoring ASCII case.
pub open spec fn ascii_eq_ignore_case(a: Seq<char>, b: Seq<char>) -> bool {
    a.len() == b.len() && forall|i: int| 0 <= i < a.len() ==> lower_scalar(#[trigger] a[i])
        == lower_scalar(#[trigger] b[i])
}

/// Decides a case-insensitive ASCII match.
fn eq_ignore_case(a: &str, b: &str) -> (r: bool)
    ensures
        r == ascii_eq_ignore_case(a@, b@),
{
    let na = a.unicode_len();
    let nb = b.unicode_len();
    if na != nb {
        return false;
    }
    let mut i: usize = 0;
    while i < na
        invariant
            0 <= i <= na,
            na == a@.len(),
            na == b@.len(),
            forall|k: int| 0 <= k < i ==> lower_scalar(#[trigger] a@[k]) == lower_scalar(
                #[trigger] b@[k],
            ),
        decreases na - i,
    {
        let ca = a.get_char(i);
        let cb = b.get_char(i);
        let la: u32 = if 'A' <= ca && ca <= 'Z' {
            ca as u32 + 32
        } else {
            ca as u32
        };
        let lb: u32 = if 'A' <= cb && cb <= 'Z' {
            cb as u32 + 32
        } else {
            cb as u32
        };
        if la != lb {
            return false;
        }
        i = i + 1;
    }
    true
}

/// The first stop with the given id, as the handlers look one up.
pub open spec fn stop_lookup(stops: Seq<Stop>, sid: Seq<char>) -> Option<Stop>
    decreases stops.len(),
{
    if stops.len() == 0 {
        None
    } else if stops[0].stop_id@ == sid {
        Some(stops[0])
    } else {
        stop_lookup(stops.drop_first(), sid)
    }
}

/// The first line whose code matches ignoring ASCII case.
pub open spec fn line_lookup_by_code(lines: Seq<Line>, code: Seq<char>) -> Option<Line>
    decreases lines.len(),
{
    if lines.len() == 0 {
        None
    } else if ascii_eq_ignore_case(lines[0].line_code@, code) {
        Some(lines[0])
    } else {
        line_lookup_by_code(lines.drop_first(), code)
    }
}

/// The views of the lines run by an operator, matched ignoring ASCII case,
/// in order.
pub open spec fn lines_of_operator(lines: Seq<Line>, op: Seq<char>) -> Seq<crate::model::LineV>
    decreases lines.len(),
{
    if lines.len() == 0 {
        Seq::empty()
    } else {
        let rest = lines_of_operator(lines.drop_last(), op);
        if ascii_eq_ignore_case(lines.last().operator@, op) {
            rest.push(lines.last()@)
        } else {
            rest
        }
    }
}

/// The first real-time entry of a vehicle, as the detail view looks it up.
pub open spec fn rt_lookup_by_vehicle(rt: Seq<RealTimeInfo>, vid: Seq<char>) -> Option<
    RealTimeInfo,
>
    decreases rt.len(),
{
    if rt.len() == 0 {
        None
    } else if rt[0].vehicle_id@ == vid {
        Some(rt[0])
    } else {
        rt_lookup_by_vehicle(rt.drop_first(), vid)
    }
}

/// Whether a line carries a real-time entry of this vehicle.
pub open spec fn line_has_vehicle(l: Line, vid: Seq<char>) -> bool {
    exists|k: int| 0 <= k < l.real_time@.len() && (#[trigger] l.real_time@[k]).vehicle_id@ == vid
}

/// The first line carrying an entry of this vehicle.
pub open spec fn line_with_vehicle(lines: Seq<Line>, vid: Seq<char>) -> Option<Line>
    decreases lines.len(),
{
    if lines.len() == 0 {
        None
    } else if line_has_vehicle(lines[0], vid) {
        Some(lines[0])
    } else {
        line_with_vehicle(lines.drop_first(), vid)
    }
}

/// Decides whether a line carries an entry of this vehicle.
#[verifier::loop_isolation(false)]
fn line_carries_vehicle(l: &Line, vid: &str) -> (r: bool)
    ensures
        r == line_has_vehicle(*l, vid@),
{
    let entries = &l.real_time;
    let mut k: usize = 0;
    while k < entries.len()
        invariant
            0 <= k <= entries@.len(),
            forall|a: int| 0 <= a < k ==> (#[trigger] entries@[a]).vehicle_id@ != vid@,
        decreases entries@.len() - k,
    {
        if str_eq(entries[k].vehicle_id.as_str(), vid) {
            proof {
                assert(l.real_time@[k as int].vehicle_id@ == vid@);
            }
            return true;
        }
        k = k + 1;
    }
    false
}

impl NetworkData {
    /// The first stop with the given id; see [`stop_lookup`].
    #[verifier::loop_isolation(false)]
    pub fn find_stop<'a>(&'a self, stop_id: &str) -> (r: Option<&'a Stop>)
        ensures
            match stop_lookup(self.stops@, stop_id@) {
                Some(s) => r is Some && *r.unwrap() == s,
                None => r is None,
            },
    {
        let mut i: usize = 0;
        proof {
            assert(self.stops@.skip(0) =~= self.stops@);
        }
        while i < self.stops.len()
            invariant
                0 <= i <= self.stops@.len(),
                stop_lookup(self.stops@, stop_id@) == stop_lookup(
                    self.stops@.skip(i as int),
                    stop_id@,
                ),
            decreases self.stops@.len() - i,
        {
            proof {
                assert(self.stops@.skip(i as int)[0] == self.stops@[i as int]);
                assert(self.stops@.skip(i as int).drop_first() =~= self.stops@.skip(i as int + 1));
            }
            if str_eq(self.stops[i].stop_id.as_str(), stop_id) {
                return Some(&self.stops[i]);
            }
            i = i + 1;
        }
        proof {
            assert(self.stops@.skip(self.stops@.len() as int) =~= Seq::<Stop>::empty());
        }
        None
    }

    /// The first line whose code matches ignoring ASCII case; see
    /// [`line_lookup_by_code`].
    #[verifier::loop_isolation(false)]
    pub fn find_line_by_code<'a>(&'a self, code: &str) -> (r: Option<&'a Line>)
        ensures
            match line_lookup_by_code(self.lines@, code@) {
                Some(l) => r is Some && *r.unwrap() == l,
                None => r is None,
            },
    {
        let mut i: usize = 0;
        proof {
            assert(self.lines@.skip(0) =~= self.lines@);
        }
        while i < self.lines.len()
            invariant
                0 <= i <= self.lines@.len(),
                line_lookup_by_code(self.lines@, code@) == line_lookup_by_code(
                    self.lines@.skip(i as int),
                    code@,
                ),
            decreases self.lines@.len() - i,
        {
            proof {
                assert(self.lines@.skip(i as int)[0] == self.lines@[i as int]);
                assert(self.lines@.skip(i as int).drop_first() =~= self.lines@.skip(i as int + 1));
            }
            if eq_ignore_case(self.lines[i].line_code.as_str(), code) {
                return Some(&self.lines[i]);
            }
            i = i + 1;
        }
        proof {
            assert(self.lines@.skip(self.lines@.len() as int) =~= Seq::<Line>::empty());
        }
        None
    }

    /// The first line carrying a real-time entry of this vehicle; see
    /// [`line_with_vehicle`].
    #[verifier::loop_isolation(false)]
    pub fn find_line_with_vehicle<'a>(&'a self, vehicle_id: &str) -> (r: Option<&'a Line>)
        ensures
            match line_with_vehicle(self.lines@, vehicle_id@) {
                Some(l) => r is Some && *r.unwrap() == l,
                None => r is None,
            },
    {
        let mut i: usize = 0;
        proof {
            assert(self.lines@.skip(0) =~= self.lines@);
        }
        while i < self.lines.len()
            invariant
                0 <= i <= self.lines@.len(),
                line_with_vehicle(self.lines@, vehicle_id@) == line_with_vehicle(
                    self.lines@.skip(i as int),
                    vehicle_id@,
                ),
            decreases self.lines@.len() - i,
        {
            proof {
                assert(self.lines@.skip(i as int)[0] == self.lines@[i as int]);
                assert(self.lines@.skip(i as int).drop_first() =~= self.lines@.skip(i as int + 1));
            }
            if line_carries_vehicle(&self.lines[i], vehicle_id) {
                return Some(&self.lines[i]);
            }
            i = i + 1;
        }
        proof {
            assert(self.lines@.skip(self.lines@.len() as int) =~= Seq::<Line>::empty());
        }
        None
    }

    /// The lines run by an operator, matched ignoring ASCII case; see
    /// [`lines_of_operator`].
    #[verifier::loop_isolation(false)]
    pub fn lines_by_operator(&self, operator: &str) -> (r: Vec<Line>)
        ensures
            view_lines(r@) == lines_of_operator(self.lines@, operator@),
    {
        let mut out: Vec<Line> = Vec::new();
        let mut i: usize = 0;
        while i < self.lines.len()
            invariant
                0 <= i <= self.lines@.len(),
                view_lines(out@) == lines_of_operator(self.lines@.take(i as int), operator@),
            decreases self.lines@.len() - i,
        {
            proof {
                assert(self.lines@.take(i as int + 1).drop_last() =~= self.lines@.take(i as int));
                assert(self.lines@.take(i as int + 1).last() == self.lines@[i as int]);
            }
            if eq_ignore_case(self.lines[i].operator.as_str(), operator) {
                out.push(self.lines[i].duplicate());
            }
            proof {
                assert(view_lines(out@) =~= lines_of_operator(
                    self.lines@.take(i as int + 1),
                    operator@,
                ));
            }
            i = i + 1;
        }
        proof {
            assert(self.lines@.take(self.lines@.len() as int) =~= self.lines@);
        }
        out
    }

    /// The distinct operator names of the lines, in first-appearance order.
    pub fn operators(&self) -> (r: Vec<String>)
        ensures
            names_cover_lines(r@, self.lines@),
    {
        let mut names: Vec<String> = Vec::new();
        let mut i: usize = 0;
        while i < self.lines.len()
            invariant
                0 <= i <= self.lines@.len(),
                names@.len() == i,
                forall|k: int| 0 <= k < i ==> names@[k] == (#[trigger] self.lines@[k]).operator,
            decreases self.lines@.len() - i,
        {
            names.push(self.lines[i].operator.clone());
            i = i + 1;
        }
        let r = crate::sortutil::dedup_strings_in_order(names);
        proof {
            lemma_operator_names_cover(r@, names@, self.lines@);
        }
        r
    }
}

/// Whether some line is run by an operator of this name.
pub open spec fn is_operator_of(lines: Seq<Line>, x: Seq<char>) -> bool {
    exists|k: int| 0 <= k < lines.len() && (#[trigger] lines[k]).operator@ == x
}

/// Whether `r` holds exactly the distinct operator names of `lines`.
pub open spec fn names_cover_lines(r: Seq<String>, lines: Seq<Line>) -> bool {
    &&& forall|a: int, b: int| 0 <= a < b < r.len() ==> r[a]@ != r[b]@
    &&& forall|k: int| 0 <= k < lines.len() ==> crate::sortutil::contains_string_view(
        r,
        (#[trigger] lines[k]).operator@,
    )
    &&& forall|a: int| 0 <= a < r.len() ==> is_operator_of(lines, (#[trigger] r[a])@)
}

/// Deduplicated operator names drawn from the lines cover exactly the
/// lines' operators.
proof fn lemma_operator_names_cover(r: Seq<String>, names: Seq<String>, lines: Seq<Line>)
    requires
        names.len() == lines.len(),
        forall|k: int| 0 <= k < names.len() ==> names[k] == (#[trigger] lines[k]).operator,
        crate::sortutil::drawn_from(r, names),
        forall|k: int| 0 <= k < names.len() ==> crate::sortutil::contains_string_view(
            r,
            (#[trigger] names[k])@,
        ),
        forall|a: int, b: int| 0 <= a < b < r.len() ==> r[a]@ != r[b]@,
    ensures
        names_cover_lines(r, lines),
{
    assert forall|k: int| 0 <= k < lines.len() implies crate::sortutil::contains_string_view(
        r,
        (#[trigger] lines[k]).operator@,
    ) by {
        assert(names[k] == lines[k].operator);
        assert(crate::sortutil::contains_string_view(r, names[k]@));
    }
    assert forall|a: int| 0 <= a < r.len() implies is_operator_of(lines, (#[trigger] r[a])@) by {
        let k = choose|k: int| 0 <= k < names.len() && #[trigger] r[a] == names[k];
        assert(names[k] == lines[k].operator);
        assert(lines[k].operator@ == r[a]@);
    }
}

/// The statistics text for the cache at clock reading `now`.
pub open spec fn stats_text(c: CachedNetworkData, now: u64) -> Seq<char> {
    "Cache Statistics:\n- TBM: "@ + dec_seq(c.tbm_stops_metadata@.len() as int) + " stops, "@
        + dec_seq(c.tbm_lines_metadata@.len() as int) + " lines\n- New-Aquitaine: "@ + dec_seq(
        c.transgironde_stops@.len() as int,
    ) + " stops, "@ + dec_seq(c.transgironde_lines@.len() as int) + " lines\n- SNCF: "@ + dec_seq(
        c.sncf_stops@.len() as int,
    ) + " stops, "@ + dec_seq(c.sncf_lines@.len() as int) + " lines\n- TBM Colors: "@ + dec_seq(
        c.tbm_gtfs_cache.routes@.len() as int,
    ) + " | TBM Shapes: "@ + dec_seq(c.tbm_gtfs_cache.shapes@.len() as int)
        + "\n- New-Aquitaine Colors: "@ + dec_seq(c.transgironde_gtfs_cache.routes@.len() as int)
        + " | New-Aquitaine Shapes: "@ + dec_seq(c.transgironde_gtfs_cache.shapes@.len() as int)
        + "\n- SNCF Colors: "@ + dec_seq(c.sncf_gtfs_cache.routes@.len() as int)
        + " | SNCF Shapes: "@ + dec_seq(c.sncf_gtfs_cache.shapes@.len() as int)
        + "\n- Vehicles tracked: "@ + dec_seq(c.real_time@.len() as int) + " | Alerts: "@
        + dec_seq(c.alerts@.len() as int) + "\n- Static data age: "@ + dec_seq(
        (if now >= c.last_static_update {
            (now - c.last_static_update) as u64
        } else {
            0u64
        }) as int,
    ) + "s | Dynamic data age: "@ + dec_seq(
        (if now >= c.last_dynamic_update {
            (now - c.last_dynamic_update) as u64
        } else {
            0u64
        }) as int,
    ) + "s\n- Last update: "@ + paris_timestamp_text(c.last_dynamic_update as i64)
}

impl NVTModels {
    /// Renders the cache statistics for clock reading `now`; see
    /// [`stats_text`].
    pub fn get_cache_stats_at(cache: &CachedNetworkData, now: u64) -> (r: String)
        requires
            cache.last_dynamic_update <= i64::MAX,
        ensures
            r@ == stats_text(*cache, now),
    {
        let static_age: u64 = if now >= cache.last_static_update {
            now - cache.last_static_update
        } else {
            0
        };
        let dynamic_age: u64 = if now >= cache.last_dynamic_update {
            now - cache.last_dynamic_update
        } else {
            0
        };
        let mut s = String::from_str("Cache Statistics:\n- TBM: ");
        s.append(u64_to_dec(cache.tbm_stops_metadata.len() as u64).as_str());
        s.append(" stops, ");
        s.append(u64_to_dec(cache.tbm_lines_metadata.len() as u64).as_str());
        s.append(" lines\n- New-Aquitaine: ");
        s.append(u64_to_dec(cache.transgironde_stops.len() as u64).as_str());
        s.append(" stops, ");
        s.append(u64_to_dec(cache.transgironde_lines.len() as u64).as_str());
        s.append(" lines\n- SNCF: ");
        s.append(u64_to_dec(cache.sncf_stops.len() as u64).as_str());
        s.append(" stops, ");
        s.append(u64_to_dec(cache.sncf_lines.len() as u64).as_str());
        s.append(" lines\n- TBM Colors: ");
        s.append(u64_to_dec(cache.tbm_gtfs_cache.routes.len() as u64).as_str());
        s.append(" | TBM Shapes: ");
        s.append(u64_to_dec(cache.tbm_gtfs_cache.shapes.len() as u64).as_str());
        s.append("\n- New-Aquitaine Colors: ");
        s.append(u64_to_dec(cache.transgironde_gtfs_cache.routes.len() as u64).as_str());
        s.append(" | New-Aquitaine Shapes: ");
        s.append(u64_to_dec(cache.transgironde_gtfs_cache.shapes.len() as u64).as_str());
        s.append("\n- SNCF Colors: ");
        s.append(u64_to_dec(cache.sncf_gtfs_cache.routes.len() as u64).as_str());
        s.append(" | SNCF Shapes: ");
        s.append(u64_to_dec(cache.sncf_gtfs_cache.shapes.len() as u64).as_str());
        s.append("\n- Vehicles tracked: ");
        s.append(u64_to_dec(cache.real_time.len() as u64).as_str());
        s.append(" | Alerts: ");
        s.append(u64_to_dec(cache.alerts.len() as u64).as_str());
        s.append("\n- Static data age: ");
        s.append(u64_to_dec(static_age).as_str());
        s.append("s | Dynamic data age: ");
        s.append(u64_to_dec(dynamic_age).as_str());
        s.append("s\n- Last update: ");
        s.append(Self::format_timestamp_full(cache.last_dynamic_update as i64).as_str());
        s
    }

    /// Renders the cache statistics at the present instant; the clock's
    /// reading cannot be pinned down, so [`Self::get_cache_stats_at`]
    /// carries the exact contract.
    pub fn get_cache_stats(cache: &CachedNetworkData) -> (r: String)
        requires
            cache.last_dynamic_update <= i64::MAX,
        ensures
            exists|now: u64| r@ == stats_text(*cache, now),
    {
        let now = current_unix_seconds();
        Self::get_cache_stats_at(cache, now)
    }

    /// Details one tracked vehicle against an already-projected network
    /// view: a detail is returned exactly when a tracked vehicle carries
    /// the id and some fused line carries an entry with it; the detail
    /// copies the first matching vehicle's own fields and the first
    /// matching line's code, name, color and operator. The surrounding
    /// stops are resolved from the trip's stop sequence.
    #[verifier::loop_isolation(false)]
    pub fn vehicle_details_in(
        vehicle_id: &str,
        cache: &CachedNetworkData,
        network: &NetworkData,
    ) -> (r: Option<VehicleDetails>)
        ensures
            r is Some <==> rt_lookup_by_vehicle(cache.real_time@, vehicle_id@) is Some
                && line_with_vehicle(network.lines@, vehicle_id@) is Some,
            r is Some ==> {
                let v = rt_lookup_by_vehicle(cache.real_time@, vehicle_id@).unwrap();
                let l = line_with_vehicle(network.lines@, vehicle_id@).unwrap();
                &&& r.unwrap().vehicle_id == v.vehicle_id
                &&& r.unwrap().trip_id == v.trip_id
                &&& r.unwrap().route_id == v.route_id
                &&& r.unwrap().destination == v.destination
                &&& r.unwrap().latitude == v.latitude
                &&& r.unwrap().longitude == v.longitude
                &&& r.unwrap().timestamp == v.timestamp
                &&& r.unwrap().delay == v.delay
                &&& r.unwrap().line_code == l.line_code
                &&& r.unwrap().line_name == l.line_name
                &&& r.unwrap().line_color == l.color
                &&& r.unwrap().operator == l.operator
            },
    {
        let vehicle: &RealTimeInfo = match find_vehicle_index(&cache.real_time, vehicle_id) {
            Some(at) => &cache.real_time[at],
            None => {
                return None;
            },
        };
        let line: &Line = match network.find_line_with_vehicle(vehicle_id) {
            Some(l) => l,
            None => {
                return None;
            },
        };
        let mut current_stop: Option<Stop> = None;
        let mut next_stop: Option<Stop> = None;
        let mut previous_stop: Option<Stop> = None;
        let caches: [&crate::cache::GTFSCache; 3] = [
            &cache.tbm_gtfs_cache,
            &cache.transgironde_gtfs_cache,
            &cache.sncf_gtfs_cache,
        ];
        let mut ci: usize = 0;
        while ci < 3
            invariant
                0 <= ci <= 3,
            decreases 3 - ci,
        {
            let c = caches[ci];
            if crate::tables::find_trip(&c.trips, vehicle.trip_id.as_str()).is_some() {
                let mut trip_stops: Vec<crate::model::StopTime> = Vec::new();
                let mut g: usize = 0;
                while g < c.stop_times.len()
                    decreases c.stop_times@.len() - g,
                {
                    let rows = &c.stop_times[g].1;
                    let mut j: usize = 0;
                    while j < rows.len()
                        decreases rows@.len() - j,
                    {
                        if str_eq(rows[j].trip_id.as_str(), vehicle.trip_id.as_str()) {
                            trip_stops.push(rows[j].duplicate());
                        }
                        j = j + 1;
                    }
                    g = g + 1;
                }
                let trip_stops = sort_by_sequence(trip_stops);
                let mut current_idx: Option<usize> = None;
                match vehicle.current_stop_sequence {
                    Some(seq) => {
                        let mut p: usize = 0;
                        while p < trip_stops.len() && current_idx.is_none()
                            invariant
                                match current_idx {
                                    Some(at) => at < trip_stops@.len(),
                                    None => true,
                                },
                                0 <= p <= trip_stops@.len(),
                            decreases trip_stops@.len() - p,
                        {
                            if trip_stops[p].stop_sequence == seq {
                                current_idx = Some(p);
                            }
                            p = p + 1;
                        }
                    },
                    None => {
                        match &vehicle.stop_id {
                            Some(sid) => {
                                let mut p: usize = 0;
                                while p < trip_stops.len() && current_idx.is_none()
                                    invariant
                                        match current_idx {
                                            Some(at) => at < trip_stops@.len(),
                                            None => true,
                                        },
                                        0 <= p <= trip_stops@.len(),
                                    decreases trip_stops@.len() - p,
                                {
                                    if str_eq(trip_stops[p].stop_id.as_str(), sid.as_str()) {
                                        current_idx = Some(p);
                                    }
                                    p = p + 1;
                                }
                            },
                            None => {},
                        }
                    },
                }
                match current_idx {
                    Some(at) => {
                        let current_sid: &String = match &vehicle.stop_id {
                            Some(sid) => sid,
                            None => &trip_stops[at].stop_id,
                        };
                        current_stop = match network.find_stop(current_sid.as_str()) {
                            Some(s) => Some(s.duplicate()),
                            None => None,
                        };
                        if at + 1 < trip_stops.len() {
                            next_stop = match network.find_stop(
                                trip_stops[at + 1].stop_id.as_str(),
                            ) {
                                Some(s) => Some(s.duplicate()),
                                None => None,
                            };
                        }
                        if at > 0 {
                            previous_stop = match network.find_stop(
                                trip_stops[at - 1].stop_id.as_str(),
                            ) {
                                Some(s) => Some(s.duplicate()),
                                None => None,
                            };
                        }
                    },
                    None => {},
                }
                ci = 3;
            } else {
                ci = ci + 1;
            }
        }
        Some(
            VehicleDetails {
                vehicle_id: vehicle.vehicle_id.clone(),
                trip_id: vehicle.trip_id.clone(),
                route_id: crate::model::dup_opt_string(&vehicle.route_id),
                line_code: line.line_code.clone(),
                line_name: line.line_name.clone(),
                line_color: line.color.clone(),
                operator: line.operator.clone(),
                destination: crate::model::dup_opt_string(&vehicle.destination),
                current_stop,
                next_stop,
                previous_stop,
                latitude: vehicle.latitude,
                longitude: vehicle.longitude,
                timestamp: vehicle.timestamp,
                delay: vehicle.delay,
            },
        )
    }

    /// Details one tracked vehicle at the evaluation instant `now`,
    /// projecting the network view first: for a view meeting the
    /// projection's contract at this instant's cutoff, a detail is returned
    /// exactly when the vehicle is tracked and some line of that view
    /// carries an entry with it. [`Self::vehicle_details_in`] carries the
    /// full field-level contract over the view.
    pub fn get_vehicle_details_at(vehicle_id: &str, cache: &CachedNetworkData, now: i64) -> (r:
        Option<VehicleDetails>)
        requires
            now >= i64::MIN + 120,
        ensures
            rt_lookup_by_vehicle(cache.real_time@, vehicle_id@) is None ==> r is None,
            r is Some ==> {
                let v = rt_lookup_by_vehicle(cache.real_time@, vehicle_id@).unwrap();
                &&& rt_lookup_by_vehicle(cache.real_time@, vehicle_id@) is Some
                &&& r.unwrap().vehicle_id == v.vehicle_id
                &&& r.unwrap().trip_id == v.trip_id
                &&& r.unwrap().route_id == v.route_id
                &&& r.unwrap().destination == v.destination
                &&& r.unwrap().latitude == v.latitude
                &&& r.unwrap().longitude == v.longitude
                &&& r.unwrap().timestamp == v.timestamp
                &&& r.unwrap().delay == v.delay
            },
            exists|view: NetworkData|
                {
                    &&& #[trigger] crate::fusion::network_projection_ok(
                        view,
                        *cache,
                        now - crate::fusion::rt_grace_period(),
                    )
                    &&& (r is Some <==> rt_lookup_by_vehicle(cache.real_time@, vehicle_id@)
                        is Some && line_with_vehicle(view.lines@, vehicle_id@) is Some)
                    &&& (r is Some ==> {
                        let l = line_with_vehicle(view.lines@, vehicle_id@).unwrap();
                        &&& r.unwrap().line_code == l.line_code
                        &&& r.unwrap().line_name == l.line_name
                        &&& r.unwrap().line_color == l.color
                        &&& r.unwrap().operator == l.operator
                    })
                },
    {
        let network = cache.to_network_data_at(now);
        let r = Self::vehicle_details_in(vehicle_id, cache, &network);
        proof {
            assert(crate::fusion::network_projection_ok(
                network,
                *cache,
                now - crate::fusion::rt_grace_period(),
            ));
        }
        r
    }

    /// Details one tracked vehicle at the present instant; the clock's
    /// reading cannot be pinned down, so [`Self::vehicle_details_in`]
    /// carries the exact contract over the projected view.
    pub fn get_vehicle_details(vehicle_id: &str, cache: &CachedNetworkData) -> (r: Option<
        VehicleDetails,
    >)
        ensures
            rt_lookup_by_vehicle(cache.real_time@, vehicle_id@) is None ==> r is None,
    {
        let t = Self::get_current_timestamp();
        let now = if t < i64::MIN + 120 {
            i64::MIN + 120
        } else {
            t
        };
        Self::get_vehicle_details_at(vehicle_id, cache, now)
    }
}

/// Finds the first tracked vehicle with the given id.
#[verifier::loop_isolation(false)]
fn find_vehicle_index(rt: &Vec<RealTimeInfo>, vid: &str) -> (r: Option<usize>)
    ensures
        match r {
            Some(at) => at < rt@.len() && rt_lookup_by_vehicle(rt@, vid@) == Some(rt@[at as int]),
            None => rt_lookup_by_vehicle(rt@, vid@) is None,
        },
{
    let mut i: usize = 0;
    proof {
        assert(rt@.skip(0) =~= rt@);
    }
    while i < rt.len()
        invariant
            0 <= i <= rt@.len(),
            rt_lookup_by_vehicle(rt@, vid@) == rt_lookup_by_vehicle(rt@.skip(i as int), vid@),
        decreases rt@.len() - i,
    {
        proof {
            assert(rt@.skip(i as int)[0] == rt@[i as int]);
            assert(rt@.skip(i as int).drop_first() =~= rt@.skip(i as int + 1));
        }
        if str_eq(rt[i].vehicle_id.as_str(), vid) {
            return Some(i);
        }
        i = i + 1;
    }
    proof {
        assert(rt@.skip(rt@.len() as int) =~= Seq::<RealTimeInfo>::empty());
    }
    None
}

/// Whether stop-time rows ascend by stop sequence.
pub open spec fn sorted_by_sequence(s: Seq<crate::model::StopTime>) -> bool {
    forall|i: int, j: int|
        0 <= i < j < s.len() ==> (#[trigger] s[i]).stop_sequence <= (#[trigger] s[j]).stop_sequence
}

/// Sorts stop-time rows ascending by stop sequence: the result is sorted
/// and holds exactly the input's rows.
fn sort_by_sequence(v: Vec<crate::model::StopTime>) -> (r: Vec<crate::model::StopTime>)
    ensures
        sorted_by_sequence(r@),
        r@.to_multiset() == v@.to_multiset(),
        r@.len() == v@.len(),
{
    broadcast use vstd::seq_lib::group_to_multiset_ensures;
    broadcast use vstd::multiset::group_multiset_axioms;

    let ghost orig = v@;
    let mut rest = v;
    let mut out: Vec<crate::model::StopTime> = Vec::new();
    proof {
        assert(out@.to_multiset().add(rest@.to_multiset()) =~= orig.to_multiset());
    }
    while rest.len() > 0
        invariant
            sorted_by_sequence(out@),
            out@.to_multiset().add(rest@.to_multiset()) == orig.to_multiset(),
            out@.len() + rest@.len() == orig.len(),
        decreases rest@.len(),
    {
        let ghost rest0 = rest@;
        let x = rest.remove(0);
        proof {
            rest0.to_multiset_ensures();
            assert(rest@ =~= rest0.remove(0));
            assert(rest0.remove(0).to_multiset() =~= rest0.to_multiset().remove(rest0[0]));
            assert(rest0.to_multiset().contains(rest0[0]));
        }
        let mut j: usize = 0;
        while j < out.len() && out[j].stop_sequence <= x.stop_sequence
            invariant
                0 <= j <= out@.len(),
                forall|k: int| 0 <= k < j ==> (#[trigger] out@[k]).stop_sequence
                    <= x.stop_sequence,
            decreases out@.len() - j,
        {
            j = j + 1;
        }
        let ghost out0 = out@;
        let ghost pos = j as int;
        out.insert(j, x);
        proof {
            assert(out@ =~= out0.insert(pos, x));
            crate::sortutil::lemma_insert_to_multiset(out0, pos, x);
            assert(out@.to_multiset().add(rest@.to_multiset()) =~= orig.to_multiset());
            assert forall|i: int, k: int| 0 <= i < k < out@.len() implies (
            #[trigger] out@[i]).stop_sequence <= (#[trigger] out@[k]).stop_sequence by {
                if i < pos && k < pos {
                    assert(out@[i] == out0[i] && out@[k] == out0[k]);
                } else if i < pos && k == pos {
                    assert(out@[i] == out0[i]);
                } else if i < pos && k > pos {
                    assert(out@[i] == out0[i] && out@[k] == out0[k - 1]);
                } else if i == pos {
                    assert(out@[k] == out0[k - 1]);
                    assert(!(out0[pos].stop_sequence <= x.stop_sequence));
                } else {
                    assert(out@[i] == out0[i - 1] && out@[k] == out0[k - 1]);
                }
            }
        }
    }
    proof {
        assert(rest@.to_multiset() =~= vstd::multiset::Multiset::<
            crate::model::StopTime,
        >::empty());
        assert(out@.to_multiset() =~= orig.to_multiset());
    }
    out
}

/// The envelope every served result is wrapped in.
#[derive(Debug, Clone, PartialEq)]
pub struct ApiResponse<T> {
    pub success: bool,
    pub data: Option<T>,
    pub error: Option<String>,
    pub timestamp: i64,
    pub sources: Vec<String>,
}

impl<T> ApiResponse<T> {
    /// Wraps a successful result, naming the served sources.
    pub fn success(data: T) -> (r: ApiResponse<T>)
        ensures
            r.success,
            r.data == Some(data),
            r.error is None,
            r.sources@.len() == 2,
            r.sources@[0]@ == "TBM"@,
            r.sources@[1]@ == "TransGironde"@,
    {
        let mut sources: Vec<String> = Vec::new();
        sources.push(String::from_str("TBM"));
        sources.push(String::from_str("TransGironde"));
        ApiResponse {
            success: true,
            data: Some(data),
            error: None,
            timestamp: NVTModels::get_current_timestamp(),
            sources,
        }
    }

    /// Wraps a failure message.
    pub fn error(message: String) -> (r: ApiResponse<T>)
        ensures
            !r.success,
            r.data is None,
            r.error == Some(message),
            r.sources@.len() == 0,
    {
        ApiResponse {
            success: false,
            data: None,
            error: Some(message),
            timestamp: NVTModels::get_current_timestamp(),
            sources: Vec::new(),
        }
    }
}

} // verus!
