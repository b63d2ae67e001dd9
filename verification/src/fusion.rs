//! Fusion engine: builds the fused network view. Stops are assembled from
//! the urban discovery metadata and the per-operator caches; real-time
//! entries and alerts are attached to the stops and lines they concern,
//! under a staleness cutoff of 120 seconds.

use vstd::prelude::*;

use crate::ids::{extract_line_id_spec, extract_stop_id_spec};
use crate::model::{
    AlertInfo, AlertInfoV, LineMeta, NVTModels, RealTimeInfo, Stop, StopMeta, StopTime,
    StopTimeUpdateData, TripUpdateData, view_alerts,
};
use crate::sortutil::{lemma_multiset_preserves_pred, sort_vec, sorted_seq};
use crate::strutil::{dec_seq, str_eq, u64_to_dec};

verus! {

/// The staleness cutoff: real-time entries dated more than this many
/// seconds before the evaluation instant are dropped.
pub open spec fn rt_grace_period() -> int {
    120
}

/// Ghost view of a real-time entry: every string abstracted to its
/// characters, so that a synthetic entry is pinned without reference to any
/// particular allocation.
pub struct RtV {
    pub vehicle_id: Seq<char>,
    pub trip_id: Seq<char>,
    pub route_id: Option<Seq<char>>,
    pub direction_id: Option<u32>,
    pub destination: Option<Seq<char>>,
    pub latitude: i64,
    pub longitude: i64,
    pub stop_id: Option<Seq<char>>,
    pub current_stop_sequence: Option<u32>,
    pub timestamp: Option<i64>,
    pub delay: Option<i32>,
}

/// The view of a real-time entry.
pub open spec fn rt_view(r: RealTimeInfo) -> RtV {
    RtV {
        vehicle_id: r.vehicle_id@,
        trip_id: r.trip_id@,
        route_id: match r.route_id {
            Some(s) => Some(s@),
            None => None,
        },
        direction_id: r.direction_id,
        destination: match r.destination {
            Some(s) => Some(s@),
            None => None,
        },
        latitude: r.latitude,
        longitude: r.longitude,
        stop_id: match r.stop_id {
            Some(s) => Some(s@),
            None => None,
        },
        current_stop_sequence: r.current_stop_sequence,
        timestamp: r.timestamp,
        delay: r.delay,
    }
}

/// The views of a sequence of real-time entries.
pub open spec fn rt_views(s: Seq<RealTimeInfo>) -> Seq<RtV> {
    s.map_values(|r: RealTimeInfo| rt_view(r))
}

/// Whether a live entry belongs to the stop and passes the cutoff.
pub open spec fn vehicle_matches_stop(r: RealTimeInfo, sid: Seq<char>, cutoff: int) -> bool {
    &&& (r.stop_id matches Some(s) && s@ == sid)
    &&& (r.timestamp matches Some(t) ==> t >= cutoff)
}

/// The live entries that belong to the stop and pass the cutoff, in order.
pub open spec fn vehicle_candidates(rt: Seq<RealTimeInfo>, sid: Seq<char>, cutoff: int) -> Seq<
    RealTimeInfo,
>
    decreases rt.len(),
{
    if rt.len() == 0 {
        Seq::empty()
    } else {
        let rest = vehicle_candidates(rt.drop_last(), sid, cutoff);
        if vehicle_matches_stop(rt.last(), sid, cutoff) {
            rest.push(rt.last())
        } else {
            rest
        }
    }
}

/// The destinations of the line metadata in force for a canonical line id:
/// the last entry whose reference's canonical id matches.
pub open spec fn line_dests_for(metas: Seq<LineMeta>, rid: Seq<char>) -> Option<
    Seq<(String, String)>,
>
    decreases metas.len(),
{
    if metas.len() == 0 {
        None
    } else if extract_line_id_spec(metas.last().line_ref@) == Some(rid) {
        Some(metas.last().destinations@)
    } else {
        line_dests_for(metas.drop_last(), rid)
    }
}

/// The place name of the first destination pair whose direction reference
/// matches.
pub open spec fn first_dest(dests: Seq<(String, String)>, dkey: Seq<char>) -> Option<Seq<char>>
    decreases dests.len(),
{
    if dests.len() == 0 {
        None
    } else if dests[0].0@ == dkey {
        Some(dests[0].1@)
    } else {
        first_dest(dests.drop_first(), dkey)
    }
}

/// The destination resolved for a trip update: the line is found by the
/// update's route id and the place by its direction id rendered in decimal.
pub open spec fn dest_for(
    metas: Seq<LineMeta>,
    route_id: Option<String>,
    dir: Option<u32>,
) -> Option<Seq<char>> {
    match route_id {
        Some(rid) => match line_dests_for(metas, rid@) {
            Some(ds) => match dir {
                Some(d) => first_dest(ds, dec_seq(d as int)),
                None => None,
            },
            None => None,
        },
        None => None,
    }
}

/// The timestamp of a stop-time entry: its arrival time, else its
/// departure time.
pub open spec fn stu_time(stu: StopTimeUpdateData) -> Option<i64> {
    match stu.arrival_time {
        Some(t) => Some(t),
        None => stu.departure_time,
    }
}

/// The delay of a stop-time entry: its arrival delay, else its departure
/// delay.
pub open spec fn stu_delay(stu: StopTimeUpdateData) -> Option<i32> {
    match stu.arrival_delay {
        Some(d) => Some(d),
        None => stu.departure_delay,
    }
}

/// Whether a stop-time entry of a trip update belongs to the stop: its stop
/// id matches raw, or normalizes to the stop's id while differing from it,
/// and it carries a time at or past the cutoff.
pub open spec fn stu_matches_stop(stu: StopTimeUpdateData, sid: Seq<char>, cutoff: int) -> bool {
    &&& stu.stop_id is Some
    &&& (stu_time(stu) matches Some(t) && t >= cutoff)
    &&& {
        let raw = stu.stop_id.unwrap()@;
        raw == sid || (extract_stop_id_spec(raw) == sid && extract_stop_id_spec(raw) != raw)
    }
}

/// The view of the synthetic schedule-derived entry built from a trip
/// update's stop-time entry at a stop.
pub open spec fn stu_entry_view(
    tu: TripUpdateData,
    stu: StopTimeUpdateData,
    m: StopMeta,
    metas: Seq<LineMeta>,
) -> RtV {
    RtV {
        vehicle_id: "scheduled"@,
        trip_id: match tu.trip_id {
            Some(t) => t@,
            None => "Unknown"@,
        },
        route_id: match tu.route_id {
            Some(r) => Some(r@),
            None => None,
        },
        direction_id: tu.direction_id,
        destination: dest_for(metas, tu.route_id, tu.direction_id),
        latitude: m.latitude,
        longitude: m.longitude,
        stop_id: Some(m.stop_id@),
        current_stop_sequence: None,
        timestamp: stu_time(stu),
        delay: stu_delay(stu),
    }
}

/// The views of the synthetic entries one trip update contributes to a
/// stop, in stop-time order.
pub open spec fn tu_entries(
    tu: TripUpdateData,
    stus: Seq<StopTimeUpdateData>,
    m: StopMeta,
    metas: Seq<LineMeta>,
    cutoff: int,
) -> Seq<RtV>
    decreases stus.len(),
{
    if stus.len() == 0 {
        Seq::empty()
    } else {
        let rest = tu_entries(tu, stus.drop_last(), m, metas, cutoff);
        if stu_matches_stop(stus.last(), m.stop_id@, cutoff) {
            rest.push(stu_entry_view(tu, stus.last(), m, metas))
        } else {
            rest
        }
    }
}

/// The views of all synthetic entries the trip updates contribute to a
/// stop, in feed order.
pub open spec fn all_tu_entries(
    tus: Seq<TripUpdateData>,
    m: StopMeta,
    metas: Seq<LineMeta>,
    cutoff: int,
) -> Seq<RtV>
    decreases tus.len(),
{
    if tus.len() == 0 {
        Seq::empty()
    } else {
        all_tu_entries(tus.drop_last(), m, metas, cutoff) + tu_entries(
            tus.last(),
            tus.last().stop_time_updates@,
            m,
            metas,
            cutoff,
        )
    }
}

/// The alerts whose affected stops include the given stop id, in order, as
/// views.
pub open spec fn stop_alerts_for(alerts: Seq<AlertInfo>, sid: Seq<char>) -> Seq<AlertInfoV>
    decreases alerts.len(),
{
    if alerts.len() == 0 {
        Seq::empty()
    } else {
        let rest = stop_alerts_for(alerts.drop_last(), sid);
        if crate::sortutil::contains_string_view(alerts.last().stop_ids@, sid) {
            rest.push(alerts.last()@)
        } else {
            rest
        }
    }
}

/// The clock-independent shape of a stop's attached real-time list: every
/// entry names the stop, the list ascends by timestamp with undated entries
/// last, and at most ten entries stand.
pub open spec fn stop_rt_steady_ok(s: Stop) -> bool {
    &&& s.real_time@.len() <= 10
    &&& sorted_seq(s.real_time@)
    &&& forall|i: int| 0 <= i < s.real_time@.len()
        ==> ((#[trigger] s.real_time@[i]).stop_id matches Some(x) && x@ == s.stop_id@)
}

/// The attached real-time list of a well-formed stop: its clock-independent
/// shape, and every dated entry passes the cutoff.
pub open spec fn stop_rt_ok(s: Stop, cutoff: int) -> bool {
    &&& stop_rt_steady_ok(s)
    &&& forall|i: int| 0 <= i < s.real_time@.len()
        ==> ((#[trigger] s.real_time@[i]).timestamp matches Some(t) ==> t >= cutoff)
}

/// Whether every built stop satisfies [`built_stop_ok`] for one cutoff.
pub open spec fn built_stops_ok_at(
    r: Seq<Stop>,
    stops_data: Seq<StopMeta>,
    alerts: Seq<AlertInfo>,
    real_time: Seq<RealTimeInfo>,
    tus: Seq<TripUpdateData>,
    metas: Seq<LineMeta>,
    cutoff: int,
) -> bool {
    forall|i: int| 0 <= i < r.len() ==> built_stop_ok(
        #[trigger] r[i],
        stops_data[i],
        alerts,
        real_time,
        tus,
        metas,
        cutoff,
    )
}

/// What [`NVTModels::build_stops`] guarantees of one stop whatever instant
/// the clock read: identity and lines pass through, the attached alerts are
/// exactly those naming the stop, and the real-time list keeps its shape.
pub open spec fn built_stop_steady_ok(s: Stop, m: StopMeta, alerts: Seq<AlertInfo>) -> bool {
    &&& s.stop_id == m.stop_id
    &&& s.stop_name == m.stop_name
    &&& s.latitude == m.latitude
    &&& s.longitude == m.longitude
    &&& s.lines == m.lines
    &&& view_alerts(s.alerts@) == stop_alerts_for(alerts, m.stop_id@)
    &&& stop_rt_steady_ok(s)
}

/// What `build_stops` produces for one stop from its metadata: identity and
/// lines pass through; the attached alerts are exactly those naming the
/// stop; the attached real-time list is the ten soonest of the matching
/// live entries and synthetic trip-update entries.
pub open spec fn built_stop_ok(
    s: Stop,
    m: StopMeta,
    alerts: Seq<AlertInfo>,
    real_time: Seq<RealTimeInfo>,
    tus: Seq<TripUpdateData>,
    metas: Seq<LineMeta>,
    cutoff: int,
) -> bool {
    &&& s.stop_id == m.stop_id
    &&& s.stop_name == m.stop_name
    &&& s.latitude == m.latitude
    &&& s.longitude == m.longitude
    &&& s.lines == m.lines
    &&& view_alerts(s.alerts@) == stop_alerts_for(alerts, m.stop_id@)
    &&& stop_rt_ok(s, cutoff)
    &&& exists|synth: Seq<RealTimeInfo>, full: Seq<RealTimeInfo>|
        {
            &&& #[trigger] rt_views(synth) == all_tu_entries(tus, m, metas, cutoff)
            &&& sorted_seq(full)
            &&& #[trigger] full.to_multiset() == (vehicle_candidates(real_time, m.stop_id@, cutoff)
                + synth).to_multiset()
            &&& s.real_time@ == full.take(
                if full.len() < 10 {
                    full.len() as int
                } else {
                    10
                },
            )
        }
}

/// Resolves the destination a synthetic entry carries; see [`dest_for`].
#[verifier::loop_isolation(false)]
fn dest_for_exec(metas: &Vec<LineMeta>, route_id: &Option<String>, dir: Option<u32>) -> (r: Option<
    String,
>)
    ensures
        match dest_for(metas@, *route_id, dir) {
            Some(v) => r is Some && r.unwrap()@ == v,
            None => r is None,
        },
{
    let rid = match route_id {
        Some(s) => s,
        None => {
            return None;
        },
    };
    let mut i: usize = metas.len();
    proof {
        assert(metas@.take(metas@.len() as int) =~= metas@);
    }
    while i > 0
        invariant
            0 <= i <= metas@.len(),
            line_dests_for(metas@, rid@) == line_dests_for(metas@.take(i as int), rid@),
        decreases i,
    {
        proof {
            assert(metas@.take(i as int).last() == metas@[i as int - 1]);
            assert(metas@.take(i as int).drop_last() =~= metas@.take(i as int - 1));
        }
        let found = match NVTModels::extract_line_id(metas[i - 1].line_ref.as_str()) {
            Some(lid) => str_eq(lid, rid.as_str()),
            None => false,
        };
        if found {
            proof {
                assert(line_dests_for(metas@, rid@) == Some(metas@[i as int - 1].destinations@));
            }
            let d = match dir {
                Some(d) => d,
                None => {
                    return None;
                },
            };
            let dkey = u64_to_dec(d as u64);
            let dests = &metas[i - 1].destinations;
            let mut j: usize = 0;
            proof {
                assert(dests@.skip(0) =~= dests@);
            }
            while j < dests.len()
                invariant
                    0 <= j <= dests@.len(),
                    first_dest(dests@, dkey@) == first_dest(dests@.skip(j as int), dkey@),
                decreases dests@.len() - j,
            {
                proof {
                    assert(dests@.skip(j as int)[0] == dests@[j as int]);
                    assert(dests@.skip(j as int).drop_first() =~= dests@.skip(j as int + 1));
                }
                if str_eq(dests[j].0.as_str(), dkey.as_str()) {
                    proof {
                        assert(first_dest(dests@, dkey@) == Some(dests@[j as int].1@));
                    }
                    return Some(dests[j].1.clone());
                }
                j = j + 1;
            }
            proof {
                assert(dests@.skip(dests@.len() as int) =~= Seq::<(String, String)>::empty());
            }
            return None;
        }
        i = i - 1;
    }
    proof {
        assert(metas@.take(0) =~= Seq::<LineMeta>::empty());
    }
    None
}

/// Collects the live entries belonging to a stop; see
/// [`vehicle_candidates`].
fn filter_vehicles(rt: &Vec<RealTimeInfo>, sid: &str, cutoff: i64) -> (r: Vec<RealTimeInfo>)
    ensures
        r@ == vehicle_candidates(rt@, sid@, cutoff as int),
{
    let mut out: Vec<RealTimeInfo> = Vec::new();
    let mut i: usize = 0;
    while i < rt.len()
        invariant
            0 <= i <= rt@.len(),
            out@ == vehicle_candidates(rt@.take(i as int), sid@, cutoff as int),
        decreases rt@.len() - i,
    {
        proof {
            assert(rt@.take(i as int + 1).drop_last() =~= rt@.take(i as int));
            assert(rt@.take(i as int + 1).last() == rt@[i as int]);
        }
        let stop_match = match &rt[i].stop_id {
            Some(s) => str_eq(s.as_str(), sid),
            None => false,
        };
        if stop_match {
            let fresh = match rt[i].timestamp {
                Some(t) => t >= cutoff,
                None => true,
            };
            if fresh {
                out.push(rt[i].duplicate());
            }
        }
        i = i + 1;
    }
    proof {
        assert(rt@.take(rt@.len() as int) =~= rt@);
    }
    out
}

/// Collects the alerts naming a stop; see [`stop_alerts_for`].
fn filter_stop_alerts(alerts: &Vec<AlertInfo>, sid: &str) -> (r: Vec<AlertInfo>)
    ensures
        view_alerts(r@) == stop_alerts_for(alerts@, sid@),
{
    let mut out: Vec<AlertInfo> = Vec::new();
    let mut i: usize = 0;
    while i < alerts.len()
        invariant
            0 <= i <= alerts@.len(),
            view_alerts(out@) == stop_alerts_for(alerts@.take(i as int), sid@),
        decreases alerts@.len() - i,
    {
        proof {
            assert(alerts@.take(i as int + 1).drop_last() =~= alerts@.take(i as int));
            assert(alerts@.take(i as int + 1).last() == alerts@[i as int]);
        }
        let ids = &alerts[i].stop_ids;
        let mut j: usize = 0;
        let mut hit = false;
        while j < ids.len() && !hit
            invariant
                0 <= j <= ids@.len(),
                hit ==> crate::sortutil::contains_string_view(ids@, sid@),
                !hit ==> forall|a: int| 0 <= a < j ==> (#[trigger] ids@[a])@ != sid@,
            decreases ids@.len() - j,
        {
            if str_eq(ids[j].as_str(), sid) {
                hit = true;
            }
            j = j + 1;
        }
        if hit {
            out.push(alerts[i].duplicate());
            proof {
                assert(view_alerts(out@) =~= stop_alerts_for(alerts@.take(i as int + 1), sid@));
            }
        } else {
            proof {
                assert(!crate::sortutil::contains_string_view(alerts@[i as int].stop_ids@, sid@));
                assert(view_alerts(out@) =~= stop_alerts_for(alerts@.take(i as int + 1), sid@));
            }
        }
        i = i + 1;
    }
    proof {
        assert(alerts@.take(alerts@.len() as int) =~= alerts@);
    }
    out
}

/// Builds the synthetic schedule-derived entries the trip updates
/// contribute to a stop; see [`all_tu_entries`].
#[verifier::loop_isolation(false)]
fn build_synthetic(
    tus: &Vec<TripUpdateData>,
    m: &StopMeta,
    metas: &Vec<LineMeta>,
    cutoff: i64,
) -> (r: Vec<RealTimeInfo>)
    ensures
        rt_views(r@) == all_tu_entries(tus@, *m, metas@, cutoff as int),
        forall|i: int| 0 <= i < r@.len() ==> vehicle_matches_stop(
            #[trigger] r@[i],
            m.stop_id@,
            cutoff as int,
        ),
{
    let mut out: Vec<RealTimeInfo> = Vec::new();
    let mut i: usize = 0;
    while i < tus.len()
        invariant
            0 <= i <= tus@.len(),
            rt_views(out@) == all_tu_entries(tus@.take(i as int), *m, metas@, cutoff as int),
            forall|k: int| 0 <= k < out@.len() ==> vehicle_matches_stop(
                #[trigger] out@[k],
                m.stop_id@,
                cutoff as int,
            ),
        decreases tus@.len() - i,
    {
        proof {
            assert(tus@.take(i as int + 1).drop_last() =~= tus@.take(i as int));
            assert(tus@.take(i as int + 1).last() == tus@[i as int]);
        }
        let tu = &tus[i];
        let stus = &tu.stop_time_updates;
        let mut j: usize = 0;
        while j < stus.len()
            invariant
                0 <= j <= stus@.len(),
                stus@ == tus@[i as int].stop_time_updates@,
                i < tus@.len(),
                rt_views(out@) == all_tu_entries(tus@.take(i as int), *m, metas@, cutoff as int)
                    + tu_entries(tus@[i as int], stus@.take(j as int), *m, metas@, cutoff as int),
                forall|k: int| 0 <= k < out@.len() ==> vehicle_matches_stop(
                    #[trigger] out@[k],
                    m.stop_id@,
                    cutoff as int,
                ),
            decreases stus@.len() - j,
        {
            proof {
                assert(stus@.take(j as int + 1).drop_last() =~= stus@.take(j as int));
                assert(stus@.take(j as int + 1).last() == stus@[j as int]);
            }
            let stu = &stus[j];
            let time = match stu.arrival_time {
                Some(t) => Some(t),
                None => stu.departure_time,
            };
            let keep = match (&stu.stop_id, time) {
                (Some(raw), Some(t)) => {
                    if t >= cutoff {
                        if str_eq(raw.as_str(), m.stop_id.as_str()) {
                            true
                        } else {
                            match NVTModels::extract_stop_id(raw.as_str()) {
                                Some(ex) => str_eq(ex.as_str(), m.stop_id.as_str()),
                                None => false,
                            }
                        }
                    } else {
                        false
                    }
                },
                _ => false,
            };
            if keep {
                let delay = match stu.arrival_delay {
                    Some(d) => Some(d),
                    None => stu.departure_delay,
                };
                let destination = dest_for_exec(metas, &tu.route_id, tu.direction_id);
                let entry = RealTimeInfo {
                    vehicle_id: String::from_str("scheduled"),
                    trip_id: match &tu.trip_id {
                        Some(t) => t.clone(),
                        None => String::from_str("Unknown"),
                    },
                    route_id: crate::model::dup_opt_string(&tu.route_id),
                    direction_id: tu.direction_id,
                    destination,
                    latitude: m.latitude,
                    longitude: m.longitude,
                    stop_id: Some(m.stop_id.clone()),
                    current_stop_sequence: None,
                    timestamp: time,
                    delay,
                };
                proof {
                    assert(rt_view(entry) == stu_entry_view(
                        tus@[i as int],
                        stus@[j as int],
                        *m,
                        metas@,
                    ));
                }
                let ghost before_out = out@;
                out.push(entry);
                proof {
                    assert(rt_views(out@) =~= rt_views(before_out).push(rt_view(entry)));
                    assert(tu_entries(
                        tus@[i as int],
                        stus@.take(j as int + 1),
                        *m,
                        metas@,
                        cutoff as int,
                    ) == tu_entries(
                        tus@[i as int],
                        stus@.take(j as int),
                        *m,
                        metas@,
                        cutoff as int,
                    ).push(stu_entry_view(tus@[i as int], stus@[j as int], *m, metas@)));
                    assert(rt_views(out@) =~= all_tu_entries(
                        tus@.take(i as int),
                        *m,
                        metas@,
                        cutoff as int,
                    ) + tu_entries(
                        tus@[i as int],
                        stus@.take(j as int + 1),
                        *m,
                        metas@,
                        cutoff as int,
                    ));
                }
            } else {
                proof {
                    assert(!stu_matches_stop(stus@[j as int], m.stop_id@, cutoff as int));
                }
            }
            j = j + 1;
        }
        proof {
            assert(stus@.take(stus@.len() as int) =~= stus@);
            assert(rt_views(out@) =~= all_tu_entries(
                tus@.take(i as int + 1),
                *m,
                metas@,
                cutoff as int,
            ));
        }
        i = i + 1;
    }
    proof {
        assert(tus@.take(tus@.len() as int) =~= tus@);
    }
    out
}

impl NVTModels {
    /// Builds the fused stops for the urban metadata at the evaluation
    /// instant `now`: each stop keeps its metadata, receives the alerts
    /// naming it, and receives the ten soonest matching real-time entries —
    /// live vehicle positions at the stop and synthetic entries derived
    /// from the trip updates — none older than the staleness cutoff.
    #[verifier::loop_isolation(false)]
    pub fn build_stops_at(
        stops_data: Vec<StopMeta>,
        alerts: &Vec<AlertInfo>,
        real_time: &Vec<RealTimeInfo>,
        trip_updates: &Vec<TripUpdateData>,
        lines_metadata: &Vec<LineMeta>,
        now: i64,
    ) -> (r: Vec<Stop>)
        requires
            now >= i64::MIN + 120,
        ensures
            r@.len() == stops_data@.len(),
            forall|i: int| 0 <= i < r@.len() ==> built_stop_ok(
                #[trigger] r@[i],
                stops_data@[i],
                alerts@,
                real_time@,
                trip_updates@,
                lines_metadata@,
                now - rt_grace_period(),
            ),
    {
        let cutoff: i64 = now - 120;
        let mut out: Vec<Stop> = Vec::new();
        let mut idx: usize = 0;
        let mut rest = stops_data;
        let ghost metas0 = rest@;
        while rest.len() > 0
            invariant
                out@.len() + rest@.len() == metas0.len(),
                out@.len() == idx,
                rest@ == metas0.skip(idx as int),
                cutoff == now - 120,
                now >= i64::MIN + 120,
                forall|i: int| 0 <= i < out@.len() ==> built_stop_ok(
                    #[trigger] out@[i],
                    metas0[i],
                    alerts@,
                    real_time@,
                    trip_updates@,
                    lines_metadata@,
                    cutoff as int,
                ),
            decreases rest@.len(),
        {
            let ghost rest0 = rest@;
            let m = rest.remove(0);
            proof {
                assert(rest@ =~= metas0.skip(idx as int + 1));
                assert(m == metas0[idx as int]);
            }
            let veh = filter_vehicles(real_time, m.stop_id.as_str(), cutoff);
            let synth = build_synthetic(trip_updates, &m, lines_metadata, cutoff);
            let ghost synth0 = synth@;
            let mut cand = veh;
            let ghost veh0 = cand@;
            let mut extra = synth;
            cand.append(&mut extra);
            proof {
                assert forall|k: int| 0 <= k < cand@.len() implies vehicle_matches_stop(
                    #[trigger] cand@[k],
                    m.stop_id@,
                    cutoff as int,
                ) by {
                    if k < veh0.len() {
                        lemma_vehicle_candidates_pred(real_time@, m.stop_id@, cutoff as int);
                        assert(cand@[k] == veh0[k]);
                    } else {
                        assert(cand@[k] == synth0[k - veh0.len()]);
                    }
                }
            }
            let ghost cand0 = cand@;
            let mut sorted = sort_vec(cand);
            proof {
                lemma_multiset_preserves_pred(
                    cand0,
                    sorted@,
                    |x: RealTimeInfo| vehicle_matches_stop(x, m.stop_id@, cutoff as int),
                );
            }
            let ghost full0 = sorted@;
            if sorted.len() > 10 {
                sorted.truncate(10);
            }
            proof {
                assert(sorted@ =~= full0.take(
                    if full0.len() < 10 {
                        full0.len() as int
                    } else {
                        10
                    },
                ));
            }
            let stop_alerts = filter_stop_alerts(alerts, m.stop_id.as_str());
            let stop = Stop {
                stop_id: m.stop_id,
                stop_name: m.stop_name,
                latitude: m.latitude,
                longitude: m.longitude,
                lines: m.lines,
                alerts: stop_alerts,
                real_time: sorted,
            };
            proof {
                assert(built_stop_ok(
                    stop,
                    metas0[idx as int],
                    alerts@,
                    real_time@,
                    trip_updates@,
                    lines_metadata@,
                    cutoff as int,
                )) by {
                    assert(rt_views(synth0) == all_tu_entries(
                        trip_updates@,
                        metas0[idx as int],
                        lines_metadata@,
                        cutoff as int,
                    ));
                    assert(full0.to_multiset() == (vehicle_candidates(
                        real_time@,
                        metas0[idx as int].stop_id@,
                        cutoff as int,
                    ) + synth0).to_multiset());
                    assert(stop.real_time@ == full0.take(
                        if full0.len() < 10 {
                            full0.len() as int
                        } else {
                            10
                        },
                    ));
                }
            }
            out.push(stop);
            idx = out.len();
        }
        proof {
            assert(metas0.skip(metas0.len() as int) =~= Seq::<StopMeta>::empty());
        }
        out
    }

    /// Builds the fused stops at the present instant. Identity, lines,
    /// alert matching and the real-time list's shape hold whatever the
    /// clock read; some reading also bounds every dated entry's staleness.
    /// [`Self::build_stops_at`] carries the exact per-instant contract.
    pub fn build_stops(
        stops_data: Vec<StopMeta>,
        alerts: &Vec<AlertInfo>,
        real_time: &Vec<RealTimeInfo>,
        trip_updates: &Vec<TripUpdateData>,
        lines_metadata: &Vec<LineMeta>,
    ) -> (r: Vec<Stop>)
        ensures
            r@.len() == stops_data@.len(),
            forall|i: int| 0 <= i < r@.len() ==> built_stop_steady_ok(
                #[trigger] r@[i],
                stops_data@[i],
                alerts@,
            ),
            exists|cutoff: int| #[trigger] built_stops_ok_at(
                r@,
                stops_data@,
                alerts@,
                real_time@,
                trip_updates@,
                lines_metadata@,
                cutoff,
            ),
    {
        let t = Self::get_current_timestamp();
        let now = if t < i64::MIN + 120 {
            i64::MIN + 120
        } else {
            t
        };
        let r = Self::build_stops_at(
            stops_data,
            alerts,
            real_time,
            trip_updates,
            lines_metadata,
            now,
        );
        proof {
            assert(built_stops_ok_at(
                r@,
                stops_data@,
                alerts@,
                real_time@,
                trip_updates@,
                lines_metadata@,
                now - rt_grace_period(),
            ));
        }
        r
    }
}

// ===========================================================================
// Lines.
// ===========================================================================

/// The canonical line id of a reference: its third colon-delimited segment,
/// or empty when the reference has none.
pub open spec fn line_id_view(line_ref: Seq<char>) -> Seq<char> {
    match extract_line_id_spec(line_ref) {
        Some(s) => s,
        None => Seq::empty(),
    }
}

/// The alerts whose affected routes name the line's code or canonical id,
/// in order, as views.
pub open spec fn line_alerts_for(alerts: Seq<AlertInfo>, code: Seq<char>, lid: Seq<char>) -> Seq<
    AlertInfoV,
>
    decreases alerts.len(),
{
    if alerts.len() == 0 {
        Seq::empty()
    } else {
        let rest = line_alerts_for(alerts.drop_last(), code, lid);
        if crate::sortutil::contains_string_view(alerts.last().route_ids@, code)
            || crate::sortutil::contains_string_view(alerts.last().route_ids@, lid) {
            rest.push(alerts.last()@)
        } else {
            rest
        }
    }
}

/// Whether a live entry belongs to the line and passes the cutoff.
pub open spec fn rt_matches_line(r: RealTimeInfo, lid: Seq<char>, cutoff: int) -> bool {
    &&& (r.route_id matches Some(s) && s@ == lid)
    &&& (r.timestamp matches Some(t) ==> t >= cutoff)
}

/// The live entries that belong to the line and pass the cutoff, in order.
pub open spec fn line_rt_candidates(rt: Seq<RealTimeInfo>, lid: Seq<char>, cutoff: int) -> Seq<
    RealTimeInfo,
>
    decreases rt.len(),
{
    if rt.len() == 0 {
        Seq::empty()
    } else {
        let rest = line_rt_candidates(rt.drop_last(), lid, cutoff);
        if rt_matches_line(rt.last(), lid, cutoff) {
            rest.push(rt.last())
        } else {
            rest
        }
    }
}

/// What `build_lines` produces for one line from its metadata: reference,
/// name, code and destinations pass through; the canonical route id is the
/// reference's third colon segment; color and shape ids come from the
/// cached route tables with a gray default; the attached alerts name the
/// line; the attached real-time entries belong to it, pass the cutoff, and
/// ascend by timestamp.
pub open spec fn built_line_ok(
    l: crate::model::Line,
    m: LineMeta,
    alerts: Seq<AlertInfo>,
    rt: Seq<RealTimeInfo>,
    routes: Seq<(String, String)>,
    route_to_shapes: Seq<(String, Vec<String>)>,
    cutoff: int,
) -> bool {
    &&& l.line_ref == m.line_ref
    &&& l.line_name == m.line_name
    &&& l.line_code == m.line_code
    &&& l.destinations == m.destinations
    &&& l.route_id@ == line_id_view(m.line_ref@)
    &&& match crate::tables::assoc_last(routes, line_id_view(m.line_ref@)) {
        Some(c) => l.color == c,
        None => l.color@ == "808080"@,
    }
    &&& match crate::tables::assoc_last(route_to_shapes, line_id_view(m.line_ref@)) {
        Some(v) => l.shape_ids@ == v@,
        None => l.shape_ids@.len() == 0,
    }
    &&& view_alerts(l.alerts@) == line_alerts_for(alerts, m.line_code@, line_id_view(m.line_ref@))
    &&& sorted_seq(l.real_time@)
    &&& l.real_time@.to_multiset() == line_rt_candidates(
        rt,
        line_id_view(m.line_ref@),
        cutoff,
    ).to_multiset()
    &&& l.operator@ == "TBM"@
}

/// What [`NVTModels::build_lines`] guarantees of one line whatever instant
/// the clock read: everything of [`built_line_ok`] except the staleness
/// bound — the real-time list is sorted and every entry names the line's
/// canonical route id.
pub open spec fn built_line_steady_ok(
    l: crate::model::Line,
    m: LineMeta,
    alerts: Seq<AlertInfo>,
    routes: Seq<(String, String)>,
    route_to_shapes: Seq<(String, Vec<String>)>,
) -> bool {
    &&& l.line_ref == m.line_ref
    &&& l.line_name == m.line_name
    &&& l.line_code == m.line_code
    &&& l.destinations == m.destinations
    &&& l.route_id@ == line_id_view(m.line_ref@)
    &&& match crate::tables::assoc_last(routes, line_id_view(m.line_ref@)) {
        Some(c) => l.color == c,
        None => l.color@ == "808080"@,
    }
    &&& match crate::tables::assoc_last(route_to_shapes, line_id_view(m.line_ref@)) {
        Some(v) => l.shape_ids@ == v@,
        None => l.shape_ids@.len() == 0,
    }
    &&& view_alerts(l.alerts@) == line_alerts_for(alerts, m.line_code@, line_id_view(m.line_ref@))
    &&& sorted_seq(l.real_time@)
    &&& forall|i: int| 0 <= i < l.real_time@.len()
        ==> ((#[trigger] l.real_time@[i]).route_id matches Some(x) && x@ == l.route_id@)
    &&& l.operator@ == "TBM"@
}

/// Whether every built line satisfies [`built_line_ok`] for one cutoff.
pub open spec fn built_lines_ok_at(
    r: Seq<crate::model::Line>,
    lines_data: Seq<LineMeta>,
    alerts: Seq<AlertInfo>,
    rt: Seq<RealTimeInfo>,
    routes: Seq<(String, String)>,
    route_to_shapes: Seq<(String, Vec<String>)>,
    cutoff: int,
) -> bool {
    forall|i: int| 0 <= i < r.len() ==> built_line_ok(
        #[trigger] r[i],
        lines_data[i],
        alerts,
        rt,
        routes,
        route_to_shapes,
        cutoff,
    )
}

/// Every line candidate names the line and passes the cutoff.
proof fn lemma_line_rt_candidates_pred(rt: Seq<RealTimeInfo>, lid: Seq<char>, cutoff: int)
    ensures
        forall|k: int| 0 <= k < line_rt_candidates(rt, lid, cutoff).len() ==> rt_matches_line(
            #[trigger] line_rt_candidates(rt, lid, cutoff)[k],
            lid,
            cutoff,
        ),
    decreases rt.len(),
{
    if rt.len() > 0 {
        lemma_line_rt_candidates_pred(rt.drop_last(), lid, cutoff);
        let c = line_rt_candidates(rt, lid, cutoff);
        let cr = line_rt_candidates(rt.drop_last(), lid, cutoff);
        assert forall|k: int| 0 <= k < c.len() implies rt_matches_line(
            #[trigger] c[k],
            lid,
            cutoff,
        ) by {
            if rt_matches_line(rt.last(), lid, cutoff) {
                if k < cr.len() {
                    assert(c[k] == cr[k]);
                } else {
                    assert(c[k] == rt.last());
                }
            } else {
                assert(c[k] == cr[k]);
            }
        }
    }
}

/// A line meeting [`built_line_ok`] meets its clock-independent part.
proof fn lemma_built_line_steady(
    l: crate::model::Line,
    m: LineMeta,
    alerts: Seq<AlertInfo>,
    rt: Seq<RealTimeInfo>,
    routes: Seq<(String, String)>,
    route_to_shapes: Seq<(String, Vec<String>)>,
    cutoff: int,
)
    requires
        built_line_ok(l, m, alerts, rt, routes, route_to_shapes, cutoff),
    ensures
        built_line_steady_ok(l, m, alerts, routes, route_to_shapes),
{
    let lid = line_id_view(m.line_ref@);
    lemma_line_rt_candidates_pred(rt, lid, cutoff);
    lemma_multiset_preserves_pred(
        line_rt_candidates(rt, lid, cutoff),
        l.real_time@,
        |x: RealTimeInfo| rt_matches_line(x, lid, cutoff),
    );
}

/// Collects the live entries belonging to a line; see
/// [`line_rt_candidates`].
fn filter_line_rt(rt: &Vec<RealTimeInfo>, lid: &str, cutoff: i64) -> (r: Vec<RealTimeInfo>)
    ensures
        r@ == line_rt_candidates(rt@, lid@, cutoff as int),
{
    let mut out: Vec<RealTimeInfo> = Vec::new();
    let mut i: usize = 0;
    while i < rt.len()
        invariant
            0 <= i <= rt@.len(),
            out@ == line_rt_candidates(rt@.take(i as int), lid@, cutoff as int),
        decreases rt@.len() - i,
    {
        proof {
            assert(rt@.take(i as int + 1).drop_last() =~= rt@.take(i as int));
            assert(rt@.take(i as int + 1).last() == rt@[i as int]);
        }
        let route_match = match &rt[i].route_id {
            Some(s) => str_eq(s.as_str(), lid),
            None => false,
        };
        if route_match {
            let fresh = match rt[i].timestamp {
                Some(t) => t >= cutoff,
                None => true,
            };
            if fresh {
                out.push(rt[i].duplicate());
            }
        }
        i = i + 1;
    }
    proof {
        assert(rt@.take(rt@.len() as int) =~= rt@);
    }
    out
}

/// Whether a vector of strings holds one with the given view.
fn contains_str(v: &Vec<String>, x: &str) -> (r: bool)
    ensures
        r == crate::sortutil::contains_string_view(v@, x@),
{
    let mut j: usize = 0;
    let mut hit = false;
    while j < v.len() && !hit
        invariant
            0 <= j <= v@.len(),
            hit ==> crate::sortutil::contains_string_view(v@, x@),
            !hit ==> forall|a: int| 0 <= a < j ==> (#[trigger] v@[a])@ != x@,
        decreases v@.len() - j,
    {
        if str_eq(v[j].as_str(), x) {
            hit = true;
        }
        j = j + 1;
    }
    hit
}

/// Collects the alerts naming a line; see [`line_alerts_for`].
#[verifier::loop_isolation(false)]
fn filter_line_alerts(alerts: &Vec<AlertInfo>, code: &str, lid: &str) -> (r: Vec<AlertInfo>)
    ensures
        view_alerts(r@) == line_alerts_for(alerts@, code@, lid@),
{
    let mut out: Vec<AlertInfo> = Vec::new();
    let mut i: usize = 0;
    while i < alerts.len()
        invariant
            0 <= i <= alerts@.len(),
            view_alerts(out@) == line_alerts_for(alerts@.take(i as int), code@, lid@),
        decreases alerts@.len() - i,
    {
        proof {
            assert(alerts@.take(i as int + 1).drop_last() =~= alerts@.take(i as int));
            assert(alerts@.take(i as int + 1).last() == alerts@[i as int]);
        }
        let hit = contains_str(&alerts[i].route_ids, code) || contains_str(
            &alerts[i].route_ids,
            lid,
        );
        if hit {
            out.push(alerts[i].duplicate());
        }
        proof {
            assert(view_alerts(out@) =~= line_alerts_for(
                alerts@.take(i as int + 1),
                code@,
                lid@,
            ));
        }
        i = i + 1;
    }
    proof {
        assert(alerts@.take(alerts@.len() as int) =~= alerts@);
    }
    out
}

impl NVTModels {
    /// Builds the fused lines for the urban metadata at the evaluation
    /// instant `now`; see [`built_line_ok`].
    #[verifier::loop_isolation(false)]
    pub fn build_lines_at(
        lines_data: Vec<LineMeta>,
        alerts: &Vec<AlertInfo>,
        real_time: &Vec<RealTimeInfo>,
        routes: &Vec<(String, String)>,
        route_to_shapes: &Vec<(String, Vec<String>)>,
        now: i64,
    ) -> (r: Vec<crate::model::Line>)
        requires
            now >= i64::MIN + 120,
        ensures
            r@.len() == lines_data@.len(),
            forall|i: int| 0 <= i < r@.len() ==> built_line_ok(
                #[trigger] r@[i],
                lines_data@[i],
                alerts@,
                real_time@,
                routes@,
                route_to_shapes@,
                now - rt_grace_period(),
            ),
    {
        let cutoff: i64 = now - 120;
        let mut out: Vec<crate::model::Line> = Vec::new();
        let mut rest = lines_data;
        let ghost metas0 = rest@;
        while rest.len() > 0
            invariant
                out@.len() + rest@.len() == metas0.len(),
                rest@ == metas0.skip(out@.len() as int),
                forall|i: int| 0 <= i < out@.len() ==> built_line_ok(
                    #[trigger] out@[i],
                    metas0[i],
                    alerts@,
                    real_time@,
                    routes@,
                    route_to_shapes@,
                    cutoff as int,
                ),
            decreases rest@.len(),
        {
            let ghost idx = out@.len() as int;
            let m = rest.remove(0);
            proof {
                assert(rest@ =~= metas0.skip(idx + 1));
                assert(m == metas0[idx]);
            }
            let line_id: String = match Self::extract_line_id(m.line_ref.as_str()) {
                Some(s) => s.to_owned(),
                None => String::new(),
            };
            proof {
                assert(line_id@ == line_id_view(m.line_ref@));
            }
            let color: String = match crate::tables::assoc_get(routes, line_id.as_str()) {
                Some(c) => c.clone(),
                None => {
                    let gray = String::from_str("808080");
                    gray
                },
            };
            let shape_ids: Vec<String> = match crate::tables::assoc_get(
                route_to_shapes,
                line_id.as_str(),
            ) {
                Some(v) => crate::model::dup_strings(v),
                None => Vec::new(),
            };
            let line_alerts = filter_line_alerts(alerts, m.line_code.as_str(), line_id.as_str());
            let cand = filter_line_rt(real_time, line_id.as_str(), cutoff);
            let ghost cand0 = cand@;
            let line_rt = sort_vec(cand);
            let line = crate::model::Line {
                line_ref: m.line_ref,
                line_name: m.line_name,
                line_code: m.line_code,
                route_id: line_id,
                destinations: m.destinations,
                alerts: line_alerts,
                real_time: line_rt,
                color,
                shape_ids,
                operator: String::from_str("TBM"),
            };
            proof {
                assert(built_line_ok(
                    line,
                    metas0[idx],
                    alerts@,
                    real_time@,
                    routes@,
                    route_to_shapes@,
                    cutoff as int,
                ));
            }
            out.push(line);
        }
        proof {
            assert(metas0.skip(metas0.len() as int) =~= Seq::<LineMeta>::empty());
        }
        out
    }

    /// Builds the fused lines at the present instant. Identity, the
    /// canonical route id, color, shape ids, alert matching and the
    /// real-time list's shape hold whatever the clock read; some reading
    /// also pins the real-time list exactly. [`Self::build_lines_at`]
    /// carries the exact per-instant contract.
    pub fn build_lines(
        lines_data: Vec<LineMeta>,
        alerts: &Vec<AlertInfo>,
        real_time: &Vec<RealTimeInfo>,
        routes: &Vec<(String, String)>,
        route_to_shapes: &Vec<(String, Vec<String>)>,
    ) -> (r: Vec<crate::model::Line>)
        ensures
            r@.len() == lines_data@.len(),
            forall|i: int| 0 <= i < r@.len() ==> built_line_steady_ok(
                #[trigger] r@[i],
                lines_data@[i],
                alerts@,
                routes@,
                route_to_shapes@,
            ),
            exists|cutoff: int| #[trigger] built_lines_ok_at(
                r@,
                lines_data@,
                alerts@,
                real_time@,
                routes@,
                route_to_shapes@,
                cutoff,
            ),
    {
        let t = Self::get_current_timestamp();
        let now = if t < i64::MIN + 120 {
            i64::MIN + 120
        } else {
            t
        };
        let r = Self::build_lines_at(lines_data, alerts, real_time, routes, route_to_shapes, now);
        proof {
            assert(built_lines_ok_at(
                r@,
                lines_data@,
                alerts@,
                real_time@,
                routes@,
                route_to_shapes@,
                now - rt_grace_period(),
            ));
            assert forall|i: int| 0 <= i < r@.len() implies built_line_steady_ok(
                #[trigger] r@[i],
                lines_data@[i],
                alerts@,
                routes@,
                route_to_shapes@,
            ) by {
                lemma_built_line_steady(
                    r@[i],
                    lines_data@[i],
                    alerts@,
                    real_time@,
                    routes@,
                    route_to_shapes@,
                    now - rt_grace_period(),
                );
            }
        }
        r
    }
}

// ===========================================================================
// Stops and lines derived from a per-operator cache: the cached flat stop
// list joined with the stop-times and trips tables, and the cached route
// table resolved against the agency tables.
// ===========================================================================

/// Whether some stop-time row at the stop belongs to a trip of this route:
/// the join that determines which routes serve a stop.
pub open spec fn serves(
    stop_times: Seq<(String, Vec<StopTime>)>,
    trips: Seq<crate::model::Trip>,
    sid: Seq<char>,
    rid: Seq<char>,
) -> bool {
    exists|g: int, j: int|
        0 <= g < stop_times.len() && 0 <= j < stop_times[g].1@.len() && stop_times[g].0@ == sid
            && (#[trigger] crate::tables::trip_lookup(
            trips,
            stop_times[g].1@[j].trip_id@,
        ) matches Some(t) && t.route_id@ == rid)
}

/// What a stop built from the cached flat stop list satisfies: identity
/// passes through, nothing real-time is attached, and its line set is
/// exactly the distinct routes that serve it.
pub open spec fn cache_stop_ok(
    s: Stop,
    row: (String, String, i64, i64),
    stop_times: Seq<(String, Vec<StopTime>)>,
    trips: Seq<crate::model::Trip>,
) -> bool {
    &&& s.stop_id == row.0
    &&& s.stop_name == row.1
    &&& s.latitude == row.2
    &&& s.longitude == row.3
    &&& s.alerts@.len() == 0
    &&& s.real_time@.len() == 0
    &&& forall|a: int, b: int| 0 <= a < b < s.lines@.len() ==> s.lines@[a]@ != s.lines@[b]@
    &&& forall|k: int| 0 <= k < s.lines@.len() ==> serves(
        stop_times,
        trips,
        row.0@,
        (#[trigger] s.lines@[k])@,
    )
    &&& forall|g: int, j: int|
        0 <= g < stop_times.len() && 0 <= j < stop_times[g].1@.len() && stop_times[g].0@
            == row.0@ && (#[trigger] crate::tables::trip_lookup(
            trips,
            stop_times[g].1@[j].trip_id@,
        )) is Some ==> crate::sortutil::contains_string_view(
            s.lines@,
            crate::tables::trip_lookup(trips, stop_times[g].1@[j].trip_id@).unwrap().route_id@,
        )
}

/// Collects the distinct routes serving a stop, joining the stop-times
/// groups keyed by the stop with the trips table.
#[verifier::loop_isolation(false)]
fn collect_stop_routes(
    stop_times: &Vec<(String, Vec<StopTime>)>,
    trips: &Vec<crate::model::Trip>,
    sid: &str,
) -> (r: Vec<String>)
    ensures
        forall|a: int, b: int| 0 <= a < b < r@.len() ==> r@[a]@ != r@[b]@,
        forall|k: int| 0 <= k < r@.len() ==> serves(stop_times@, trips@, sid@, (#[trigger] r@[k])@),
        forall|g: int, j: int|
            0 <= g < stop_times@.len() && 0 <= j < stop_times@[g].1@.len() && stop_times@[g].0@
                == sid@ && (#[trigger] crate::tables::trip_lookup(
                trips@,
                stop_times@[g].1@[j].trip_id@,
            )) is Some ==> crate::sortutil::contains_string_view(
                r@,
                crate::tables::trip_lookup(
                    trips@,
                    stop_times@[g].1@[j].trip_id@,
                ).unwrap().route_id@,
            ),
{
    let mut out: Vec<String> = Vec::new();
    let mut g: usize = 0;
    while g < stop_times.len()
        invariant
            0 <= g <= stop_times@.len(),
            forall|a: int, b: int| 0 <= a < b < out@.len() ==> out@[a]@ != out@[b]@,
            forall|k: int| 0 <= k < out@.len() ==> serves(
                stop_times@,
                trips@,
                sid@,
                (#[trigger] out@[k])@,
            ),
            forall|g2: int, j: int|
                0 <= g2 < g && 0 <= j < stop_times@[g2].1@.len() && stop_times@[g2].0@ == sid@ && (
                #[trigger] crate::tables::trip_lookup(
                    trips@,
                    stop_times@[g2].1@[j].trip_id@,
                )) is Some ==> crate::sortutil::contains_string_view(
                    out@,
                    crate::tables::trip_lookup(
                        trips@,
                        stop_times@[g2].1@[j].trip_id@,
                    ).unwrap().route_id@,
                ),
        decreases stop_times@.len() - g,
    {
        if str_eq(stop_times[g].0.as_str(), sid) {
            let rows = &stop_times[g].1;
            let mut j: usize = 0;
            while j < rows.len()
                invariant
                    0 <= j <= rows@.len(),
                    forall|a: int, b: int| 0 <= a < b < out@.len() ==> out@[a]@ != out@[b]@,
                    forall|k: int| 0 <= k < out@.len() ==> serves(
                        stop_times@,
                        trips@,
                        sid@,
                        (#[trigger] out@[k])@,
                    ),
                    forall|g2: int, j2: int|
                        0 <= g2 < g && 0 <= j2 < stop_times@[g2].1@.len() && stop_times@[g2].0@
                            == sid@ && (#[trigger] crate::tables::trip_lookup(
                            trips@,
                            stop_times@[g2].1@[j2].trip_id@,
                        )) is Some ==> crate::sortutil::contains_string_view(
                            out@,
                            crate::tables::trip_lookup(
                                trips@,
                                stop_times@[g2].1@[j2].trip_id@,
                            ).unwrap().route_id@,
                        ),
                    forall|j2: int|
                        0 <= j2 < j && (#[trigger] crate::tables::trip_lookup(
                            trips@,
                            rows@[j2].trip_id@,
                        )) is Some ==> crate::sortutil::contains_string_view(
                            out@,
                            crate::tables::trip_lookup(
                                trips@,
                                rows@[j2].trip_id@,
                            ).unwrap().route_id@,
                        ),
                decreases rows@.len() - j,
            {
                let ghost before = out@;
                match crate::tables::find_trip(trips, rows[j].trip_id.as_str()) {
                    Some(t) => {
                        if !contains_str(&out, t.route_id.as_str()) {
                            out.push(t.route_id.clone());
                            proof {
                                assert(serves(stop_times@, trips@, sid@, t.route_id@)) by {
                                    assert(crate::tables::trip_lookup(
                                        trips@,
                                        stop_times@[g as int].1@[j as int].trip_id@,
                                    ) == Some(*t));
                                }
                                assert forall|k: int| 0 <= k < out@.len() implies serves(
                                    stop_times@,
                                    trips@,
                                    sid@,
                                    (#[trigger] out@[k])@,
                                ) by {
                                    if k < before.len() {
                                        assert(out@[k] == before[k]);
                                    } else {
                                        assert(out@[k]@ == t.route_id@);
                                    }
                                }
                                assert(out@[out@.len() - 1]@ == t.route_id@);
                            }
                        }
                        proof {
                            assert(crate::sortutil::contains_string_view(out@, t.route_id@));
                            lemma_contains_view_push_stable(before, out@);
                        }
                    },
                    None => {},
                }
                j = j + 1;
            }
        }
        g = g + 1;
    }
    out
}

/// Membership by view survives when a vector only grew at the end.
proof fn lemma_contains_view_push_stable(before: Seq<String>, after: Seq<String>)
    requires
        before.len() <= after.len(),
        forall|a: int| 0 <= a < before.len() ==> after[a] == before[a],
    ensures
        forall|x: Seq<char>| crate::sortutil::contains_string_view(before, x)
            ==> #[trigger] crate::sortutil::contains_string_view(after, x),
{
    assert forall|x: Seq<char>| crate::sortutil::contains_string_view(before, x)
        implies #[trigger] crate::sortutil::contains_string_view(after, x) by {
        let a = choose|a: int| 0 <= a < before.len() && (#[trigger] before[a])@ == x;
        assert(after[a]@ == x);
    }
}

/// The operator name in force for a route: its agency's name where the
/// route and agency tables resolve it, the fallback label otherwise — or
/// the fallback always, for exports without agency data.
pub open spec fn operator_view_for(
    route_agencies: Seq<(String, String)>,
    agencies: Seq<crate::model::Agency>,
    rid: Seq<char>,
    fallback: Seq<char>,
    use_agency: bool,
) -> Seq<char> {
    if use_agency {
        match crate::tables::assoc_last(route_agencies, rid) {
            Some(aid) => match crate::tables::agency_lookup(agencies, aid@) {
                Some(ag) => ag.agency_name@,
                None => fallback,
            },
            None => fallback,
        }
    } else {
        fallback
    }
}

/// What a line built from one cached route entry satisfies: its reference
/// and canonical id are the route id, its code the id's last colon
/// segment, its color the cached one, its operator resolved from the
/// agency tables, and its name the operator followed by the code.
pub open spec fn cache_line_ok(
    l: crate::model::Line,
    pair: (String, String),
    route_to_shapes: Seq<(String, Vec<String>)>,
    route_agencies: Seq<(String, String)>,
    agencies: Seq<crate::model::Agency>,
    fallback: Seq<char>,
    use_agency: bool,
) -> bool {
    &&& l.line_ref == pair.0
    &&& l.route_id == pair.0
    &&& l.color == pair.1
    &&& l.line_code@ == crate::ids::last_colon_segment(pair.0@)
    &&& l.operator@ == operator_view_for(route_agencies, agencies, pair.0@, fallback, use_agency)
    &&& l.line_name@ == operator_view_for(route_agencies, agencies, pair.0@, fallback, use_agency)
        + " "@ + crate::ids::last_colon_segment(pair.0@)
    &&& match crate::tables::assoc_last(route_to_shapes, pair.0@) {
        Some(v) => l.shape_ids@ == v@,
        None => l.shape_ids@.len() == 0,
    }
    &&& l.destinations@.len() == 0
    &&& l.alerts@.len() == 0
    &&& l.real_time@.len() == 0
}

impl NVTModels {
    /// Builds the bare stops of a per-operator cache: each flat stop row
    /// becomes a stop whose line set holds the distinct routes serving it.
    #[verifier::loop_isolation(false)]
    pub fn build_cache_stops(cache: &crate::cache::GTFSCache) -> (r: Vec<Stop>)
        ensures
            r@.len() == cache.stops@.len(),
            forall|i: int| 0 <= i < r@.len() ==> cache_stop_ok(
                #[trigger] r@[i],
                cache.stops@[i],
                cache.stop_times@,
                cache.trips@,
            ),
    {
        let mut out: Vec<Stop> = Vec::new();
        let mut i: usize = 0;
        while i < cache.stops.len()
            invariant
                0 <= i <= cache.stops@.len(),
                out@.len() == i,
                forall|k: int| 0 <= k < out@.len() ==> cache_stop_ok(
                    #[trigger] out@[k],
                    cache.stops@[k],
                    cache.stop_times@,
                    cache.trips@,
                ),
            decreases cache.stops@.len() - i,
        {
            let row = &cache.stops[i];
            let lines = collect_stop_routes(&cache.stop_times, &cache.trips, row.0.as_str());
            let stop = Stop {
                stop_id: row.0.clone(),
                stop_name: row.1.clone(),
                latitude: row.2,
                longitude: row.3,
                lines,
                alerts: Vec::new(),
                real_time: Vec::new(),
            };
            out.push(stop);
            i = i + 1;
        }
        out
    }

    /// Builds the bare lines of a per-operator cache from its route table;
    /// see [`cache_line_ok`].
    #[verifier::loop_isolation(false)]
    pub fn build_cache_lines(
        cache: &crate::cache::GTFSCache,
        fallback_operator: &str,
        use_agency_names: bool,
    ) -> (r: Vec<crate::model::Line>)
        ensures
            r@.len() == cache.routes@.len(),
            forall|i: int| 0 <= i < r@.len() ==> cache_line_ok(
                #[trigger] r@[i],
                cache.routes@[i],
                cache.route_to_shapes@,
                cache.route_agencies@,
                cache.agencies@,
                fallback_operator@,
                use_agency_names,
            ),
    {
        let mut out: Vec<crate::model::Line> = Vec::new();
        let mut i: usize = 0;
        while i < cache.routes.len()
            invariant
                0 <= i <= cache.routes@.len(),
                out@.len() == i,
                forall|k: int| 0 <= k < out@.len() ==> cache_line_ok(
                    #[trigger] out@[k],
                    cache.routes@[k],
                    cache.route_to_shapes@,
                    cache.route_agencies@,
                    cache.agencies@,
                    fallback_operator@,
                    use_agency_names,
                ),
            decreases cache.routes@.len() - i,
        {
            let pair = &cache.routes[i];
            let operator: String = if use_agency_names {
                match crate::tables::assoc_get(&cache.route_agencies, pair.0.as_str()) {
                    Some(aid) => match crate::tables::find_agency(&cache.agencies, aid.as_str()) {
                        Some(ag) => ag.agency_name.clone(),
                        None => String::from_str(fallback_operator),
                    },
                    None => String::from_str(fallback_operator),
                }
            } else {
                String::from_str(fallback_operator)
            };
            let code = Self::extract_line_code_from_route(pair.0.as_str(), "TBM");
            proof {
                reveal_strlit("TBM");
                assert(code@ == crate::ids::last_colon_segment(pair.0@));
            }
            let name = operator.clone().concat(" ").concat(code.as_str());
            let shape_ids: Vec<String> = match crate::tables::assoc_get(
                &cache.route_to_shapes,
                pair.0.as_str(),
            ) {
                Some(v) => crate::model::dup_strings(v),
                None => Vec::new(),
            };
            let line = crate::model::Line {
                line_ref: pair.0.clone(),
                line_name: name,
                line_code: code,
                route_id: pair.0.clone(),
                destinations: Vec::new(),
                alerts: Vec::new(),
                real_time: Vec::new(),
                color: pair.1.clone(),
                shape_ids,
                operator,
            };
            out.push(line);
            i = i + 1;
        }
        out
    }

    /// Projects the regional cache into its stops and lines, handing the
    /// cache back unchanged: lines resolve their operator from the agency
    /// tables, with the regional label as fallback.
    pub fn parse_transgironde_from_cache(cache: crate::cache::GTFSCache) -> (r: (
        Vec<Stop>,
        Vec<crate::model::Line>,
        crate::cache::GTFSCache,
    ))
        ensures
            r.2 == cache,
            r.0@.len() == cache.stops@.len(),
            forall|i: int| 0 <= i < r.0@.len() ==> cache_stop_ok(
                #[trigger] r.0@[i],
                cache.stops@[i],
                cache.stop_times@,
                cache.trips@,
            ),
            r.1@.len() == cache.routes@.len(),
            forall|i: int| 0 <= i < r.1@.len() ==> cache_line_ok(
                #[trigger] r.1@[i],
                cache.routes@[i],
                cache.route_to_shapes@,
                cache.route_agencies@,
                cache.agencies@,
                "New-Aquitaine"@,
                true,
            ),
    {
        let stops = Self::build_cache_stops(&cache);
        let lines = Self::build_cache_lines(&cache, "New-Aquitaine", true);
        (stops, lines, cache)
    }

    /// Projects the national-rail cache into its stops and lines, handing
    /// the cache back unchanged: every line carries the national-rail
    /// label.
    pub fn parse_sncf_from_cache(cache: crate::cache::GTFSCache) -> (r: (
        Vec<Stop>,
        Vec<crate::model::Line>,
        crate::cache::GTFSCache,
    ))
        ensures
            r.2 == cache,
            r.0@.len() == cache.stops@.len(),
            forall|i: int| 0 <= i < r.0@.len() ==> cache_stop_ok(
                #[trigger] r.0@[i],
                cache.stops@[i],
                cache.stop_times@,
                cache.trips@,
            ),
            r.1@.len() == cache.routes@.len(),
            forall|i: int| 0 <= i < r.1@.len() ==> cache_line_ok(
                #[trigger] r.1@[i],
                cache.routes@[i],
                cache.route_to_shapes@,
                cache.route_agencies@,
                cache.agencies@,
                "SNCF"@,
                false,
            ),
    {
        let stops = Self::build_cache_stops(&cache);
        let lines = Self::build_cache_lines(&cache, "SNCF", false);
        (stops, lines, cache)
    }
}

// ===========================================================================
// The fused network view.
// ===========================================================================

/// What a fused urban stop satisfies relative to its discovery metadata:
/// identity and lines carry over, the attached alerts name it, and its
/// real-time list is well formed under the cutoff.
pub open spec fn network_stop_ok(s: Stop, m: StopMeta, alerts: Seq<AlertInfo>, cutoff: int) -> bool {
    &&& s.stop_id == m.stop_id
    &&& s.stop_name == m.stop_name
    &&& s.latitude == m.latitude
    &&& s.longitude == m.longitude
    &&& s.lines@ == m.lines@
    &&& view_alerts(s.alerts@) == stop_alerts_for(alerts, m.stop_id@)
    &&& stop_rt_ok(s, cutoff)
}

/// What a fused urban line satisfies relative to its discovery metadata;
/// the clauses of [`built_line_ok`] with the destination list compared by
/// its pairs.
pub open spec fn network_line_ok(
    l: crate::model::Line,
    m: LineMeta,
    alerts: Seq<AlertInfo>,
    rt: Seq<RealTimeInfo>,
    routes: Seq<(String, String)>,
    route_to_shapes: Seq<(String, Vec<String>)>,
    cutoff: int,
) -> bool {
    &&& l.line_ref == m.line_ref
    &&& l.line_name == m.line_name
    &&& l.line_code == m.line_code
    &&& l.destinations@ == m.destinations@
    &&& l.route_id@ == line_id_view(m.line_ref@)
    &&& match crate::tables::assoc_last(routes, line_id_view(m.line_ref@)) {
        Some(c) => l.color == c,
        None => l.color@ == "808080"@,
    }
    &&& match crate::tables::assoc_last(route_to_shapes, line_id_view(m.line_ref@)) {
        Some(v) => l.shape_ids@ == v@,
        None => l.shape_ids@.len() == 0,
    }
    &&& view_alerts(l.alerts@) == line_alerts_for(alerts, m.line_code@, line_id_view(m.line_ref@))
    &&& sorted_seq(l.real_time@)
    &&& l.real_time@.to_multiset() == line_rt_candidates(
        rt,
        line_id_view(m.line_ref@),
        cutoff,
    ).to_multiset()
    &&& l.operator@ == "TBM"@
}

/// What a fused urban stop satisfies whatever instant the clock read:
/// [`network_stop_ok`] without the staleness bound.
pub open spec fn network_stop_steady_ok(s: Stop, m: StopMeta, alerts: Seq<AlertInfo>) -> bool {
    &&& s.stop_id == m.stop_id
    &&& s.stop_name == m.stop_name
    &&& s.latitude == m.latitude
    &&& s.longitude == m.longitude
    &&& s.lines@ == m.lines@
    &&& view_alerts(s.alerts@) == stop_alerts_for(alerts, m.stop_id@)
    &&& stop_rt_steady_ok(s)
}

/// What a fused urban line satisfies whatever instant the clock read:
/// [`network_line_ok`] without the staleness bound — the real-time list is
/// sorted and every entry names the line's canonical route id.
pub open spec fn network_line_steady_ok(
    l: crate::model::Line,
    m: LineMeta,
    alerts: Seq<AlertInfo>,
    routes: Seq<(String, String)>,
    route_to_shapes: Seq<(String, Vec<String>)>,
) -> bool {
    &&& l.line_ref == m.line_ref
    &&& l.line_name == m.line_name
    &&& l.line_code == m.line_code
    &&& l.destinations@ == m.destinations@
    &&& l.route_id@ == line_id_view(m.line_ref@)
    &&& match crate::tables::assoc_last(routes, line_id_view(m.line_ref@)) {
        Some(c) => l.color == c,
        None => l.color@ == "808080"@,
    }
    &&& match crate::tables::assoc_last(route_to_shapes, line_id_view(m.line_ref@)) {
        Some(v) => l.shape_ids@ == v@,
        None => l.shape_ids@.len() == 0,
    }
    &&& view_alerts(l.alerts@) == line_alerts_for(alerts, m.line_code@, line_id_view(m.line_ref@))
    &&& sorted_seq(l.real_time@)
    &&& forall|i: int| 0 <= i < l.real_time@.len()
        ==> ((#[trigger] l.real_time@[i]).route_id matches Some(x) && x@ == l.route_id@)
    &&& l.operator@ == "TBM"@
}

/// What the projection of the cache into the fused view satisfies at one
/// cutoff: the urban head rebuilt under the per-instant contracts, the
/// regional and national tails appended unchanged, and the shape tables
/// concatenated.
pub open spec fn network_projection_ok(
    r: crate::model::NetworkData,
    c: crate::cache::CachedNetworkData,
    cutoff: int,
) -> bool {
    &&& r.stops@.len() == c.tbm_stops_metadata@.len() + c.transgironde_stops@.len()
        + c.sncf_stops@.len()
    &&& forall|i: int| 0 <= i < c.tbm_stops_metadata@.len() ==> network_stop_ok(
        #[trigger] r.stops@[i],
        c.tbm_stops_metadata@[i],
        c.alerts@,
        cutoff,
    )
    &&& crate::model::view_stops(
        r.stops@.subrange(
            c.tbm_stops_metadata@.len() as int,
            c.tbm_stops_metadata@.len() + c.transgironde_stops@.len() as int,
        ),
    ) == crate::model::view_stops(c.transgironde_stops@)
    &&& crate::model::view_stops(
        r.stops@.skip(c.tbm_stops_metadata@.len() + c.transgironde_stops@.len() as int),
    ) == crate::model::view_stops(c.sncf_stops@)
    &&& r.lines@.len() == c.tbm_lines_metadata@.len() + c.transgironde_lines@.len()
        + c.sncf_lines@.len()
    &&& forall|i: int| 0 <= i < c.tbm_lines_metadata@.len() ==> network_line_ok(
        #[trigger] r.lines@[i],
        c.tbm_lines_metadata@[i],
        c.alerts@,
        c.real_time@,
        c.tbm_gtfs_cache.routes@,
        c.tbm_gtfs_cache.route_to_shapes@,
        cutoff,
    )
    &&& crate::model::view_lines(
        r.lines@.subrange(
            c.tbm_lines_metadata@.len() as int,
            c.tbm_lines_metadata@.len() + c.transgironde_lines@.len() as int,
        ),
    ) == crate::model::view_lines(c.transgironde_lines@)
    &&& crate::model::view_lines(
        r.lines@.skip(c.tbm_lines_metadata@.len() + c.transgironde_lines@.len() as int),
    ) == crate::model::view_lines(c.sncf_lines@)
    &&& crate::model::view_shapes(r.shapes@) == crate::model::view_shapes(
        c.tbm_gtfs_cache.shapes@,
    ) + crate::model::view_shapes(c.transgironde_gtfs_cache.shapes@)
        + crate::model::view_shapes(c.sncf_gtfs_cache.shapes@)
}

/// Whether the fused view's urban head satisfies the per-instant stop and
/// line contracts for one cutoff.
pub open spec fn network_head_ok_at(
    r: crate::model::NetworkData,
    c: crate::cache::CachedNetworkData,
    cutoff: int,
) -> bool {
    &&& forall|i: int| 0 <= i < c.tbm_stops_metadata@.len() ==> network_stop_ok(
        #[trigger] r.stops@[i],
        c.tbm_stops_metadata@[i],
        c.alerts@,
        cutoff,
    )
    &&& forall|i: int| 0 <= i < c.tbm_lines_metadata@.len() ==> network_line_ok(
        #[trigger] r.lines@[i],
        c.tbm_lines_metadata@[i],
        c.alerts@,
        c.real_time@,
        c.tbm_gtfs_cache.routes@,
        c.tbm_gtfs_cache.route_to_shapes@,
        cutoff,
    )
}

/// A line meeting [`network_line_ok`] meets its clock-independent part.
proof fn lemma_network_line_steady(
    l: crate::model::Line,
    m: LineMeta,
    alerts: Seq<AlertInfo>,
    rt: Seq<RealTimeInfo>,
    routes: Seq<(String, String)>,
    route_to_shapes: Seq<(String, Vec<String>)>,
    cutoff: int,
)
    requires
        network_line_ok(l, m, alerts, rt, routes, route_to_shapes, cutoff),
    ensures
        network_line_steady_ok(l, m, alerts, routes, route_to_shapes),
{
    let lid = line_id_view(m.line_ref@);
    lemma_line_rt_candidates_pred(rt, lid, cutoff);
    lemma_multiset_preserves_pred(
        line_rt_candidates(rt, lid, cutoff),
        l.real_time@,
        |x: RealTimeInfo| rt_matches_line(x, lid, cutoff),
    );
}

impl crate::cache::CachedNetworkData {
    /// Projects the cache into one fused network view at the evaluation
    /// instant `now`: the urban stops and lines are rebuilt from the
    /// discovery metadata with alerts and real-time entries attached, the
    /// regional and national snapshots are appended unchanged, and the
    /// shape tables are concatenated.
    #[verifier::loop_isolation(false)]
    pub fn to_network_data_at(&self, now: i64) -> (r: crate::model::NetworkData)
        requires
            now >= i64::MIN + 120,
        ensures
            r.stops@.len() == self.tbm_stops_metadata@.len() + self.transgironde_stops@.len()
                + self.sncf_stops@.len(),
            forall|i: int| 0 <= i < self.tbm_stops_metadata@.len() ==> network_stop_ok(
                #[trigger] r.stops@[i],
                self.tbm_stops_metadata@[i],
                self.alerts@,
                now - rt_grace_period(),
            ),
            crate::model::view_stops(
                r.stops@.subrange(
                    self.tbm_stops_metadata@.len() as int,
                    self.tbm_stops_metadata@.len() + self.transgironde_stops@.len() as int,
                ),
            ) == crate::model::view_stops(self.transgironde_stops@),
            crate::model::view_stops(
                r.stops@.skip(
                    self.tbm_stops_metadata@.len() + self.transgironde_stops@.len() as int,
                ),
            ) == crate::model::view_stops(self.sncf_stops@),
            r.lines@.len() == self.tbm_lines_metadata@.len() + self.transgironde_lines@.len()
                + self.sncf_lines@.len(),
            forall|i: int| 0 <= i < self.tbm_lines_metadata@.len() ==> network_line_ok(
                #[trigger] r.lines@[i],
                self.tbm_lines_metadata@[i],
                self.alerts@,
                self.real_time@,
                self.tbm_gtfs_cache.routes@,
                self.tbm_gtfs_cache.route_to_shapes@,
                now - rt_grace_period(),
            ),
            crate::model::view_lines(
                r.lines@.subrange(
                    self.tbm_lines_metadata@.len() as int,
                    self.tbm_lines_metadata@.len() + self.transgironde_lines@.len() as int,
                ),
            ) == crate::model::view_lines(self.transgironde_lines@),
            crate::model::view_lines(
                r.lines@.skip(
                    self.tbm_lines_metadata@.len() + self.transgironde_lines@.len() as int,
                ),
            ) == crate::model::view_lines(self.sncf_lines@),
            crate::model::view_shapes(r.shapes@) == crate::model::view_shapes(
                self.tbm_gtfs_cache.shapes@,
            ) + crate::model::view_shapes(self.transgironde_gtfs_cache.shapes@)
                + crate::model::view_shapes(self.sncf_gtfs_cache.shapes@),
            network_projection_ok(r, *self, now - rt_grace_period()),
    {
        let metas = crate::model::dup_stop_metas(&self.tbm_stops_metadata);
        let ghost metas0 = metas@;
        let mut stops = NVTModels::build_stops_at(
            metas,
            &self.alerts,
            &self.real_time,
            &self.trip_updates,
            &self.tbm_lines_metadata,
            now,
        );
        let ghost tbm_built = stops@;
        let mut tg_stops = crate::model::dup_stops(&self.transgironde_stops);
        let ghost tg0 = tg_stops@;
        stops.append(&mut tg_stops);
        let mut sn_stops = crate::model::dup_stops(&self.sncf_stops);
        let ghost sn0 = sn_stops@;
        stops.append(&mut sn_stops);
        proof {
            assert(stops@.subrange(
                self.tbm_stops_metadata@.len() as int,
                self.tbm_stops_metadata@.len() + self.transgironde_stops@.len() as int,
            ) =~= tg0);
            assert(stops@.skip(self.tbm_stops_metadata@.len() + self.transgironde_stops@.len() as int)
                =~= sn0);
            assert forall|i: int| 0 <= i < self.tbm_stops_metadata@.len() implies network_stop_ok(
                #[trigger] stops@[i],
                self.tbm_stops_metadata@[i],
                self.alerts@,
                now - rt_grace_period(),
            ) by {
                assert(stops@[i] == tbm_built[i]);
                assert(built_stop_ok(
                    tbm_built[i],
                    metas0[i],
                    self.alerts@,
                    self.real_time@,
                    self.trip_updates@,
                    self.tbm_lines_metadata@,
                    now - rt_grace_period(),
                ));
            }
        }
        let lmetas = crate::model::dup_line_metas(&self.tbm_lines_metadata);
        let ghost lmetas0 = lmetas@;
        let mut lines = NVTModels::build_lines_at(
            lmetas,
            &self.alerts,
            &self.real_time,
            &self.tbm_gtfs_cache.routes,
            &self.tbm_gtfs_cache.route_to_shapes,
            now,
        );
        let ghost tbm_lines_built = lines@;
        let mut tg_lines = crate::model::dup_lines(&self.transgironde_lines);
        let ghost tgl0 = tg_lines@;
        lines.append(&mut tg_lines);
        let mut sn_lines = crate::model::dup_lines(&self.sncf_lines);
        let ghost snl0 = sn_lines@;
        lines.append(&mut sn_lines);
        proof {
            assert(lines@.subrange(
                self.tbm_lines_metadata@.len() as int,
                self.tbm_lines_metadata@.len() + self.transgironde_lines@.len() as int,
            ) =~= tgl0);
            assert(lines@.skip(self.tbm_lines_metadata@.len() + self.transgironde_lines@.len() as int)
                =~= snl0);
            assert forall|i: int| 0 <= i < self.tbm_lines_metadata@.len() implies network_line_ok(
                #[trigger] lines@[i],
                self.tbm_lines_metadata@[i],
                self.alerts@,
                self.real_time@,
                self.tbm_gtfs_cache.routes@,
                self.tbm_gtfs_cache.route_to_shapes@,
                now - rt_grace_period(),
            ) by {
                assert(lines@[i] == tbm_lines_built[i]);
                assert(built_line_ok(
                    tbm_lines_built[i],
                    lmetas0[i],
                    self.alerts@,
                    self.real_time@,
                    self.tbm_gtfs_cache.routes@,
                    self.tbm_gtfs_cache.route_to_shapes@,
                    now - rt_grace_period(),
                ));
                assert(lmetas0[i].line_ref == self.tbm_lines_metadata@[i].line_ref);
            }
        }
        let mut shapes = crate::model::dup_shape_table(&self.tbm_gtfs_cache.shapes);
        let mut tg_shapes = crate::model::dup_shape_table(&self.transgironde_gtfs_cache.shapes);
        shapes.append(&mut tg_shapes);
        let mut sn_shapes = crate::model::dup_shape_table(&self.sncf_gtfs_cache.shapes);
        shapes.append(&mut sn_shapes);
        proof {
            assert(crate::model::view_shapes(shapes@) =~= crate::model::view_shapes(
                self.tbm_gtfs_cache.shapes@,
            ) + crate::model::view_shapes(self.transgironde_gtfs_cache.shapes@)
                + crate::model::view_shapes(self.sncf_gtfs_cache.shapes@));
        }
        crate::model::NetworkData { stops, lines, shapes }
    }

    /// Projects the cache into the fused network view at the present
    /// instant: the urban head, the unchanged regional and national tails
    /// and the concatenated shape tables hold whatever the clock read; some
    /// reading also bounds the attached entries' staleness.
    /// [`Self::to_network_data_at`] carries the exact per-instant contract.
    pub fn to_network_data(&self) -> (r: crate::model::NetworkData)
        ensures
            r.stops@.len() == self.tbm_stops_metadata@.len() + self.transgironde_stops@.len()
                + self.sncf_stops@.len(),
            forall|i: int| 0 <= i < self.tbm_stops_metadata@.len() ==> network_stop_steady_ok(
                #[trigger] r.stops@[i],
                self.tbm_stops_metadata@[i],
                self.alerts@,
            ),
            crate::model::view_stops(
                r.stops@.subrange(
                    self.tbm_stops_metadata@.len() as int,
                    self.tbm_stops_metadata@.len() + self.transgironde_stops@.len() as int,
                ),
            ) == crate::model::view_stops(self.transgironde_stops@),
            crate::model::view_stops(
                r.stops@.skip(
                    self.tbm_stops_metadata@.len() + self.transgironde_stops@.len() as int,
                ),
            ) == crate::model::view_stops(self.sncf_stops@),
            r.lines@.len() == self.tbm_lines_metadata@.len() + self.transgironde_lines@.len()
                + self.sncf_lines@.len(),
            forall|i: int| 0 <= i < self.tbm_lines_metadata@.len() ==> network_line_steady_ok(
                #[trigger] r.lines@[i],
                self.tbm_lines_metadata@[i],
                self.alerts@,
                self.tbm_gtfs_cache.routes@,
                self.tbm_gtfs_cache.route_to_shapes@,
            ),
            crate::model::view_lines(
                r.lines@.subrange(
                    self.tbm_lines_metadata@.len() as int,
                    self.tbm_lines_metadata@.len() + self.transgironde_lines@.len() as int,
                ),
            ) == crate::model::view_lines(self.transgironde_lines@),
            crate::model::view_lines(
                r.lines@.skip(
                    self.tbm_lines_metadata@.len() + self.transgironde_lines@.len() as int,
                ),
            ) == crate::model::view_lines(self.sncf_lines@),
            crate::model::view_shapes(r.shapes@) == crate::model::view_shapes(
                self.tbm_gtfs_cache.shapes@,
            ) + crate::model::view_shapes(self.transgironde_gtfs_cache.shapes@)
                + crate::model::view_shapes(self.sncf_gtfs_cache.shapes@),
            exists|cutoff: int| #[trigger] network_head_ok_at(r, *self, cutoff),
    {
        let t = NVTModels::get_current_timestamp();
        let now = if t < i64::MIN + 120 {
            i64::MIN + 120
        } else {
            t
        };
        let r = self.to_network_data_at(now);
        proof {
            assert(network_head_ok_at(r, *self, now - rt_grace_period()));
            assert forall|i: int| 0 <= i < self.tbm_lines_metadata@.len()
                implies network_line_steady_ok(
                #[trigger] r.lines@[i],
                self.tbm_lines_metadata@[i],
                self.alerts@,
                self.tbm_gtfs_cache.routes@,
                self.tbm_gtfs_cache.route_to_shapes@,
            ) by {
                lemma_network_line_steady(
                    r.lines@[i],
                    self.tbm_lines_metadata@[i],
                    self.alerts@,
                    self.real_time@,
                    self.tbm_gtfs_cache.routes@,
                    self.tbm_gtfs_cache.route_to_shapes@,
                    now - rt_grace_period(),
                );
            }
        }
        r
    }
}

/// Every vehicle candidate names the stop and passes the cutoff.
proof fn lemma_vehicle_candidates_pred(rt: Seq<RealTimeInfo>, sid: Seq<char>, cutoff: int)
    ensures
        forall|k: int| 0 <= k < vehicle_candidates(rt, sid, cutoff).len()
            ==> vehicle_matches_stop(
            #[trigger] vehicle_candidates(rt, sid, cutoff)[k],
            sid,
            cutoff,
        ),
    decreases rt.len(),
{
    if rt.len() > 0 {
        lemma_vehicle_candidates_pred(rt.drop_last(), sid, cutoff);
        let c = vehicle_candidates(rt, sid, cutoff);
        let cr = vehicle_candidates(rt.drop_last(), sid, cutoff);
        assert forall|k: int| 0 <= k < c.len() implies vehicle_matches_stop(
            #[trigger] c[k],
            sid,
            cutoff,
        ) by {
            if vehicle_matches_stop(rt.last(), sid, cutoff) {
                if k < cr.len() {
                    assert(c[k] == cr[k]);
                } else {
                    assert(c[k] == rt.last());
                }
            } else {
                assert(c[k] == cr[k]);
            }
        }
    }
}

} // verus!
