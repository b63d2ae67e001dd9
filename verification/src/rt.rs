//! Real-time decoder back end: shapes decoded GTFS-Realtime feed entities
//! into the engine's alert, vehicle-position and trip-update records.
//! Absent texts fall back to fixed placeholders, as the feeds allow every
//! field to be omitted.

use vstd::prelude::*;

use crate::model::{
    AlertData, AlertInfo, FeedEntityData, InformedEntityData, NVTModels, RealTimeInfo,
    TripUpdateData, view_trip_updates,
};

verus! {

/// The entities of a feed that carry an alert, in order.
pub open spec fn alert_entities(es: Seq<FeedEntityData>) -> Seq<FeedEntityData>
    decreases es.len(),
{
    if es.len() == 0 {
        Seq::empty()
    } else {
        let rest = alert_entities(es.drop_last());
        if es.last().alert is Some {
            rest.push(es.last())
        } else {
            rest
        }
    }
}

/// The entities of a feed that carry a vehicle position, in order.
pub open spec fn vehicle_entities(es: Seq<FeedEntityData>) -> Seq<FeedEntityData>
    decreases es.len(),
{
    if es.len() == 0 {
        Seq::empty()
    } else {
        let rest = vehicle_entities(es.drop_last());
        if es.last().vehicle is Some {
            rest.push(es.last())
        } else {
            rest
        }
    }
}

/// The trip updates of a feed, in order.
pub open spec fn tu_entities(es: Seq<FeedEntityData>) -> Seq<TripUpdateData>
    decreases es.len(),
{
    if es.len() == 0 {
        Seq::empty()
    } else {
        let rest = tu_entities(es.drop_last());
        match es.last().trip_update {
            Some(tu) => rest.push(tu),
            None => rest,
        }
    }
}

/// The informed route ids of an alert, in order.
pub open spec fn informed_routes(informed: Seq<InformedEntityData>) -> Seq<String>
    decreases informed.len(),
{
    if informed.len() == 0 {
        Seq::empty()
    } else {
        let rest = informed_routes(informed.drop_last());
        match informed.last().route_id {
            Some(rid) => rest.push(rid),
            None => rest,
        }
    }
}

/// The informed stop ids of an alert, in order.
pub open spec fn informed_stops(informed: Seq<InformedEntityData>) -> Seq<String>
    decreases informed.len(),
{
    if informed.len() == 0 {
        Seq::empty()
    } else {
        let rest = informed_stops(informed.drop_last());
        match informed.last().stop_id {
            Some(sid) => rest.push(sid),
            None => rest,
        }
    }
}

/// What the flattened alert of an entity satisfies: the entity's id, the
/// first translations with placeholders, the informed routes and stops in
/// order, the first active period, and the severity with a zero default.
pub open spec fn alert_flat_ok(e: FeedEntityData, out: AlertInfo) -> bool {
    &&& e.alert is Some
    &&& {
        let a = e.alert.unwrap();
        &&& out.id == e.id
        &&& out.text@ == if a.header_texts@.len() > 0 {
            a.header_texts@[0]@
        } else {
            "No title"@
        }
        &&& out.description@ == if a.description_texts@.len() > 0 {
            a.description_texts@[0]@
        } else {
            "No description available"@
        }
        &&& (match out.url {
            Some(u) => a.url_texts@.len() > 0 && u@ == a.url_texts@[0]@,
            None => a.url_texts@.len() == 0,
        })
        &&& out.route_ids@ == informed_routes(a.informed@)
        &&& out.stop_ids@ == informed_stops(a.informed@)
        &&& out.active_period_start == (if a.periods@.len() > 0 {
            a.periods@[0].start
        } else {
            None
        })
        &&& out.active_period_end == (if a.periods@.len() > 0 {
            a.periods@[0].end
        } else {
            None
        })
        &&& out.severity == (match a.severity {
            Some(s) => s,
            None => 0u32,
        })
    }
}

/// What the flattened vehicle entry of an entity satisfies: missing
/// identifiers fall back to a placeholder, a missing position reads as the
/// zero coordinate, and the label becomes the destination.
pub open spec fn vehicle_flat_ok(e: FeedEntityData, out: RealTimeInfo) -> bool {
    &&& e.vehicle is Some
    &&& {
        let v = e.vehicle.unwrap();
        &&& out.vehicle_id@ == (match v.vehicle_id {
            Some(s) => s@,
            None => "Unknown"@,
        })
        &&& out.trip_id@ == (match v.trip_id {
            Some(s) => s@,
            None => "Unknown"@,
        })
        &&& out.route_id == v.route_id
        &&& out.direction_id == v.direction_id
        &&& out.destination == v.label
        &&& out.latitude == (match v.latitude {
            Some(x) => x,
            None => 0i64,
        })
        &&& out.longitude == (match v.longitude {
            Some(x) => x,
            None => 0i64,
        })
        &&& out.stop_id == v.stop_id
        &&& out.current_stop_sequence == v.current_stop_sequence
        &&& out.timestamp == v.timestamp
        &&& out.delay is None
    }
}

/// Copies one informed-id column into a vector.
#[verifier::loop_isolation(false)]
fn collect_informed(informed: &Vec<InformedEntityData>, stops: bool) -> (r: Vec<String>)
    ensures
        stops ==> r@ == informed_stops(informed@),
        !stops ==> r@ == informed_routes(informed@),
{
    let mut out: Vec<String> = Vec::new();
    let mut i: usize = 0;
    while i < informed.len()
        invariant
            0 <= i <= informed@.len(),
            stops ==> out@ == informed_stops(informed@.take(i as int)),
            !stops ==> out@ == informed_routes(informed@.take(i as int)),
        decreases informed@.len() - i,
    {
        proof {
            assert(informed@.take(i as int + 1).drop_last() =~= informed@.take(i as int));
            assert(informed@.take(i as int + 1).last() == informed@[i as int]);
        }
        if stops {
            match &informed[i].stop_id {
                Some(sid) => {
                    out.push(sid.clone());
                },
                None => {},
            }
        } else {
            match &informed[i].route_id {
                Some(rid) => {
                    out.push(rid.clone());
                },
                None => {},
            }
        }
        i = i + 1;
    }
    proof {
        assert(informed@.take(informed@.len() as int) =~= informed@);
    }
    out
}

impl NVTModels {
    /// Flattens a decoded feed's alert entities into alert records; one per
    /// entity carrying an alert, in feed order.
    #[verifier::loop_isolation(false)]
    pub fn alerts_from_feed(entities: &Vec<FeedEntityData>) -> (r: Vec<AlertInfo>)
        ensures
            r@.len() == alert_entities(entities@).len(),
            forall|k: int| 0 <= k < r@.len() ==> alert_flat_ok(
                alert_entities(entities@)[k],
                #[trigger] r@[k],
            ),
    {
        let mut out: Vec<AlertInfo> = Vec::new();
        let mut i: usize = 0;
        while i < entities.len()
            invariant
                0 <= i <= entities@.len(),
                out@.len() == alert_entities(entities@.take(i as int)).len(),
                forall|k: int| 0 <= k < out@.len() ==> alert_flat_ok(
                    alert_entities(entities@.take(i as int))[k],
                    #[trigger] out@[k],
                ),
            decreases entities@.len() - i,
        {
            proof {
                assert(entities@.take(i as int + 1).drop_last() =~= entities@.take(i as int));
                assert(entities@.take(i as int + 1).last() == entities@[i as int]);
            }
            let e = &entities[i];
            match &e.alert {
                Some(a) => {
                    let text: String = if a.header_texts.len() > 0 {
                        a.header_texts[0].clone()
                    } else {
                        String::from_str("No title")
                    };
                    let description: String = if a.description_texts.len() > 0 {
                        a.description_texts[0].clone()
                    } else {
                        String::from_str("No description available")
                    };
                    let url: Option<String> = if a.url_texts.len() > 0 {
                        Some(a.url_texts[0].clone())
                    } else {
                        None
                    };
                    let (start, end) = if a.periods.len() > 0 {
                        (a.periods[0].start, a.periods[0].end)
                    } else {
                        (None, None)
                    };
                    let severity = match a.severity {
                        Some(s) => s,
                        None => 0,
                    };
                    let alert = AlertInfo {
                        id: e.id.clone(),
                        text,
                        description,
                        url,
                        route_ids: collect_informed(&a.informed, false),
                        stop_ids: collect_informed(&a.informed, true),
                        active_period_start: start,
                        active_period_end: end,
                        severity,
                    };
                    proof {
                        assert(alert_flat_ok(entities@[i as int], alert));
                    }
                    out.push(alert);
                },
                None => {},
            }
            i = i + 1;
        }
        proof {
            assert(entities@.take(entities@.len() as int) =~= entities@);
        }
        out
    }

    /// Flattens a decoded feed's vehicle entities into real-time records;
    /// one per entity carrying a vehicle position, in feed order.
    #[verifier::loop_isolation(false)]
    pub fn vehicles_from_feed(entities: &Vec<FeedEntityData>) -> (r: Vec<RealTimeInfo>)
        ensures
            r@.len() == vehicle_entities(entities@).len(),
            forall|k: int| 0 <= k < r@.len() ==> vehicle_flat_ok(
                vehicle_entities(entities@)[k],
                #[trigger] r@[k],
            ),
    {
        let mut out: Vec<RealTimeInfo> = Vec::new();
        let mut i: usize = 0;
        while i < entities.len()
            invariant
                0 <= i <= entities@.len(),
                out@.len() == vehicle_entities(entities@.take(i as int)).len(),
                forall|k: int| 0 <= k < out@.len() ==> vehicle_flat_ok(
                    vehicle_entities(entities@.take(i as int))[k],
                    #[trigger] out@[k],
                ),
            decreases entities@.len() - i,
        {
            proof {
                assert(entities@.take(i as int + 1).drop_last() =~= entities@.take(i as int));
                assert(entities@.take(i as int + 1).last() == entities@[i as int]);
            }
            let e = &entities[i];
            match &e.vehicle {
                Some(v) => {
                    let entry = RealTimeInfo {
                        vehicle_id: match &v.vehicle_id {
                            Some(s) => s.clone(),
                            None => String::from_str("Unknown"),
                        },
                        trip_id: match &v.trip_id {
                            Some(s) => s.clone(),
                            None => String::from_str("Unknown"),
                        },
                        route_id: crate::model::dup_opt_string(&v.route_id),
                        direction_id: v.direction_id,
                        destination: crate::model::dup_opt_string(&v.label),
                        latitude: match v.latitude {
                            Some(x) => x,
                            None => 0,
                        },
                        longitude: match v.longitude {
                            Some(x) => x,
                            None => 0,
                        },
                        stop_id: crate::model::dup_opt_string(&v.stop_id),
                        current_stop_sequence: v.current_stop_sequence,
                        timestamp: v.timestamp,
                        delay: None,
                    };
                    proof {
                        assert(vehicle_flat_ok(entities@[i as int], entry));
                    }
                    out.push(entry);
                },
                None => {},
            }
            i = i + 1;
        }
        proof {
            assert(entities@.take(entities@.len() as int) =~= entities@);
        }
        out
    }

    /// Collects a decoded feed's trip updates, in feed order.
    #[verifier::loop_isolation(false)]
    pub fn trip_updates_from_feed(entities: &Vec<FeedEntityData>) -> (r: Vec<TripUpdateData>)
        ensures
            view_trip_updates(r@) == view_trip_updates(tu_entities(entities@)),
    {
        let mut out: Vec<TripUpdateData> = Vec::new();
        let mut i: usize = 0;
        while i < entities.len()
            invariant
                0 <= i <= entities@.len(),
                view_trip_updates(out@) == view_trip_updates(
                    tu_entities(entities@.take(i as int)),
                ),
            decreases entities@.len() - i,
        {
            proof {
                assert(entities@.take(i as int + 1).drop_last() =~= entities@.take(i as int));
                assert(entities@.take(i as int + 1).last() == entities@[i as int]);
            }
            let e = &entities[i];
            match &e.trip_update {
                Some(tu) => {
                    let copy = TripUpdateData {
                        trip_id: crate::model::dup_opt_string(&tu.trip_id),
                        route_id: crate::model::dup_opt_string(&tu.route_id),
                        direction_id: tu.direction_id,
                        stop_time_updates: dup_stus(&tu.stop_time_updates),
                    };
                    proof {
                        assert(copy@ == tu@);
                    }
                    let ghost before = out@;
                    let ghost copy0 = copy;
                    out.push(copy);
                    proof {
                        assert(out@ =~= before.push(copy0));
                        assert(view_trip_updates(out@) =~= view_trip_updates(before).push(copy0@));
                        assert(tu_entities(entities@.take(i as int + 1)) == tu_entities(
                            entities@.take(i as int),
                        ).push(entities@[i as int].trip_update.unwrap()));
                        assert(view_trip_updates(tu_entities(entities@.take(i as int + 1)))
                            =~= view_trip_updates(tu_entities(entities@.take(i as int))).push(
                            entities@[i as int].trip_update.unwrap()@,
                        ));
                        assert(view_trip_updates(out@) =~= view_trip_updates(
                            tu_entities(entities@.take(i as int + 1)),
                        ));
                    }
                },
                None => {
                    proof {
                        assert(view_trip_updates(out@) =~= view_trip_updates(
                            tu_entities(entities@.take(i as int + 1)),
                        ));
                    }
                },
            }
            i = i + 1;
        }
        proof {
            assert(entities@.take(entities@.len() as int) =~= entities@);
        }
        out
    }
}

/// Copies a vector of stop-time entries; the result holds the same entries.
fn dup_stus(v: &Vec<crate::model::StopTimeUpdateData>) -> (r: Vec<
    crate::model::StopTimeUpdateData,
>)
    ensures
        r@ == v@,
{
    let mut out: Vec<crate::model::StopTimeUpdateData> = Vec::new();
    let mut i: usize = 0;
    while i < v.len()
        invariant
            0 <= i <= v@.len(),
            out@ =~= v@.take(i as int),
        decreases v@.len() - i,
    {
        let s = &v[i];
        out.push(
            crate::model::StopTimeUpdateData {
                stop_id: crate::model::dup_opt_string(&s.stop_id),
                arrival_delay: s.arrival_delay,
                arrival_time: s.arrival_time,
                departure_delay: s.departure_delay,
                departure_time: s.departure_time,
            },
        );
        i = i + 1;
    }
    proof {
        assert(v@.take(v@.len() as int) =~= v@);
    }
    out
}

} // verus!
