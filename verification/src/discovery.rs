//! Discovery client back end: flattens the urban operator's stop-point and
//! line discovery records into metadata tuples. Either flattening fails the
//! whole ingestion when zero valid records come out — the signal of a
//! schema change that must not silently produce an empty network.

use vstd::prelude::*;

use crate::ids::extract_stop_id_spec;
use crate::model::{LineMeta, LineRecord, NVTError, NVTModels, StopMeta, StopPointRecord};

verus! {

/// The stop-point records carrying every required field, in order.
pub open spec fn valid_stop_points(rs: Seq<StopPointRecord>) -> Seq<StopPointRecord>
    decreases rs.len(),
{
    if rs.len() == 0 {
        Seq::empty()
    } else {
        let rest = valid_stop_points(rs.drop_last());
        if rs.last().stop_ref is Some && rs.last().stop_name is Some && rs.last().latitude
            is Some && rs.last().longitude is Some {
            rest.push(rs.last())
        } else {
            rest
        }
    }
}

/// What the metadata flattened from a valid stop-point record satisfies:
/// the id is the canonical stop id of the raw reference, and name,
/// position and lines carry over.
pub open spec fn stop_meta_ok(rec: StopPointRecord, m: StopMeta) -> bool {
    &&& m.stop_id@ == extract_stop_id_spec(rec.stop_ref.unwrap()@)
    &&& m.stop_name == rec.stop_name.unwrap()
    &&& m.latitude == rec.latitude.unwrap()
    &&& m.longitude == rec.longitude.unwrap()
    &&& m.lines@ == rec.lines@
}

/// The line records carrying every required field, in order.
pub open spec fn valid_line_records(rs: Seq<LineRecord>) -> Seq<LineRecord>
    decreases rs.len(),
{
    if rs.len() == 0 {
        Seq::empty()
    } else {
        let rest = valid_line_records(rs.drop_last());
        if rs.last().line_ref is Some && rs.last().line_name is Some && rs.last().line_code
            is Some {
            rest.push(rs.last())
        } else {
            rest
        }
    }
}

/// The destination pairs of a line record whose direction and place are
/// both present, in order.
pub open spec fn valid_destinations(ds: Seq<(Option<String>, Option<String>)>) -> Seq<
    (String, String),
>
    decreases ds.len(),
{
    if ds.len() == 0 {
        Seq::empty()
    } else {
        let rest = valid_destinations(ds.drop_last());
        if ds.last().0 is Some && ds.last().1 is Some {
            rest.push((ds.last().0.unwrap(), ds.last().1.unwrap()))
        } else {
            rest
        }
    }
}

/// What the metadata flattened from a valid line record satisfies.
pub open spec fn line_meta_ok(rec: LineRecord, m: LineMeta) -> bool {
    &&& m.line_ref == rec.line_ref.unwrap()
    &&& m.line_name == rec.line_name.unwrap()
    &&& m.line_code == rec.line_code.unwrap()
    &&& m.destinations@ == valid_destinations(rec.destinations@)
}

impl NVTModels {
    /// Flattens the stop-discovery records into stop metadata, skipping
    /// records missing a field; zero valid records fail the ingestion with
    /// a parse error.
    #[verifier::loop_isolation(false)]
    pub fn flatten_stop_points(records: &Vec<StopPointRecord>) -> (r: Result<
        Vec<StopMeta>,
        NVTError,
    >)
        ensures
            r is Ok <==> valid_stop_points(records@).len() > 0,
            r is Err ==> (r matches Err(NVTError::ParseError(_))),
            r is Ok ==> r.unwrap()@.len() == valid_stop_points(records@).len(),
            r is Ok ==> forall|k: int| 0 <= k < r.unwrap()@.len() ==> stop_meta_ok(
                valid_stop_points(records@)[k],
                #[trigger] r.unwrap()@[k],
            ),
    {
        let mut out: Vec<StopMeta> = Vec::new();
        let mut i: usize = 0;
        while i < records.len()
            invariant
                0 <= i <= records@.len(),
                out@.len() == valid_stop_points(records@.take(i as int)).len(),
                forall|k: int| 0 <= k < out@.len() ==> stop_meta_ok(
                    valid_stop_points(records@.take(i as int))[k],
                    #[trigger] out@[k],
                ),
            decreases records@.len() - i,
        {
            proof {
                assert(records@.take(i as int + 1).drop_last() =~= records@.take(i as int));
                assert(records@.take(i as int + 1).last() == records@[i as int]);
            }
            let rec = &records[i];
            match (&rec.stop_ref, &rec.stop_name, rec.latitude, rec.longitude) {
                (Some(stop_ref), Some(name), Some(lat), Some(lon)) => {
                    let sid = match Self::extract_stop_id(stop_ref.as_str()) {
                        Some(s) => s,
                        None => {
                            proof {
                                assert(false);
                            }
                            String::new()
                        },
                    };
                    let m = StopMeta {
                        stop_id: sid,
                        stop_name: name.clone(),
                        latitude: lat,
                        longitude: lon,
                        lines: crate::model::dup_strings(&rec.lines),
                    };
                    proof {
                        assert(stop_meta_ok(records@[i as int], m));
                    }
                    out.push(m);
                },
                _ => {},
            }
            i = i + 1;
        }
        proof {
            assert(records@.take(records@.len() as int) =~= records@);
        }
        if out.len() == 0 {
            Err(NVTError::ParseError(String::from_str("No valid stops found")))
        } else {
            Ok(out)
        }
    }

    /// Flattens the line-discovery records into line metadata, skipping
    /// records missing a field and destination pairs missing a side; zero
    /// valid records fail the ingestion with a parse error.
    #[verifier::loop_isolation(false)]
    pub fn flatten_line_refs(records: &Vec<LineRecord>) -> (r: Result<Vec<LineMeta>, NVTError>)
        ensures
            r is Ok <==> valid_line_records(records@).len() > 0,
            r is Err ==> (r matches Err(NVTError::ParseError(_))),
            r is Ok ==> r.unwrap()@.len() == valid_line_records(records@).len(),
            r is Ok ==> forall|k: int| 0 <= k < r.unwrap()@.len() ==> line_meta_ok(
                valid_line_records(records@)[k],
                #[trigger] r.unwrap()@[k],
            ),
    {
        let mut out: Vec<LineMeta> = Vec::new();
        let mut i: usize = 0;
        while i < records.len()
            invariant
                0 <= i <= records@.len(),
                out@.len() == valid_line_records(records@.take(i as int)).len(),
                forall|k: int| 0 <= k < out@.len() ==> line_meta_ok(
                    valid_line_records(records@.take(i as int))[k],
                    #[trigger] out@[k],
                ),
            decreases records@.len() - i,
        {
            proof {
                assert(records@.take(i as int + 1).drop_last() =~= records@.take(i as int));
                assert(records@.take(i as int + 1).last() == records@[i as int]);
            }
            let rec = &records[i];
            match (&rec.line_ref, &rec.line_name, &rec.line_code) {
                (Some(line_ref), Some(name), Some(code)) => {
                    let dests = collect_destinations(&rec.destinations);
                    let m = LineMeta {
                        line_ref: line_ref.clone(),
                        line_name: name.clone(),
                        line_code: code.clone(),
                        destinations: dests,
                    };
                    proof {
                        assert(line_meta_ok(records@[i as int], m));
                    }
                    out.push(m);
                },
                _ => {},
            }
            i = i + 1;
        }
        proof {
            assert(records@.take(records@.len() as int) =~= records@);
        }
        if out.len() == 0 {
            Err(NVTError::ParseError(String::from_str("No valid lines found")))
        } else {
            Ok(out)
        }
    }
}

/// Collects the destination pairs whose direction and place are both
/// present; see [`valid_destinations`].
#[verifier::loop_isolation(false)]
fn collect_destinations(ds: &Vec<(Option<String>, Option<String>)>) -> (r: Vec<(String, String)>)
    ensures
        r@ == valid_destinations(ds@),
{
    let mut out: Vec<(String, String)> = Vec::new();
    let mut i: usize = 0;
    while i < ds.len()
        invariant
            0 <= i <= ds@.len(),
            out@ == valid_destinations(ds@.take(i as int)),
        decreases ds@.len() - i,
    {
        proof {
            assert(ds@.take(i as int + 1).drop_last() =~= ds@.take(i as int));
            assert(ds@.take(i as int + 1).last() == ds@[i as int]);
        }
        match (&ds[i].0, &ds[i].1) {
            (Some(a), Some(b)) => {
                out.push((a.clone(), b.clone()));
            },
            _ => {},
        }
        i = i + 1;
    }
    proof {
        assert(ds@.take(ds@.len() as int) =~= ds@);
    }
    out
}

} // verus!
