//! Service-calendar evaluation and GTFS time handling: whether a service
//! runs on a given date, and parsing of `HH:MM:SS` times that may exceed
//! 24 hours for trips running past midnight.

use vstd::prelude::*;

use crate::cache::{CachedNetworkData, GTFSCache};
use crate::model::{CalendarDate, NVTModels, ScheduledArrival, ServiceCalendar, StopTime};
use crate::sortutil::SortOrd;
use crate::strutil::{
    all_digits, digits_value, find_char_from, first_index_of, lex_le, parse_u32_digits, str_eq,
    str_le,
};

verus! {

/// The value of a GTFS `HH:MM:SS` time in seconds since midnight: defined
/// when the string has exactly three non-empty all-digit colon-separated
/// fields and the total fits a `u32`. Hour values of 24 and above stand for
/// times past midnight of the service day.
pub open spec fn gtfs_time_spec(s: Seq<char>) -> Option<u32> {
    match first_index_of(s, ':', 0) {
        None => None,
        Some(i1) => match first_index_of(s, ':', i1 + 1) {
            None => None,
            Some(i2) => {
                if first_index_of(s, ':', i2 + 1) is Some {
                    None
                } else {
                    let hp = s.take(i1);
                    let mp = s.subrange(i1 + 1, i2);
                    let sp = s.skip(i2 + 1);
                    if hp.len() > 0 && all_digits(hp) && digits_value(hp) <= u32::MAX && mp.len()
                        > 0 && all_digits(mp) && digits_value(mp) <= u32::MAX && sp.len() > 0
                        && all_digits(sp) && digits_value(sp) <= u32::MAX && digits_value(hp)
                        * 3600 + digits_value(mp) * 60 + digits_value(sp) <= u32::MAX {
                        Some(
                            (digits_value(hp) * 3600 + digits_value(mp) * 60 + digits_value(
                                sp,
                            )) as u32,
                        )
                    } else {
                        None
                    }
                }
            },
        },
    }
}

/// The calendar entry in force for a service id: the last row with that id,
/// as later rows of the table shadow earlier ones.
pub open spec fn calendar_lookup(cal: Seq<ServiceCalendar>, sid: Seq<char>) -> Option<
    ServiceCalendar,
>
    decreases cal.len(),
{
    if cal.len() == 0 {
        None
    } else if cal.last().service_id@ == sid {
        Some(cal.last())
    } else {
        calendar_lookup(cal.drop_last(), sid)
    }
}

/// First calendar-date exception matching a service id and a date.
pub open spec fn first_exception(cds: Seq<CalendarDate>, sid: Seq<char>, date: Seq<char>) -> Option<
    CalendarDate,
>
    decreases cds.len(),
{
    if cds.len() == 0 {
        None
    } else if cds[0].service_id@ == sid && cds[0].date@ == date {
        Some(cds[0])
    } else {
        first_exception(cds.drop_first(), sid, date)
    }
}

/// The weekly flag of a calendar row for a weekday numbered from Monday.
pub open spec fn weekday_flag(c: ServiceCalendar, weekday: u32) -> bool {
    if weekday == 0 {
        c.monday
    } else if weekday == 1 {
        c.tuesday
    } else if weekday == 2 {
        c.wednesday
    } else if weekday == 3 {
        c.thursday
    } else if weekday == 4 {
        c.friday
    } else if weekday == 5 {
        c.saturday
    } else if weekday == 6 {
        c.sunday
    } else {
        false
    }
}

/// Whether a service runs on `date` (a `YYYYMMDD` string) falling on
/// `weekday` (0 = Monday): a matching calendar-date exception decides alone
/// (type 1 active, anything else inactive); absent one, the date must lie in
/// the calendar row's inclusive range — compared lexicographically — and the
/// weekday's flag must be set.
pub open spec fn service_active_spec(
    cal: Seq<ServiceCalendar>,
    cds: Seq<CalendarDate>,
    sid: Seq<char>,
    date: Seq<char>,
    weekday: u32,
) -> bool {
    match first_exception(cds, sid, date) {
        Some(e) => e.exception_type == 1,
        None => match calendar_lookup(cal, sid) {
            Some(c) => {
                if !lex_le(c.start_date@, date) || !lex_le(date, c.end_date@) {
                    false
                } else {
                    weekday_flag(c, weekday)
                }
            },
            None => false,
        },
    }
}

/// A calendar-date exception takes precedence over the weekly calendar: when
/// one matches the date, the service is active exactly when the exception's
/// type is 1, whatever the weekly flags say.
pub proof fn lemma_exception_precedence(
    cal: Seq<ServiceCalendar>,
    cds: Seq<CalendarDate>,
    sid: Seq<char>,
    date: Seq<char>,
    weekday: u32,
)
    requires
        first_exception(cds, sid, date) is Some,
    ensures
        service_active_spec(cal, cds, sid, date, weekday) == (first_exception(
            cds,
            sid,
            date,
        ).unwrap().exception_type == 1),
{
}

proof fn lemma_calendar_lookup_step(cal: Seq<ServiceCalendar>, sid: Seq<char>, i: int)
    requires
        0 < i <= cal.len(),
        cal[i - 1].service_id@ != sid,
    ensures
        calendar_lookup(cal.take(i), sid) == calendar_lookup(cal.take(i - 1), sid),
{
    assert(cal.take(i).drop_last() =~= cal.take(i - 1));
    assert(cal.take(i).last() == cal[i - 1]);
}

proof fn lemma_first_exception_step(cds: Seq<CalendarDate>, sid: Seq<char>, date: Seq<char>, i: int)
    requires
        0 <= i < cds.len(),
        !(cds[i].service_id@ == sid && cds[i].date@ == date),
    ensures
        first_exception(cds.skip(i), sid, date) == first_exception(cds.skip(i + 1), sid, date),
{
    assert(cds.skip(i).drop_first() =~= cds.skip(i + 1));
    assert(cds.skip(i)[0] == cds[i]);
}

/// First calendar row whose service id matches.
pub fn find_calendar<'a>(cal: &'a Vec<ServiceCalendar>, sid: &str) -> (r: Option<
    &'a ServiceCalendar,
>)
    ensures
        match calendar_lookup(cal@, sid@) {
            Some(c) => r is Some && *r.unwrap() == c,
            None => r is None,
        },
{
    let mut i: usize = cal.len();
    proof {
        assert(cal@.take(cal@.len() as int) =~= cal@);
    }
    while i > 0
        invariant
            0 <= i <= cal@.len(),
            calendar_lookup(cal@, sid@) == calendar_lookup(cal@.take(i as int), sid@),
        decreases i,
    {
        proof {
            assert(cal@.take(i as int).last() == cal@[i as int - 1]);
        }
        if str_eq(cal[i - 1].service_id.as_str(), sid) {
            return Some(&cal[i - 1]);
        }
        proof {
            lemma_calendar_lookup_step(cal@, sid@, i as int);
        }
        i = i - 1;
    }
    proof {
        assert(cal@.take(0) =~= Seq::<ServiceCalendar>::empty());
    }
    None
}

impl NVTModels {
    /// Parses a GTFS `HH:MM:SS` time to seconds since midnight; see
    /// [`gtfs_time_spec`]. Fields must be non-empty runs of decimal digits
    /// and the total must be representable.
    pub fn parse_gtfs_time(time_str: &str) -> (r: Option<u32>)
        ensures
            r == gtfs_time_spec(time_str@),
    {
        let n = time_str.unicode_len();
        let i1 = match find_char_from(time_str, 0, ':') {
            Some(i) => i,
            None => {
                return None;
            },
        };
        let i2 = match find_char_from(time_str, i1 + 1, ':') {
            Some(i) => i,
            None => {
                return None;
            },
        };
        if find_char_from(time_str, i2 + 1, ':').is_some() {
            return None;
        }
        let hp = time_str.substring_char(0, i1);
        let mp = time_str.substring_char(i1 + 1, i2);
        let sp = time_str.substring_char(i2 + 1, n);
        proof {
            assert(hp@ =~= time_str@.take(i1 as int));
            assert(mp@ =~= time_str@.subrange(i1 as int + 1, i2 as int));
            assert(sp@ =~= time_str@.skip(i2 as int + 1));
        }
        let hours = match parse_u32_digits(hp) {
            Some(v) => v,
            None => {
                return None;
            },
        };
        let minutes = match parse_u32_digits(mp) {
            Some(v) => v,
            None => {
                return None;
            },
        };
        let seconds = match parse_u32_digits(sp) {
            Some(v) => v,
            None => {
                return None;
            },
        };
        proof {
            crate::strutil::lemma_digits_value_nonneg(hp@);
            crate::strutil::lemma_digits_value_nonneg(mp@);
            crate::strutil::lemma_digits_value_nonneg(sp@);
            assert(hours as int == digits_value(hp@));
            assert(minutes as int == digits_value(mp@));
            assert(seconds as int == digits_value(sp@));
        }
        let total: u64 = hours as u64 * 3600 + minutes as u64 * 60 + seconds as u64;
        if total > u32::MAX as u64 {
            return None;
        }
        Some(total as u32)
    }

    /// Whether a service is active on the given date; see
    /// [`service_active_spec`]. A matching entry of `calendar_dates` decides
    /// alone; otherwise the weekly calendar row for the service does.
    pub fn is_service_active(
        service_id: &str,
        date: &str,
        weekday: u32,
        calendar: &Vec<ServiceCalendar>,
        calendar_dates: &Vec<CalendarDate>,
    ) -> (r: bool)
        ensures
            r == service_active_spec(calendar@, calendar_dates@, service_id@, date@, weekday),
    {
        let mut i: usize = 0;
        proof {
            assert(calendar_dates@.skip(0) =~= calendar_dates@);
        }
        while i < calendar_dates.len()
            invariant
                0 <= i <= calendar_dates@.len(),
                first_exception(calendar_dates@, service_id@, date@) == first_exception(
                    calendar_dates@.skip(i as int),
                    service_id@,
                    date@,
                ),
            decreases calendar_dates@.len() - i,
        {
            proof {
                assert(calendar_dates@.skip(i as int)[0] == calendar_dates@[i as int]);
            }
            if str_eq(calendar_dates[i].service_id.as_str(), service_id) && str_eq(
                calendar_dates[i].date.as_str(),
                date,
            ) {
                return calendar_dates[i].exception_type == 1;
            }
            proof {
                lemma_first_exception_step(calendar_dates@, service_id@, date@, i as int);
            }
            i = i + 1;
        }
        proof {
            assert(calendar_dates@.skip(calendar_dates@.len() as int) =~= Seq::<
                CalendarDate,
            >::empty());
        }
        match find_calendar(calendar, service_id) {
            Some(cal) => {
                if !str_le(cal.start_date.as_str(), date) || !str_le(date, cal.end_date.as_str()) {
                    return false;
                }
                if weekday == 0 {
                    cal.monday
                } else if weekday == 1 {
                    cal.tuesday
                } else if weekday == 2 {
                    cal.wednesday
                } else if weekday == 3 {
                    cal.thursday
                } else if weekday == 4 {
                    cal.friday
                } else if weekday == 5 {
                    cal.saturday
                } else if weekday == 6 {
                    cal.sunday
                } else {
                    false
                }
            },
            None => false,
        }
    }
}

// ===========================================================================
// The scheduled-arrival calculator: near-term arrivals at one stop derived
// purely from the static tables and service calendars.
// ===========================================================================

/// Whether an arrival time in seconds belongs in the output at the current
/// time of day: a next-day time (24 hours or more) only once the evening
/// threshold of 22:00 is reached, a same-day time only when it has not yet
/// passed.
pub open spec fn arrival_admissible(v: u32, secs: u32) -> bool {
    if v >= 86400 {
        secs >= 79200
    } else {
        v >= secs
    }
}

/// Whether an arrival-time string belongs in the output; see
/// [`arrival_admissible`].
pub open spec fn arrival_time_admissible(arr: Seq<char>, secs: u32) -> bool {
    match gtfs_time_spec(arr) {
        Some(v) => arrival_admissible(v, secs),
        None => false,
    }
}

/// Ghost view of a scheduled arrival: every string abstracted to its
/// characters.
pub struct SaV {
    pub trip_id: Seq<char>,
    pub route_id: Seq<char>,
    pub line_code: Seq<char>,
    pub line_color: Seq<char>,
    pub arrival_time: Seq<char>,
    pub departure_time: Seq<char>,
    pub destination: Option<Seq<char>>,
    pub stop_headsign: Option<Seq<char>>,
    pub operator: Seq<char>,
}

/// The view of a scheduled arrival.
pub open spec fn sa_view(a: ScheduledArrival) -> SaV {
    SaV {
        trip_id: a.trip_id@,
        route_id: a.route_id@,
        line_code: a.line_code@,
        line_color: a.line_color@,
        arrival_time: a.arrival_time@,
        departure_time: a.departure_time@,
        destination: match a.destination {
            Some(d) => Some(d@),
            None => None,
        },
        stop_headsign: match a.stop_headsign {
            Some(h) => Some(h@),
            None => None,
        },
        operator: a.operator@,
    }
}

/// The views of a sequence of scheduled arrivals.
pub open spec fn sa_views(s: Seq<ScheduledArrival>) -> Seq<SaV> {
    s.map_values(|a: ScheduledArrival| sa_view(a))
}

/// The deduplication key of a scheduled arrival: line code, arrival time,
/// and destination with a missing one reading as empty.
pub open spec fn sa_key(a: ScheduledArrival) -> (Seq<char>, Seq<char>, Seq<char>) {
    (
        a.line_code@,
        a.arrival_time@,
        match a.destination {
            Some(d) => d@,
            None => Seq::empty(),
        },
    )
}

/// Whether one stop-time row of a cache yields an arrival: its trip is
/// known, the trip's service is active today, and its arrival time parses
/// and is admissible.
pub open spec fn row_yields(
    c: GTFSCache,
    row: StopTime,
    today: Seq<char>,
    weekday: u32,
    secs: u32,
) -> bool {
    &&& crate::tables::trip_lookup(c.trips@, row.trip_id@) is Some
    &&& service_active_spec(
        c.calendar@,
        c.calendar_dates@,
        crate::tables::trip_lookup(c.trips@, row.trip_id@).unwrap().service_id@,
        today,
        weekday,
    )
    &&& arrival_time_admissible(row.arrival_time@, secs)
}

/// The view of the arrival one stop-time row yields.
pub open spec fn row_arrival_view(c: GTFSCache, row: StopTime, op: Seq<char>) -> SaV {
    let t = crate::tables::trip_lookup(c.trips@, row.trip_id@).unwrap();
    SaV {
        trip_id: row.trip_id@,
        route_id: t.route_id@,
        line_code: crate::ids::extract_line_code_spec(t.route_id@, op),
        line_color: match crate::tables::assoc_last(c.routes@, t.route_id@) {
            Some(col) => col@,
            None => "808080"@,
        },
        arrival_time: row.arrival_time@,
        departure_time: row.departure_time@,
        destination: match t.trip_headsign {
            Some(h) => Some(h@),
            None => None,
        },
        stop_headsign: match row.stop_headsign {
            Some(h) => Some(h@),
            None => None,
        },
        operator: op,
    }
}

/// The arrival views the rows of one stop-times group yield, in row order.
pub open spec fn rows_candidates(
    c: GTFSCache,
    op: Seq<char>,
    rows: Seq<StopTime>,
    today: Seq<char>,
    weekday: u32,
    secs: u32,
) -> Seq<SaV>
    decreases rows.len(),
{
    if rows.len() == 0 {
        Seq::empty()
    } else {
        let rest = rows_candidates(c, op, rows.drop_last(), today, weekday, secs);
        if row_yields(c, rows.last(), today, weekday, secs) {
            rest.push(row_arrival_view(c, rows.last(), op))
        } else {
            rest
        }
    }
}

/// The arrival views one operator's cache yields for a stop: those of the
/// stop-times group in force for the stop id, or none.
pub open spec fn cache_candidates(
    c: GTFSCache,
    op: Seq<char>,
    sid: Seq<char>,
    today: Seq<char>,
    weekday: u32,
    secs: u32,
) -> Seq<SaV> {
    match crate::tables::assoc_last(c.stop_times@, sid) {
        Some(rows) => rows_candidates(c, op, rows@, today, weekday, secs),
        None => Seq::empty(),
    }
}

/// Whether an arrival view stands among a candidate list.
pub open spec fn candidates_contain(s: Seq<SaV>, v: SaV) -> bool {
    exists|j: int| 0 <= j < s.len() && #[trigger] s[j] == v
}

/// A yielding row contributes its arrival view to the candidates of its
/// row list.
proof fn lemma_rows_candidates_contain(
    c: GTFSCache,
    op: Seq<char>,
    rows: Seq<StopTime>,
    today: Seq<char>,
    weekday: u32,
    secs: u32,
    t: int,
)
    requires
        0 <= t < rows.len(),
        row_yields(c, rows[t], today, weekday, secs),
    ensures
        candidates_contain(
            rows_candidates(c, op, rows, today, weekday, secs),
            row_arrival_view(c, rows[t], op),
        ),
    decreases rows.len(),
{
    let rc = rows_candidates(c, op, rows, today, weekday, secs);
    if t == rows.len() - 1 {
        assert(rc[rc.len() - 1] == row_arrival_view(c, rows[t], op));
    } else {
        assert(rows.drop_last()[t] == rows[t]);
        lemma_rows_candidates_contain(c, op, rows.drop_last(), today, weekday, secs, t);
        let rr = rows_candidates(c, op, rows.drop_last(), today, weekday, secs);
        let j = choose|j: int|
            0 <= j < rr.len() && #[trigger] rr[j] == row_arrival_view(c, rows[t], op);
        assert(rc[j] == rr[j]);
    }
}

/// The candidate arrival views of all three operator caches, in operator
/// order (urban, regional, national).
pub open spec fn all_candidates(
    c: CachedNetworkData,
    sid: Seq<char>,
    today: Seq<char>,
    weekday: u32,
    secs: u32,
) -> Seq<SaV> {
    cache_candidates(c.tbm_gtfs_cache, "TBM"@, sid, today, weekday, secs) + cache_candidates(
        c.transgironde_gtfs_cache,
        "TransGironde"@,
        sid,
        today,
        weekday,
        secs,
    ) + cache_candidates(c.sncf_gtfs_cache, "SNCF"@, sid, today, weekday, secs)
}

/// The deduplication key of an arrival view; agrees with [`sa_key`] on the
/// view of any arrival.
pub open spec fn sav_key(v: SaV) -> (Seq<char>, Seq<char>, Seq<char>) {
    (
        v.line_code,
        v.arrival_time,
        match v.destination {
            Some(d) => d,
            None => Seq::empty(),
        },
    )
}

/// The arrivals surviving deduplication by key, keeping first occurrences
/// in order.
pub open spec fn dedup_sa(s: Seq<ScheduledArrival>) -> Seq<ScheduledArrival>
    decreases s.len(),
{
    if s.len() == 0 {
        Seq::empty()
    } else {
        let rest = dedup_sa(s.drop_last());
        if exists|i: int| 0 <= i < s.len() - 1 && sa_key(#[trigger] s[i]) == sa_key(s.last()) {
            rest
        } else {
            rest.push(s.last())
        }
    }
}

/// Every element surviving deduplication stands in the source sequence.
proof fn lemma_dedup_sa_elements(s: Seq<ScheduledArrival>)
    ensures
        forall|k: int| 0 <= k < dedup_sa(s).len() ==> exists|j: int|
            0 <= j < s.len() && #[trigger] dedup_sa(s)[k] == s[j],
    decreases s.len(),
{
    if s.len() > 0 {
        lemma_dedup_sa_elements(s.drop_last());
        let d = dedup_sa(s);
        let dr = dedup_sa(s.drop_last());
        assert forall|k: int| 0 <= k < d.len() implies exists|j: int|
            0 <= j < s.len() && #[trigger] d[k] == s[j] by {
            if k < dr.len() {
                assert(d[k] == dr[k]);
                let j = choose|j: int| 0 <= j < s.drop_last().len() && dr[k] == s.drop_last()[j];
                assert(d[k] == s[j]);
            } else {
                assert(d[k] == s.last());
                assert(d[k] == s[s.len() - 1]);
            }
        }
    }
}

/// Deduplication leaves pairwise distinct keys.
proof fn lemma_dedup_sa_distinct(s: Seq<ScheduledArrival>)
    ensures
        forall|a: int, b: int| 0 <= a < b < dedup_sa(s).len() ==> sa_key(
            #[trigger] dedup_sa(s)[a],
        ) != sa_key(#[trigger] dedup_sa(s)[b]),
    decreases s.len(),
{
    if s.len() > 0 {
        lemma_dedup_sa_distinct(s.drop_last());
        lemma_dedup_sa_elements(s.drop_last());
        let d = dedup_sa(s);
        let dr = dedup_sa(s.drop_last());
        assert forall|a: int, b: int| 0 <= a < b < d.len() implies sa_key(#[trigger] d[a])
            != sa_key(#[trigger] d[b]) by {
            if b < dr.len() {
                assert(d[a] == dr[a] && d[b] == dr[b]);
            } else if d.len() > dr.len() {
                assert(d[b] == s.last());
                assert(d[a] == dr[a]);
                let j = choose|j: int|
                    0 <= j < s.drop_last().len() && dr[a] == s.drop_last()[j];
                assert(s[j] == dr[a]);
                if sa_key(d[a]) == sa_key(d[b]) {
                    assert(0 <= j < s.len() - 1 && sa_key(s[j]) == sa_key(s.last()));
                    assert(false);
                }
            }
        }
    }
}

/// Deduplication preserves ascending arrival order.
proof fn lemma_dedup_sa_sorted(s: Seq<ScheduledArrival>)
    requires
        crate::sortutil::sorted_seq(s),
    ensures
        crate::sortutil::sorted_seq(dedup_sa(s)),
    decreases s.len(),
{
    if s.len() > 0 {
        assert(crate::sortutil::sorted_seq(s.drop_last())) by {
            assert forall|i: int, j: int|
                0 <= i < j < s.drop_last().len() implies (#[trigger] s.drop_last()[i]).le_spec(
                #[trigger] s.drop_last()[j],
            ) by {
                assert(s[i].le_spec(s[j]));
            }
        }
        lemma_dedup_sa_sorted(s.drop_last());
        lemma_dedup_sa_elements(s.drop_last());
        let d = dedup_sa(s);
        let dr = dedup_sa(s.drop_last());
        assert forall|a: int, b: int| 0 <= a < b < d.len() implies (#[trigger] d[a]).le_spec(
            #[trigger] d[b],
        ) by {
            if b < dr.len() {
                assert(d[a] == dr[a] && d[b] == dr[b]);
            } else if d.len() > dr.len() {
                assert(d[b] == s.last());
                assert(d[a] == dr[a]);
                let j = choose|j: int|
                    0 <= j < s.drop_last().len() && dr[a] == s.drop_last()[j];
                assert(s[j] == d[a]);
                if s.len() >= 2 {
                    if j < s.len() - 1 {
                        assert(s[j].le_spec(s[s.len() - 1]));
                    }
                } else {
                    assert(false);
                }
            }
        }
    }
}

/// Every element surviving deduplication keeps a property all source
/// elements have.
proof fn lemma_dedup_sa_pred(s: Seq<ScheduledArrival>, pred: spec_fn(ScheduledArrival) -> bool)
    requires
        forall|i: int| 0 <= i < s.len() ==> pred(#[trigger] s[i]),
    ensures
        forall|k: int| 0 <= k < dedup_sa(s).len() ==> pred(#[trigger] dedup_sa(s)[k]),
{
    lemma_dedup_sa_elements(s);
    assert forall|k: int| 0 <= k < dedup_sa(s).len() implies pred(#[trigger] dedup_sa(s)[k]) by {
        let j = choose|j: int| 0 <= j < s.len() && dedup_sa(s)[k] == s[j];
    }
}

/// Decides whether two arrivals share the deduplication key.
fn sa_keys_eq(a: &ScheduledArrival, b: &ScheduledArrival) -> (r: bool)
    ensures
        r == (sa_key(*a) == sa_key(*b)),
{
    proof {
        reveal_strlit("");
        assert(""@ =~= Seq::<char>::empty());
    }
    let ad = match &a.destination {
        Some(d) => d.as_str(),
        None => "",
    };
    let bd = match &b.destination {
        Some(d) => d.as_str(),
        None => "",
    };
    let r = str_eq(a.line_code.as_str(), b.line_code.as_str()) && str_eq(
        a.arrival_time.as_str(),
        b.arrival_time.as_str(),
    ) && str_eq(ad, bd);
    proof {
        if r {
            assert(sa_key(*a) == sa_key(*b));
        } else {
            assert(sa_key(*a) != sa_key(*b));
        }
    }
    r
}

/// Every source element's key survives deduplication.
proof fn lemma_dedup_sa_covers(s: Seq<ScheduledArrival>)
    ensures
        forall|j: int| 0 <= j < s.len() ==> exists|k: int|
            0 <= k < dedup_sa(s).len() && sa_key(#[trigger] dedup_sa(s)[k]) == sa_key(
                #[trigger] s[j],
            ),
    decreases s.len(),
{
    if s.len() > 0 {
        lemma_dedup_sa_covers(s.drop_last());
        let d = dedup_sa(s);
        let dr = dedup_sa(s.drop_last());
        assert forall|j: int| 0 <= j < s.len() implies exists|k: int|
            0 <= k < d.len() && sa_key(#[trigger] d[k]) == sa_key(#[trigger] s[j]) by {
            if j < s.len() - 1 {
                assert(s.drop_last()[j] == s[j]);
                let k = choose|k: int|
                    0 <= k < dr.len() && sa_key(#[trigger] dr[k]) == sa_key(s.drop_last()[j]);
                assert(d[k] == dr[k]);
            } else {
                if exists|i: int| 0 <= i < s.len() - 1 && sa_key(#[trigger] s[i]) == sa_key(
                    s.last(),
                ) {
                    let i = choose|i: int|
                        0 <= i < s.len() - 1 && sa_key(#[trigger] s[i]) == sa_key(s.last());
                    assert(s.drop_last()[i] == s[i]);
                    let k = choose|k: int|
                        0 <= k < dr.len() && sa_key(#[trigger] dr[k]) == sa_key(
                            s.drop_last()[i],
                        );
                    assert(d[k] == dr[k]);
                    assert(sa_key(d[k]) == sa_key(s[j]));
                } else {
                    assert(d[d.len() - 1] == s.last());
                    assert(sa_key(d[d.len() - 1]) == sa_key(s[j]));
                }
            }
        }
    }
}

/// The inclusion half of the admissibility gate: whenever the result was
/// not cut off at `max_results`, every candidate arrival — in particular
/// each admissible next-day or same-day row of any operator's cache — is
/// represented in the output by an arrival sharing its deduplication key.
pub proof fn lemma_candidate_included(
    r: Seq<ScheduledArrival>,
    c: CachedNetworkData,
    sid: Seq<char>,
    max_results: int,
    today: Seq<char>,
    weekday: u32,
    secs: u32,
    j: int,
)
    requires
        scheduled_results_ok(r, c, sid, max_results, today, weekday, secs),
        r.len() < max_results,
        0 <= j < all_candidates(c, sid, today, weekday, secs).len(),
    ensures
        exists|k: int| 0 <= k < r.len() && sa_key(#[trigger] r[k]) == sav_key(
            all_candidates(c, sid, today, weekday, secs)[j],
        ),
{
    broadcast use vstd::seq_lib::group_to_multiset_ensures;
    broadcast use vstd::multiset::group_multiset_axioms;

    let cands = all_candidates(c, sid, today, weekday, secs);
    let (cand, full) = choose|cand: Seq<ScheduledArrival>, full: Seq<ScheduledArrival>|
        {
            &&& #[trigger] sa_views(cand) == all_candidates(c, sid, today, weekday, secs)
            &&& #[trigger] full.to_multiset() == cand.to_multiset()
            &&& crate::sortutil::sorted_seq(full)
            &&& r == dedup_sa(full).take(
                if dedup_sa(full).len() < max_results {
                    dedup_sa(full).len() as int
                } else {
                    max_results
                },
            )
        };
    assert(sa_views(cand)[j] == sa_view(cand[j]));
    assert(sa_key(cand[j]) == sav_key(cands[j]));
    assert(cand.contains(cand[j]));
    assert(cand.to_multiset().count(cand[j]) > 0);
    assert(full.to_multiset().count(cand[j]) > 0);
    assert(full.contains(cand[j]));
    let jf = choose|jf: int| 0 <= jf < full.len() && full[jf] == cand[j];
    lemma_dedup_sa_covers(full);
    let d = dedup_sa(full);
    let k = choose|k: int| 0 <= k < d.len() && sa_key(#[trigger] d[k]) == sa_key(full[jf]);
    if d.len() < max_results {
        assert(d.take(d.len() as int) =~= d);
        assert(r == d);
        assert(sa_key(r[k]) == sav_key(cands[j]));
    } else {
        assert(r.len() == max_results);
        assert(false);
    }
}

/// The end-to-end inclusion law of the time-of-day gate for one operator's
/// cache: when the stop-times group in force for the stop holds a row whose
/// trip is known, whose service is active today and whose arrival time is
/// admissible — a next-day time once 22:00 is reached, a same-day time not
/// yet past — and the result was not cut off at `max_results`, the output
/// holds an arrival sharing that row's line code, arrival time and
/// destination.
pub proof fn lemma_admissible_row_included(
    r: Seq<ScheduledArrival>,
    c: CachedNetworkData,
    gc: GTFSCache,
    op: Seq<char>,
    sid: Seq<char>,
    max_results: int,
    today: Seq<char>,
    weekday: u32,
    secs: u32,
    t: int,
)
    requires
        scheduled_results_ok(r, c, sid, max_results, today, weekday, secs),
        r.len() < max_results,
        (gc == c.tbm_gtfs_cache && op == "TBM"@) || (gc == c.transgironde_gtfs_cache && op
            == "TransGironde"@) || (gc == c.sncf_gtfs_cache && op == "SNCF"@),
        crate::tables::assoc_last(gc.stop_times@, sid) is Some,
        0 <= t < crate::tables::assoc_last(gc.stop_times@, sid).unwrap()@.len(),
        row_yields(
            gc,
            crate::tables::assoc_last(gc.stop_times@, sid).unwrap()@[t],
            today,
            weekday,
            secs,
        ),
    ensures
        exists|k: int| 0 <= k < r.len() && sa_key(#[trigger] r[k]) == sav_key(
            row_arrival_view(
                gc,
                crate::tables::assoc_last(gc.stop_times@, sid).unwrap()@[t],
                op,
            ),
        ),
{
    let rows = crate::tables::assoc_last(gc.stop_times@, sid).unwrap()@;
    let v = row_arrival_view(gc, rows[t], op);
    lemma_rows_candidates_contain(gc, op, rows, today, weekday, secs, t);
    let cc = cache_candidates(gc, op, sid, today, weekday, secs);
    let j = choose|j: int| 0 <= j < cc.len() && #[trigger] cc[j] == v;
    let a = cache_candidates(c.tbm_gtfs_cache, "TBM"@, sid, today, weekday, secs);
    let b = cache_candidates(c.transgironde_gtfs_cache, "TransGironde"@, sid, today, weekday, secs);
    let d = cache_candidates(c.sncf_gtfs_cache, "SNCF"@, sid, today, weekday, secs);
    let all = all_candidates(c, sid, today, weekday, secs);
    let ja: int = if gc == c.tbm_gtfs_cache && op == "TBM"@ {
        j
    } else if gc == c.transgironde_gtfs_cache && op == "TransGironde"@ {
        a.len() + j
    } else {
        a.len() + b.len() + j
    };
    assert(all[ja] == v);
    lemma_candidate_included(r, c, sid, max_results, today, weekday, secs, ja);
    let k = choose|k: int| 0 <= k < r.len() && sa_key(#[trigger] r[k]) == sav_key(all[ja]);
    assert(sa_key(r[k]) == sav_key(v));
}

/// Drops every arrival sharing its key with an earlier one; see
/// [`dedup_sa`].
#[verifier::loop_isolation(false)]
fn dedup_arrivals(v: Vec<ScheduledArrival>) -> (r: Vec<ScheduledArrival>)
    ensures
        r@ == dedup_sa(v@),
{
    let mut out: Vec<ScheduledArrival> = Vec::new();
    let mut i: usize = 0;
    while i < v.len()
        invariant
            0 <= i <= v@.len(),
            out@ == dedup_sa(v@.take(i as int)),
        decreases v@.len() - i,
    {
        proof {
            assert(v@.take(i as int + 1).drop_last() =~= v@.take(i as int));
            assert(v@.take(i as int + 1).last() == v@[i as int]);
        }
        let mut k: usize = 0;
        let mut seen = false;
        while k < i && !seen
            invariant
                0 <= k <= i <= v@.len(),
                !seen ==> forall|b: int| 0 <= b < k ==> sa_key(#[trigger] v@[b]) != sa_key(
                    v@[i as int],
                ),
                seen ==> exists|b: int| 0 <= b < i && sa_key(#[trigger] v@[b]) == sa_key(
                    v@[i as int],
                ),
            decreases i - k,
        {
            if sa_keys_eq(&v[k], &v[i]) {
                seen = true;
            }
            k = k + 1;
        }
        let ghost s1 = v@.take(i as int + 1);
        if !seen {
            proof {
                if exists|i2: int| 0 <= i2 < s1.len() - 1 && sa_key(#[trigger] s1[i2]) == sa_key(
                    s1.last(),
                ) {
                    let i2 = choose|i2: int|
                        0 <= i2 < s1.len() - 1 && sa_key(#[trigger] s1[i2]) == sa_key(s1.last());
                    assert(sa_key(v@[i2]) == sa_key(v@[i as int]));
                    assert(false);
                }
            }
            out.push(v[i].duplicate());
            proof {
                assert(out@ =~= dedup_sa(s1));
            }
        } else {
            proof {
                let b = choose|b: int|
                    0 <= b < i && sa_key(#[trigger] v@[b]) == sa_key(v@[i as int]);
                assert(sa_key(s1[b]) == sa_key(s1.last()));
                assert(out@ =~= dedup_sa(s1));
            }
        }
        i = i + 1;
    }
    proof {
        assert(v@.take(v@.len() as int) =~= v@);
    }
    out
}

/// Collects the arrivals one operator's cache yields for a stop; see
/// [`cache_candidates`]. Every collected arrival is admissible at the
/// current time of day.
#[verifier::loop_isolation(false)]
fn collect_cache_arrivals(
    c: &GTFSCache,
    op: &str,
    sid: &str,
    today: &str,
    weekday: u32,
    secs: u32,
) -> (r: Vec<ScheduledArrival>)
    ensures
        sa_views(r@) == cache_candidates(*c, op@, sid@, today@, weekday, secs),
        forall|i: int| 0 <= i < r@.len() ==> arrival_time_admissible(
            (#[trigger] r@[i]).arrival_time@,
            secs,
        ),
{
    let rows = match crate::tables::assoc_get(&c.stop_times, sid) {
        Some(rows) => rows,
        None => {
            let empty: Vec<ScheduledArrival> = Vec::new();
            proof {
                assert(sa_views(empty@) =~= Seq::<SaV>::empty());
            }
            return empty;
        },
    };
    let mut out: Vec<ScheduledArrival> = Vec::new();
    let mut i: usize = 0;
    while i < rows.len()
        invariant
            0 <= i <= rows@.len(),
            sa_views(out@) == rows_candidates(*c, op@, rows@.take(i as int), today@, weekday, secs),
            forall|k: int| 0 <= k < out@.len() ==> arrival_time_admissible(
                (#[trigger] out@[k]).arrival_time@,
                secs,
            ),
        decreases rows@.len() - i,
    {
        proof {
            assert(rows@.take(i as int + 1).drop_last() =~= rows@.take(i as int));
            assert(rows@.take(i as int + 1).last() == rows@[i as int]);
        }
        let row = &rows[i];
        match crate::tables::find_trip(&c.trips, row.trip_id.as_str()) {
            Some(t) => {
                if NVTModels::is_service_active(
                    t.service_id.as_str(),
                    today,
                    weekday,
                    &c.calendar,
                    &c.calendar_dates,
                ) {
                    match NVTModels::parse_gtfs_time(row.arrival_time.as_str()) {
                        Some(v) => {
                            let future = if v >= 86400 {
                                secs >= 79200
                            } else {
                                v >= secs
                            };
                            if future {
                                let code = NVTModels::extract_line_code_from_route(
                                    t.route_id.as_str(),
                                    op,
                                );
                                let color: String = match crate::tables::assoc_get(
                                    &c.routes,
                                    t.route_id.as_str(),
                                ) {
                                    Some(col) => col.clone(),
                                    None => String::from_str("808080"),
                                };
                                let entry = ScheduledArrival {
                                    trip_id: row.trip_id.clone(),
                                    route_id: t.route_id.clone(),
                                    line_code: code,
                                    line_color: color,
                                    arrival_time: row.arrival_time.clone(),
                                    departure_time: row.departure_time.clone(),
                                    destination: crate::model::dup_opt_string(&t.trip_headsign),
                                    stop_headsign: crate::model::dup_opt_string(
                                        &row.stop_headsign,
                                    ),
                                    operator: String::from_str(op),
                                };
                                proof {
                                    assert(sa_view(entry) == row_arrival_view(
                                        *c,
                                        rows@[i as int],
                                        op@,
                                    ));
                                }
                                out.push(entry);
                                proof {
                                    assert(sa_views(out@) =~= rows_candidates(
                                        *c,
                                        op@,
                                        rows@.take(i as int + 1),
                                        today@,
                                        weekday,
                                        secs,
                                    ));
                                }
                            }
                        },
                        None => {},
                    }
                }
            },
            None => {},
        }
        i = i + 1;
    }
    proof {
        assert(rows@.take(rows@.len() as int) =~= rows@);
    }
    out
}

/// What the calculator's results satisfy for one civil date, weekday and
/// time of day: at most `max_results` arrivals, ascending by arrival-time
/// string, pairwise distinct by deduplication key, each admissible at that
/// time of day, and exactly the truncation of the deduplicated sorted
/// candidate arrivals of the three operator caches.
pub open spec fn scheduled_results_ok(
    r: Seq<ScheduledArrival>,
    c: CachedNetworkData,
    sid: Seq<char>,
    max_results: int,
    today: Seq<char>,
    weekday: u32,
    secs: u32,
) -> bool {
    &&& r.len() <= max_results
    &&& crate::sortutil::sorted_seq(r)
    &&& forall|a: int, b: int| 0 <= a < b < r.len() ==> sa_key(#[trigger] r[a]) != sa_key(
        #[trigger] r[b],
    )
    &&& forall|i: int| 0 <= i < r.len() ==> arrival_time_admissible(
        (#[trigger] r[i]).arrival_time@,
        secs,
    )
    &&& exists|cand: Seq<ScheduledArrival>, full: Seq<ScheduledArrival>|
        {
            &&& #[trigger] sa_views(cand) == all_candidates(c, sid, today, weekday, secs)
            &&& #[trigger] full.to_multiset() == cand.to_multiset()
            &&& crate::sortutil::sorted_seq(full)
            &&& r == dedup_sa(full).take(
                if dedup_sa(full).len() < max_results {
                    dedup_sa(full).len() as int
                } else {
                    max_results
                },
            )
        }
}

impl NVTModels {
    /// Computes the near-term scheduled arrivals at one stop for the given
    /// civil date, weekday and time of day: the arrivals each operator's
    /// cache yields, sorted ascending by arrival-time string, deduplicated
    /// by line code, arrival time and destination keeping first
    /// occurrences, and truncated to `max_results`. Every result is
    /// admissible at the given time of day and the results' keys are
    /// pairwise distinct.
    #[verifier::loop_isolation(false)]
    pub fn get_scheduled_arrivals_at(
        stop_id: &str,
        cache: &CachedNetworkData,
        max_results: usize,
        today: &str,
        weekday: u32,
        secs: u32,
    ) -> (r: Vec<ScheduledArrival>)
        ensures
            r@.len() <= max_results,
            crate::sortutil::sorted_seq(r@),
            forall|a: int, b: int| 0 <= a < b < r@.len() ==> sa_key(#[trigger] r@[a]) != sa_key(
                #[trigger] r@[b],
            ),
            forall|i: int| 0 <= i < r@.len() ==> arrival_time_admissible(
                (#[trigger] r@[i]).arrival_time@,
                secs,
            ),
            exists|cand: Seq<ScheduledArrival>, full: Seq<ScheduledArrival>|
                {
                    &&& #[trigger] sa_views(cand) == cache_candidates(
                        cache.tbm_gtfs_cache,
                        "TBM"@,
                        stop_id@,
                        today@,
                        weekday,
                        secs,
                    ) + cache_candidates(
                        cache.transgironde_gtfs_cache,
                        "TransGironde"@,
                        stop_id@,
                        today@,
                        weekday,
                        secs,
                    ) + cache_candidates(
                        cache.sncf_gtfs_cache,
                        "SNCF"@,
                        stop_id@,
                        today@,
                        weekday,
                        secs,
                    )
                    &&& #[trigger] full.to_multiset() == cand.to_multiset()
                    &&& crate::sortutil::sorted_seq(full)
                    &&& r@ == dedup_sa(full).take(
                        if dedup_sa(full).len() < max_results {
                            dedup_sa(full).len() as int
                        } else {
                            max_results as int
                        },
                    )
                },
            scheduled_results_ok(
                r@,
                *cache,
                stop_id@,
                max_results as int,
                today@,
                weekday,
                secs,
            ),
    {
        let mut cand = collect_cache_arrivals(
            &cache.tbm_gtfs_cache,
            "TBM",
            stop_id,
            today,
            weekday,
            secs,
        );
        let ghost c_tbm = cand@;
        let mut tg = collect_cache_arrivals(
            &cache.transgironde_gtfs_cache,
            "TransGironde",
            stop_id,
            today,
            weekday,
            secs,
        );
        let ghost c_tg = tg@;
        cand.append(&mut tg);
        let mut sn = collect_cache_arrivals(
            &cache.sncf_gtfs_cache,
            "SNCF",
            stop_id,
            today,
            weekday,
            secs,
        );
        let ghost c_sn = sn@;
        cand.append(&mut sn);
        let ghost cand0 = cand@;
        proof {
            assert(sa_views(cand0) =~= sa_views(c_tbm) + sa_views(c_tg) + sa_views(c_sn));
            assert forall|i: int| 0 <= i < cand0.len() implies arrival_time_admissible(
                (#[trigger] cand0[i]).arrival_time@,
                secs,
            ) by {
                if i < c_tbm.len() {
                    assert(cand0[i] == c_tbm[i]);
                } else if i < c_tbm.len() + c_tg.len() {
                    assert(cand0[i] == c_tg[i - c_tbm.len()]);
                } else {
                    assert(cand0[i] == c_sn[i - c_tbm.len() - c_tg.len()]);
                }
            }
        }
        let sorted = crate::sortutil::sort_vec(cand);
        let ghost full0 = sorted@;
        proof {
            crate::sortutil::lemma_multiset_preserves_pred(
                cand0,
                full0,
                |x: ScheduledArrival| arrival_time_admissible(x.arrival_time@, secs),
            );
        }
        let mut deduped = dedup_arrivals(sorted);
        proof {
            lemma_dedup_sa_sorted(full0);
            lemma_dedup_sa_distinct(full0);
            lemma_dedup_sa_pred(
                full0,
                |x: ScheduledArrival| arrival_time_admissible(x.arrival_time@, secs),
            );
        }
        let ghost ded0 = deduped@;
        if deduped.len() > max_results {
            deduped.truncate(max_results);
        }
        proof {
            assert(deduped@ =~= ded0.take(
                if ded0.len() < max_results {
                    ded0.len() as int
                } else {
                    max_results as int
                },
            ));
        }
        deduped
    }

    /// Computes the near-term scheduled arrivals at one stop for the
    /// present local date and time; the clock's reading cannot be pinned
    /// down, so [`Self::get_scheduled_arrivals_at`] carries the exact
    /// contract.
    pub fn get_scheduled_arrivals(
        stop_id: &str,
        cache: &CachedNetworkData,
        max_results: usize,
    ) -> (r: Vec<ScheduledArrival>)
        ensures
            r@.len() <= max_results,
            crate::sortutil::sorted_seq(r@),
            forall|a: int, b: int| 0 <= a < b < r@.len() ==> sa_key(#[trigger] r@[a]) != sa_key(
                #[trigger] r@[b],
            ),
            exists|today: Seq<char>, weekday: u32, secs: u32|
                weekday < 7 && secs < 86400 && #[trigger] scheduled_results_ok(
                    r@,
                    *cache,
                    stop_id@,
                    max_results as int,
                    today,
                    weekday,
                    secs,
                ),
    {
        let (today, weekday, secs) = crate::clock::local_day_now();
        let r = Self::get_scheduled_arrivals_at(
            stop_id,
            cache,
            max_results,
            today.as_str(),
            weekday,
            secs,
        );
        proof {
            assert(scheduled_results_ok(
                r@,
                *cache,
                stop_id@,
                max_results as int,
                today@,
                weekday,
                secs,
            ));
        }
        r
    }
}

} // verus!
