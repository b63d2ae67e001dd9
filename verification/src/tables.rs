//! Static table parser: reads a GTFS archive (a zip of CSV tables) into
//! typed rows. Zip extraction and CSV record splitting are performed by
//! outside crates behind trusted wrappers; every rule applied to the records
//! — which rows are valid, how tables are keyed, grouped and sorted — is
//! verified.
//!
//! Column access is positional, and the exports of the different operators
//! lay the same logical fields out in different orders; each operator's
//! parser carries its own column indices.

use vstd::prelude::*;

use crate::model::{Agency, CalendarDate, NVTModels, ServiceCalendar, ShapePoint, StopTime, Transfer, Trip};
use crate::strutil::{parse_u32_digits, str_eq};

verus! {

/// What the zip reader yields for an entry of an archive: `None` when the
/// bytes are not a readable archive, `Some(None)` when the entry is absent
/// or unreadable, `Some(Some(text))` for its contents. A function of the
/// bytes and the name alone.
pub uninterp spec fn zip_entry_of(bytes: Seq<u8>, name: Seq<char>) -> Option<Option<Seq<char>>>;

/// Relies on the zip crate (`ZipArchive::new`, `by_name`, `read_to_string`)
/// to extract one named entry of a zip archive as text; the outcome is
/// named by [`zip_entry_of`].
#[verifier::external_body]
pub fn zip_entry(bytes: &Vec<u8>, name: &str) -> (r: Option<Option<String>>)
    ensures
        r.deep_view() == zip_entry_of(bytes@, name@),
{
    let cursor = std::io::Cursor::new(bytes.as_slice());
    let mut archive = match zip::ZipArchive::new(cursor) {
        Ok(a) => a,
        Err(_) => return None,
    };
    let mut file = match archive.by_name(name) {
        Ok(f) => f,
        Err(_) => return Some(None),
    };
    let mut contents = String::new();
    match std::io::Read::read_to_string(&mut file, &mut contents) {
        Ok(_) => Some(Some(contents)),
        Err(_) => Some(None),
    }
}

/// The records that the CSV reader yields for a text: the fields of each
/// row after the header row, unreadable rows skipped. A function of the
/// text alone.
pub uninterp spec fn csv_rows_of(text: Seq<char>) -> Seq<Seq<Seq<char>>>;

/// Relies on the csv crate (`Reader::from_reader`, `records`) to split a
/// CSV text into records, treating the first row as a header; the outcome
/// is named by [`csv_rows_of`].
#[verifier::external_body]
pub fn csv_rows(text: &str) -> (r: Vec<Vec<String>>)
    ensures
        r.deep_view() == csv_rows_of(text@),
{
    let mut rows: Vec<Vec<String>> = Vec::new();
    let mut rdr = csv::Reader::from_reader(text.as_bytes());
    for result in rdr.records() {
        if let Ok(record) = result {
            rows.push(record.iter().map(|f| f.to_string()).collect());
        }
    }
    rows
}

// ===========================================================================
// Association-list lookups. Tables are built by appending rows, so the entry
// in force for a key is the last one, as a map rebuilt by repeated insertion
// would hold.
// ===========================================================================

/// The value in force for `key`: that of the last pair keyed by it.
pub open spec fn assoc_last<V>(m: Seq<(String, V)>, key: Seq<char>) -> Option<V>
    decreases m.len(),
{
    if m.len() == 0 {
        None
    } else if m.last().0@ == key {
        Some(m.last().1)
    } else {
        assoc_last(m.drop_last(), key)
    }
}

proof fn lemma_assoc_last_step<V>(m: Seq<(String, V)>, key: Seq<char>, i: int)
    requires
        0 < i <= m.len(),
        m[i - 1].0@ != key,
    ensures
        assoc_last(m.take(i), key) == assoc_last(m.take(i - 1), key),
{
    assert(m.take(i).drop_last() =~= m.take(i - 1));
    assert(m.take(i).last() == m[i - 1]);
}

/// Looks a key up in an association list; see [`assoc_last`].
pub fn assoc_get<'a, V>(m: &'a Vec<(String, V)>, key: &str) -> (r: Option<&'a V>)
    ensures
        match assoc_last(m@, key@) {
            Some(v) => r is Some && *r.unwrap() == v,
            None => r is None,
        },
{
    let mut i: usize = m.len();
    proof {
        assert(m@.take(m@.len() as int) =~= m@);
    }
    while i > 0
        invariant
            0 <= i <= m@.len(),
            assoc_last(m@, key@) == assoc_last(m@.take(i as int), key@),
        decreases i,
    {
        proof {
            assert(m@.take(i as int).last() == m@[i as int - 1]);
        }
        if str_eq(m[i - 1].0.as_str(), key) {
            return Some(&m[i - 1].1);
        }
        proof {
            lemma_assoc_last_step(m@, key@, i as int);
        }
        i = i - 1;
    }
    proof {
        assert(m@.take(0) =~= Seq::<(String, V)>::empty());
    }
    None
}

/// The trip in force for a trip id: the last row with that id.
pub open spec fn trip_lookup(trips: Seq<Trip>, tid: Seq<char>) -> Option<Trip>
    decreases trips.len(),
{
    if trips.len() == 0 {
        None
    } else if trips.last().trip_id@ == tid {
        Some(trips.last())
    } else {
        trip_lookup(trips.drop_last(), tid)
    }
}

proof fn lemma_trip_lookup_step(trips: Seq<Trip>, tid: Seq<char>, i: int)
    requires
        0 < i <= trips.len(),
        trips[i - 1].trip_id@ != tid,
    ensures
        trip_lookup(trips.take(i), tid) == trip_lookup(trips.take(i - 1), tid),
{
    assert(trips.take(i).drop_last() =~= trips.take(i - 1));
    assert(trips.take(i).last() == trips[i - 1]);
}

/// Looks a trip id up in the trips table; see [`trip_lookup`].
pub fn find_trip<'a>(trips: &'a Vec<Trip>, tid: &str) -> (r: Option<&'a Trip>)
    ensures
        match trip_lookup(trips@, tid@) {
            Some(t) => r is Some && *r.unwrap() == t,
            None => r is None,
        },
{
    let mut i: usize = trips.len();
    proof {
        assert(trips@.take(trips@.len() as int) =~= trips@);
    }
    while i > 0
        invariant
            0 <= i <= trips@.len(),
            trip_lookup(trips@, tid@) == trip_lookup(trips@.take(i as int), tid@),
        decreases i,
    {
        proof {
            assert(trips@.take(i as int).last() == trips@[i as int - 1]);
        }
        if str_eq(trips[i - 1].trip_id.as_str(), tid) {
            return Some(&trips[i - 1]);
        }
        proof {
            lemma_trip_lookup_step(trips@, tid@, i as int);
        }
        i = i - 1;
    }
    proof {
        assert(trips@.take(0) =~= Seq::<Trip>::empty());
    }
    None
}

/// The agency in force for an agency id: the last row with that id.
pub open spec fn agency_lookup(ags: Seq<Agency>, aid: Seq<char>) -> Option<Agency>
    decreases ags.len(),
{
    if ags.len() == 0 {
        None
    } else if ags.last().agency_id@ == aid {
        Some(ags.last())
    } else {
        agency_lookup(ags.drop_last(), aid)
    }
}

proof fn lemma_agency_lookup_step(ags: Seq<Agency>, aid: Seq<char>, i: int)
    requires
        0 < i <= ags.len(),
        ags[i - 1].agency_id@ != aid,
    ensures
        agency_lookup(ags.take(i), aid) == agency_lookup(ags.take(i - 1), aid),
{
    assert(ags.take(i).drop_last() =~= ags.take(i - 1));
    assert(ags.take(i).last() == ags[i - 1]);
}

/// Looks an agency id up in the agency table; see [`agency_lookup`].
pub fn find_agency<'a>(ags: &'a Vec<Agency>, aid: &str) -> (r: Option<&'a Agency>)
    ensures
        match agency_lookup(ags@, aid@) {
            Some(a) => r is Some && *r.unwrap() == a,
            None => r is None,
        },
{
    let mut i: usize = ags.len();
    proof {
        assert(ags@.take(ags@.len() as int) =~= ags@);
    }
    while i > 0
        invariant
            0 <= i <= ags@.len(),
            agency_lookup(ags@, aid@) == agency_lookup(ags@.take(i as int), aid@),
        decreases i,
    {
        proof {
            assert(ags@.take(i as int).last() == ags@[i as int - 1]);
        }
        if str_eq(ags[i - 1].agency_id.as_str(), aid) {
            return Some(&ags[i - 1]);
        }
        proof {
            lemma_agency_lookup_step(ags@, aid@, i as int);
        }
        i = i - 1;
    }
    proof {
        assert(ags@.take(0) =~= Seq::<Agency>::empty());
    }
    None
}

// ===========================================================================
// Flat tables: agencies, calendar, calendar dates, transfers, trips.
// Each parser's result is pinned exactly: the valid rows, in order, shaped
// into their record type.
// ===========================================================================

/// The agency rows of a record list: every row with at least five fields,
/// in order.
pub open spec fn agencies_spec(rows: Seq<Vec<String>>) -> Seq<Agency>
    decreases rows.len(),
{
    if rows.len() == 0 {
        Seq::empty()
    } else {
        let rest = agencies_spec(rows.drop_last());
        let row = rows.last();
        if row@.len() >= 5 {
            rest.push(
                Agency {
                    agency_id: row@[0],
                    agency_name: row@[1],
                    agency_url: row@[2],
                    agency_timezone: row@[3],
                    agency_phone: row@[4],
                },
            )
        } else {
            rest
        }
    }
}

/// The calendar rows of a record list: every row with at least ten fields,
/// the weekday fields read as flags set by `"1"`.
pub open spec fn calendar_spec(rows: Seq<Vec<String>>) -> Seq<ServiceCalendar>
    decreases rows.len(),
{
    if rows.len() == 0 {
        Seq::empty()
    } else {
        let rest = calendar_spec(rows.drop_last());
        let row = rows.last();
        if row@.len() >= 10 {
            rest.push(
                ServiceCalendar {
                    service_id: row@[0],
                    monday: row@[1]@ == "1"@,
                    tuesday: row@[2]@ == "1"@,
                    wednesday: row@[3]@ == "1"@,
                    thursday: row@[4]@ == "1"@,
                    friday: row@[5]@ == "1"@,
                    saturday: row@[6]@ == "1"@,
                    sunday: row@[7]@ == "1"@,
                    start_date: row@[8],
                    end_date: row@[9],
                },
            )
        } else {
            rest
        }
    }
}

/// The calendar-date rows of a record list: every row with at least three
/// fields whose exception type parses as a number.
pub open spec fn calendar_dates_spec(rows: Seq<Vec<String>>) -> Seq<CalendarDate>
    decreases rows.len(),
{
    if rows.len() == 0 {
        Seq::empty()
    } else {
        let rest = calendar_dates_spec(rows.drop_last());
        let row = rows.last();
        if row@.len() >= 3 && crate::strutil::parse_u32_spec(row@[2]@) is Some {
            rest.push(
                CalendarDate {
                    service_id: row@[0],
                    date: row@[1],
                    exception_type: crate::strutil::parse_u32_spec(row@[2]@).unwrap(),
                },
            )
        } else {
            rest
        }
    }
}

/// The transfer rows of a record list: every row with at least three fields
/// whose transfer type parses as a number; the minimum transfer time is
/// kept when a fourth field parses.
pub open spec fn transfers_spec(rows: Seq<Vec<String>>) -> Seq<Transfer>
    decreases rows.len(),
{
    if rows.len() == 0 {
        Seq::empty()
    } else {
        let rest = transfers_spec(rows.drop_last());
        let row = rows.last();
        if row@.len() >= 3 && crate::strutil::parse_u32_spec(row@[2]@) is Some {
            rest.push(
                Transfer {
                    from_stop_id: row@[0],
                    to_stop_id: row@[1],
                    transfer_type: crate::strutil::parse_u32_spec(row@[2]@).unwrap(),
                    min_transfer_time: if row@.len() >= 4 {
                        crate::strutil::parse_u32_spec(row@[3]@)
                    } else {
                        None
                    },
                },
            )
        } else {
            rest
        }
    }
}

/// The trip rows of a record list: every row with at least three fields,
/// fields laid out as `route_id, service_id, trip_id, trip_headsign,
/// direction_id`; an empty headsign is dropped and a direction that does
/// not parse is dropped.
pub open spec fn trips_spec(rows: Seq<Vec<String>>) -> Seq<Trip>
    decreases rows.len(),
{
    if rows.len() == 0 {
        Seq::empty()
    } else {
        let rest = trips_spec(rows.drop_last());
        let row = rows.last();
        if row@.len() >= 3 {
            rest.push(
                Trip {
                    trip_id: row@[2],
                    route_id: row@[0],
                    service_id: row@[1],
                    trip_headsign: if row@.len() >= 4 && row@[3]@.len() > 0 {
                        Some(row@[3])
                    } else {
                        None
                    },
                    direction_id: if row@.len() >= 5 {
                        crate::strutil::parse_u32_spec(row@[4]@)
                    } else {
                        None
                    },
                },
            )
        } else {
            rest
        }
    }
}

// ===========================================================================
// Coordinates. A stop's latitude and longitude are plain decimal strings in
// the tables; the engine holds them as signed microdegrees. A coordinate
// string is a sign, an integer part and up to six significant fraction
// digits; scientific notation and non-finite values are not coordinates.
// ===========================================================================

/// Powers of ten up to one million, for scaling fraction digits.
pub open spec fn micro_scale(k: int) -> int {
    if k <= 0 {
        1
    } else if k == 1 {
        10
    } else if k == 2 {
        100
    } else if k == 3 {
        1000
    } else if k == 4 {
        10000
    } else if k == 5 {
        100000
    } else {
        1000000
    }
}

/// The microdegree value of a fraction-digit string: its first six digits,
/// scaled.
pub open spec fn frac_micro(fp: Seq<char>) -> int {
    let k: int = if fp.len() < 6 {
        fp.len() as int
    } else {
        6
    };
    crate::strutil::digits_value(fp.take(k)) * micro_scale(6 - k)
}

/// The largest integer part a coordinate may carry.
pub open spec fn coord_int_cap() -> u64 {
    999_999_999_999u64
}

/// The microdegree value a decimal string denotes: an optional sign, an
/// all-digit integer part, and optionally a dot followed by an all-digit
/// fraction part, at least one digit in all; `None` otherwise.
pub open spec fn coord_spec(s: Seq<char>) -> Option<i64> {
    let signed = s.len() > 0 && (s[0] == '-' || s[0] == '+');
    let neg = s.len() > 0 && s[0] == '-';
    let body = if signed {
        s.drop_first()
    } else {
        s
    };
    match crate::strutil::first_index_of(body, '.', 0) {
        None => {
            if body.len() > 0 && crate::strutil::all_digits(body) && crate::strutil::digits_value(
                body,
            ) <= coord_int_cap() {
                let m = crate::strutil::digits_value(body) * 1_000_000;
                Some(
                    (if neg {
                        -m
                    } else {
                        m
                    }) as i64,
                )
            } else {
                None
            }
        },
        Some(d) => {
            let ip = body.take(d);
            let fp = body.skip(d + 1);
            if ip.len() + fp.len() > 0 && crate::strutil::all_digits(ip)
                && crate::strutil::all_digits(fp) && crate::strutil::first_index_of(fp, '.', 0)
                is None && crate::strutil::digits_value(ip) <= coord_int_cap() {
                let m = crate::strutil::digits_value(ip) * 1_000_000 + frac_micro(fp);
                Some(
                    (if neg {
                        -m
                    } else {
                        m
                    }) as i64,
                )
            } else {
                None
            }
        },
    }
}

/// Parses a decimal coordinate string to microdegrees; see [`coord_spec`].
#[verifier::rlimit(60)]
pub fn parse_coord(s: &str) -> (r: Option<i64>)
    ensures
        r == coord_spec(s@),
{
    let n = s.unicode_len();
    let signed = n > 0 && (s.get_char(0) == '-' || s.get_char(0) == '+');
    let neg = n > 0 && s.get_char(0) == '-';
    let start: usize = if signed {
        1
    } else {
        0
    };
    let body = s.substring_char(start, n);
    proof {
        if signed {
            assert(body@ =~= s@.drop_first());
        } else {
            assert(body@ =~= s@);
        }
    }
    let bn = body.unicode_len();
    match crate::strutil::find_char_from(body, 0, '.') {
        None => {
            match crate::strutil::parse_u64_capped(body, 999_999_999_999) {
                Some(v) => {
                    proof {
                        crate::strutil::lemma_digits_value_nonneg(body@);
                        assert(v <= 999_999_999_999);
                    }
                    let m: u64 = v * 1_000_000;
                    if neg {
                        Some(-(m as i64))
                    } else {
                        Some(m as i64)
                    }
                },
                None => None,
            }
        },
        Some(d) => {
            let ip = body.substring_char(0, d);
            let fp = body.substring_char(d + 1, bn);
            proof {
                assert(ip@ =~= body@.take(d as int));
                assert(fp@ =~= body@.skip(d as int + 1));
            }
            if crate::strutil::find_char_from(fp, 0, '.').is_some() {
                return None;
            }
            let ipn = ip.unicode_len();
            let fpn = fp.unicode_len();
            if ipn + fpn == 0 {
                return None;
            }
            let ipv: u64 = if ipn == 0 {
                proof {
                    assert(crate::strutil::digits_value(ip@) == 0);
                }
                0
            } else {
                match crate::strutil::parse_u64_capped(ip, 999_999_999_999) {
                    Some(v) => {
                        proof {
                            crate::strutil::lemma_digits_value_nonneg(ip@);
                        }
                        v
                    },
                    None => {
                        return None;
                    },
                }
            };
            proof {
                assert(ipv <= 999_999_999_999);
            }
            let k: usize = if fpn < 6 {
                fpn
            } else {
                6
            };
            let fph = fp.substring_char(0, k);
            proof {
                assert(fph@ =~= fp@.take(k as int));
            }
            let fracv: u64 = if k == 0 {
                proof {
                    assert(crate::strutil::digits_value(fph@) == 0);
                }
                0
            } else {
                match crate::strutil::parse_u64_capped(fph, 999_999) {
                    Some(v) => {
                        proof {
                            crate::strutil::lemma_digits_value_nonneg(fph@);
                            lemma_short_digits_small(fph@);
                        }
                        v
                    },
                    None => {
                        proof {
                            if crate::strutil::all_digits(fp@) {
                                assert forall|j: int| 0 <= j < fph@.len() implies '0'
                                    <= #[trigger] fph@[j] <= '9' by {
                                    assert(fph@[j] == fp@[j]);
                                }
                                lemma_short_digits_small(fph@);
                                crate::strutil::lemma_digits_value_nonneg(fph@);
                                assert(false);
                            }
                        }
                        return None;
                    },
                }
            };
            proof {
                if k > 0 {
                    assert(fracv as int == crate::strutil::digits_value(fph@));
                    assert((fracv as int) < micro_scale(k as int));
                }
            }
            if fpn > k {
                // the fraction's tail must still be digits for the string
                // to be a coordinate
                let tail = fp.substring_char(k, fpn);
                proof {
                    assert(tail@ =~= fp@.skip(k as int));
                }
                if !all_digits_exec(tail) {
                    proof {
                        assert(!crate::strutil::all_digits(fp@)) by {
                            let j = choose|j: int|
                                0 <= j < tail@.len() && !('0' <= #[trigger] tail@[j] <= '9');
                            assert(fp@[j + k] == tail@[j]);
                        }
                    }
                    return None;
                }
                proof {
                    assert(crate::strutil::all_digits(fp@)) by {
                        assert forall|j: int| 0 <= j < fp@.len() implies '0' <= #[trigger] fp@[j]
                            <= '9' by {
                            if j < k {
                                assert(fph@[j] == fp@[j]);
                            } else {
                                assert(tail@[j - k] == fp@[j]);
                            }
                        }
                    }
                }
            } else {
                proof {
                    assert(crate::strutil::all_digits(fp@)) by {
                        assert forall|j: int| 0 <= j < fp@.len() implies '0' <= #[trigger] fp@[j]
                            <= '9' by {
                            assert(fph@[j] == fp@[j]);
                        }
                    }
                }
            }
            let fracm: u64 = if k == 0 {
                0
            } else if k == 1 {
                fracv * 100_000
            } else if k == 2 {
                fracv * 10_000
            } else if k == 3 {
                fracv * 1_000
            } else if k == 4 {
                fracv * 100
            } else if k == 5 {
                fracv * 10
            } else {
                fracv
            };
            proof {
                assert(fp@.take(k as int) =~= fph@);
                assert(fracm as int == frac_micro(fp@));
                assert(fracm < 1_000_000);
            }
            let m: u64 = ipv * 1_000_000 + fracm;
            proof {
                assert(m as int == crate::strutil::digits_value(ip@) * 1_000_000 + frac_micro(
                    fp@,
                ));
            }
            if neg {
                Some(-(m as i64))
            } else {
                Some(m as i64)
            }
        },
    }
}

/// A digit string's value stays below ten to the power of its length.
proof fn lemma_short_digits_small(s: Seq<char>)
    requires
        s.len() <= 6,
        crate::strutil::all_digits(s),
    ensures
        crate::strutil::digits_value(s) < micro_scale(s.len() as int),
    decreases s.len(),
{
    if s.len() > 0 {
        assert(crate::strutil::all_digits(s.drop_last()));
        lemma_short_digits_small(s.drop_last());
    }
}

/// Whether every character of a string is a decimal digit.
fn all_digits_exec(s: &str) -> (r: bool)
    ensures
        r == crate::strutil::all_digits(s@),
{
    let n = s.unicode_len();
    let mut i: usize = 0;
    while i < n
        invariant
            0 <= i <= n,
            n == s@.len(),
            forall|j: int| 0 <= j < i ==> '0' <= #[trigger] s@[j] <= '9',
        decreases n - i,
    {
        let c = s.get_char(i);
        if c < '0' || c > '9' {
            assert(!crate::strutil::all_digits(s@)) by {
                assert(s@[i as int] == c);
            }
            return false;
        }
        i = i + 1;
    }
    true
}

impl NVTModels {
    /// Shapes the agency records into [`Agency`] rows; see
    /// [`agencies_spec`].
    pub fn parse_agencies(rows: &Vec<Vec<String>>) -> (r: Vec<Agency>)
        ensures
            r@ == agencies_spec(rows@),
    {
        let mut out: Vec<Agency> = Vec::new();
        let mut i: usize = 0;
        while i < rows.len()
            invariant
                0 <= i <= rows@.len(),
                out@ == agencies_spec(rows@.take(i as int)),
            decreases rows@.len() - i,
        {
            proof {
                assert(rows@.take(i as int + 1).drop_last() =~= rows@.take(i as int));
                assert(rows@.take(i as int + 1).last() == rows@[i as int]);
            }
            let row = &rows[i];
            if row.len() >= 5 {
                out.push(
                    Agency {
                        agency_id: row[0].clone(),
                        agency_name: row[1].clone(),
                        agency_url: row[2].clone(),
                        agency_timezone: row[3].clone(),
                        agency_phone: row[4].clone(),
                    },
                );
            }
            i = i + 1;
        }
        proof {
            assert(rows@.take(rows@.len() as int) =~= rows@);
        }
        out
    }

    /// Shapes the calendar records into [`ServiceCalendar`] rows; see
    /// [`calendar_spec`].
    pub fn parse_calendar(rows: &Vec<Vec<String>>) -> (r: Vec<ServiceCalendar>)
        ensures
            r@ == calendar_spec(rows@),
    {
        let mut out: Vec<ServiceCalendar> = Vec::new();
        let mut i: usize = 0;
        while i < rows.len()
            invariant
                0 <= i <= rows@.len(),
                out@ == calendar_spec(rows@.take(i as int)),
            decreases rows@.len() - i,
        {
            proof {
                assert(rows@.take(i as int + 1).drop_last() =~= rows@.take(i as int));
                assert(rows@.take(i as int + 1).last() == rows@[i as int]);
            }
            let row = &rows[i];
            if row.len() >= 10 {
                out.push(
                    ServiceCalendar {
                        service_id: row[0].clone(),
                        monday: str_eq(row[1].as_str(), "1"),
                        tuesday: str_eq(row[2].as_str(), "1"),
                        wednesday: str_eq(row[3].as_str(), "1"),
                        thursday: str_eq(row[4].as_str(), "1"),
                        friday: str_eq(row[5].as_str(), "1"),
                        saturday: str_eq(row[6].as_str(), "1"),
                        sunday: str_eq(row[7].as_str(), "1"),
                        start_date: row[8].clone(),
                        end_date: row[9].clone(),
                    },
                );
            }
            i = i + 1;
        }
        proof {
            assert(rows@.take(rows@.len() as int) =~= rows@);
        }
        out
    }

    /// Shapes the calendar-date records into [`CalendarDate`] rows; see
    /// [`calendar_dates_spec`].
    pub fn parse_calendar_dates(rows: &Vec<Vec<String>>) -> (r: Vec<CalendarDate>)
        ensures
            r@ == calendar_dates_spec(rows@),
    {
        let mut out: Vec<CalendarDate> = Vec::new();
        let mut i: usize = 0;
        while i < rows.len()
            invariant
                0 <= i <= rows@.len(),
                out@ == calendar_dates_spec(rows@.take(i as int)),
            decreases rows@.len() - i,
        {
            proof {
                assert(rows@.take(i as int + 1).drop_last() =~= rows@.take(i as int));
                assert(rows@.take(i as int + 1).last() == rows@[i as int]);
            }
            let row = &rows[i];
            if row.len() >= 3 {
                match parse_u32_digits(row[2].as_str()) {
                    Some(exc) => {
                        out.push(
                            CalendarDate {
                                service_id: row[0].clone(),
                                date: row[1].clone(),
                                exception_type: exc,
                            },
                        );
                    },
                    None => {},
                }
            }
            i = i + 1;
        }
        proof {
            assert(rows@.take(rows@.len() as int) =~= rows@);
        }
        out
    }

    /// Shapes the transfer records into [`Transfer`] rows; see
    /// [`transfers_spec`].
    pub fn parse_transfers(rows: &Vec<Vec<String>>) -> (r: Vec<Transfer>)
        ensures
            r@ == transfers_spec(rows@),
    {
        let mut out: Vec<Transfer> = Vec::new();
        let mut i: usize = 0;
        while i < rows.len()
            invariant
                0 <= i <= rows@.len(),
                out@ == transfers_spec(rows@.take(i as int)),
            decreases rows@.len() - i,
        {
            proof {
                assert(rows@.take(i as int + 1).drop_last() =~= rows@.take(i as int));
                assert(rows@.take(i as int + 1).last() == rows@[i as int]);
            }
            let row = &rows[i];
            if row.len() >= 3 {
                match parse_u32_digits(row[2].as_str()) {
                    Some(tt) => {
                        let min_time = if row.len() >= 4 {
                            parse_u32_digits(row[3].as_str())
                        } else {
                            None
                        };
                        out.push(
                            Transfer {
                                from_stop_id: row[0].clone(),
                                to_stop_id: row[1].clone(),
                                transfer_type: tt,
                                min_transfer_time: min_time,
                            },
                        );
                    },
                    None => {},
                }
            }
            i = i + 1;
        }
        proof {
            assert(rows@.take(rows@.len() as int) =~= rows@);
        }
        out
    }

    /// Shapes the trip records into [`Trip`] rows; see [`trips_spec`].
    pub fn parse_trips_info(rows: &Vec<Vec<String>>) -> (r: Vec<Trip>)
        ensures
            r@ == trips_spec(rows@),
    {
        let mut out: Vec<Trip> = Vec::new();
        let mut i: usize = 0;
        while i < rows.len()
            invariant
                0 <= i <= rows@.len(),
                out@ == trips_spec(rows@.take(i as int)),
            decreases rows@.len() - i,
        {
            proof {
                assert(rows@.take(i as int + 1).drop_last() =~= rows@.take(i as int));
                assert(rows@.take(i as int + 1).last() == rows@[i as int]);
            }
            let row = &rows[i];
            if row.len() >= 3 {
                let headsign = if row.len() >= 4 && row[3].as_str().unicode_len() > 0 {
                    Some(row[3].clone())
                } else {
                    None
                };
                let direction = if row.len() >= 5 {
                    parse_u32_digits(row[4].as_str())
                } else {
                    None
                };
                out.push(
                    Trip {
                        trip_id: row[2].clone(),
                        route_id: row[0].clone(),
                        service_id: row[1].clone(),
                        trip_headsign: headsign,
                        direction_id: direction,
                    },
                );
            }
            i = i + 1;
        }
        proof {
            assert(rows@.take(rows@.len() as int) =~= rows@);
        }
        out
    }
}

// ===========================================================================
// Stop and route tables. The regional export lays stops out as
// `id,_,name,_,_,lat,lon,_,_,location_type`; the national-rail and urban
// exports as `id,_,name,_,lat,lon,...`. Parent stations (location type "1")
// are excluded where the export marks them, and the regional and national
// tables drop stops whose coordinates are zero.
// ===========================================================================

/// Whether the stop rows `a` carry, entry by entry, the ids, names and
/// coordinates `b`.
pub open spec fn stop_rows_match(
    a: Seq<(String, String, i64, i64)>,
    b: Seq<(Seq<char>, Seq<char>, i64, i64)>,
) -> bool {
    a.len() == b.len() && forall|t: int| 0 <= t < a.len() ==> (#[trigger] a[t]).0@ == b[t].0
        && a[t].1@ == b[t].1 && a[t].2 == b[t].2 && a[t].3 == b[t].3
}

/// The regional stop rows: rows of at least ten fields, not parent
/// stations, with parseable non-zero coordinates in fields five and six.
pub open spec fn transgironde_stops_spec(rows: Seq<Vec<String>>) -> Seq<(String, String, i64, i64)>
    decreases rows.len(),
{
    if rows.len() == 0 {
        Seq::empty()
    } else {
        let rest = transgironde_stops_spec(rows.drop_last());
        let row = rows.last();
        if row@.len() >= 10 && row@[9]@ != "1"@ && coord_spec(row@[5]@) is Some && coord_spec(
            row@[6]@,
        ) is Some && coord_spec(row@[5]@).unwrap() != 0 && coord_spec(row@[6]@).unwrap() != 0 {
            rest.push((row@[0], row@[2], coord_spec(row@[5]@).unwrap(), coord_spec(row@[6]@).unwrap()))
        } else {
            rest
        }
    }
}

/// The national-rail stop rows: rows of at least six fields, not parent
/// stations (a missing location-type field counts as a plain stop), with
/// parseable non-zero coordinates in fields four and five; the id is the
/// canonical trailing code of the raw id.
pub open spec fn sncf_stops_spec(rows: Seq<Vec<String>>) -> Seq<(Seq<char>, Seq<char>, i64, i64)>
    decreases rows.len(),
{
    if rows.len() == 0 {
        Seq::empty()
    } else {
        let rest = sncf_stops_spec(rows.drop_last());
        let row = rows.last();
        let loc: Seq<char> = if row@.len() >= 10 {
            row@[9]@
        } else {
            "0"@
        };
        if row@.len() >= 6 && loc != "1"@ && coord_spec(row@[4]@) is Some && coord_spec(
            row@[5]@,
        ) is Some && coord_spec(row@[4]@).unwrap() != 0 && coord_spec(row@[5]@).unwrap() != 0 {
            rest.push(
                (
                    crate::ids::extract_sncf_stop_id_spec(row@[0]@),
                    row@[2]@,
                    coord_spec(row@[4]@).unwrap(),
                    coord_spec(row@[5]@).unwrap(),
                ),
            )
        } else {
            rest
        }
    }
}

/// The urban stop rows: rows of at least six fields with parseable
/// coordinates in fields four and five; no station filter and no zero
/// filter.
pub open spec fn tbm_stops_spec(rows: Seq<Vec<String>>) -> Seq<(String, String, i64, i64)>
    decreases rows.len(),
{
    if rows.len() == 0 {
        Seq::empty()
    } else {
        let rest = tbm_stops_spec(rows.drop_last());
        let row = rows.last();
        if row@.len() >= 6 && coord_spec(row@[4]@) is Some && coord_spec(row@[5]@) is Some {
            rest.push((row@[0], row@[2], coord_spec(row@[4]@).unwrap(), coord_spec(row@[5]@).unwrap()))
        } else {
            rest
        }
    }
}

/// Whether a character is a hexadecimal digit.
pub open spec fn is_hex_digit(c: char) -> bool {
    ('0' <= c && c <= '9') || ('A' <= c && c <= 'F') || ('a' <= c && c <= 'f')
}

/// Whether every character of `s` is a hexadecimal digit.
pub open spec fn all_hex(s: Seq<char>) -> bool {
    forall|i: int| 0 <= i < s.len() ==> is_hex_digit(#[trigger] s[i])
}

/// Whether every character of a string is a hexadecimal digit.
fn all_hex_exec(s: &str) -> (r: bool)
    ensures
        r == all_hex(s@),
{
    let n = s.unicode_len();
    let mut i: usize = 0;
    while i < n
        invariant
            0 <= i <= n,
            n == s@.len(),
            forall|j: int| 0 <= j < i ==> is_hex_digit(#[trigger] s@[j]),
        decreases n - i,
    {
        let c = s.get_char(i);
        let ok = ('0' <= c && c <= '9') || ('A' <= c && c <= 'F') || ('a' <= c && c <= 'f');
        if !ok {
            assert(!all_hex(s@)) by {
                assert(s@[i as int] == c);
            }
            return false;
        }
        i = i + 1;
    }
    true
}

/// The route-to-color rows: the route id and the color field of each row
/// that carries a six-hex-digit color there.
pub open spec fn route_colors_spec(rows: Seq<Vec<String>>, color_col: int) -> Seq<(String, String)>
    decreases rows.len(),
{
    if rows.len() == 0 {
        Seq::empty()
    } else {
        let rest = route_colors_spec(rows.drop_last(), color_col);
        let row = rows.last();
        if row@.len() > color_col && row@[color_col]@.len() == 6 && all_hex(row@[color_col]@) {
            rest.push((row@[0], row@[color_col]))
        } else {
            rest
        }
    }
}

/// The route-to-agency rows: the route id and agency id of each row whose
/// second field is non-empty.
pub open spec fn route_agencies_spec(rows: Seq<Vec<String>>) -> Seq<(String, String)>
    decreases rows.len(),
{
    if rows.len() == 0 {
        Seq::empty()
    } else {
        let rest = route_agencies_spec(rows.drop_last());
        let row = rows.last();
        if row@.len() >= 2 && row@[1]@.len() > 0 {
            rest.push((row@[0], row@[1]))
        } else {
            rest
        }
    }
}

impl NVTModels {
    /// Shapes the regional stop records into stop rows; see
    /// [`transgironde_stops_spec`].
    pub fn parse_transgironde_stops(rows: &Vec<Vec<String>>) -> (r: Vec<(String, String, i64, i64)>)
        ensures
            r@ == transgironde_stops_spec(rows@),
    {
        let mut out: Vec<(String, String, i64, i64)> = Vec::new();
        let mut i: usize = 0;
        while i < rows.len()
            invariant
                0 <= i <= rows@.len(),
                out@ == transgironde_stops_spec(rows@.take(i as int)),
            decreases rows@.len() - i,
        {
            proof {
                assert(rows@.take(i as int + 1).drop_last() =~= rows@.take(i as int));
                assert(rows@.take(i as int + 1).last() == rows@[i as int]);
            }
            let row = &rows[i];
            if row.len() >= 10 && !str_eq(row[9].as_str(), "1") {
                match (parse_coord(row[5].as_str()), parse_coord(row[6].as_str())) {
                    (Some(lat), Some(lon)) => {
                        if lat != 0 && lon != 0 {
                            out.push((row[0].clone(), row[2].clone(), lat, lon));
                        }
                    },
                    _ => {},
                }
            }
            i = i + 1;
        }
        proof {
            assert(rows@.take(rows@.len() as int) =~= rows@);
        }
        out
    }

    /// Shapes the national-rail stop records into stop rows; see
    /// [`sncf_stops_spec`].
    pub fn parse_sncf_stops(rows: &Vec<Vec<String>>) -> (r: Vec<(String, String, i64, i64)>)
        ensures
            stop_rows_match(r@, sncf_stops_spec(rows@)),
    {
        proof {
            reveal_strlit("0");
            reveal_strlit("1");
        }
        let mut out: Vec<(String, String, i64, i64)> = Vec::new();
        let mut i: usize = 0;
        while i < rows.len()
            invariant
                0 <= i <= rows@.len(),
                stop_rows_match(out@, sncf_stops_spec(rows@.take(i as int))),
            decreases rows@.len() - i,
        {
            proof {
                reveal_strlit("0");
                reveal_strlit("1");
                assert("0"@[0] == '0');
                assert("1"@[0] == '1');
                assert("0"@ != "1"@);
                assert(rows@.take(i as int + 1).drop_last() =~= rows@.take(i as int));
                assert(rows@.take(i as int + 1).last() == rows@[i as int]);
            }
            let row = &rows[i];
            let ghost before = out@;
            if row.len() >= 6 {
                let loc_is_station = if row.len() >= 10 {
                    str_eq(row[9].as_str(), "1")
                } else {
                    false
                };
                if !loc_is_station {
                    match (parse_coord(row[4].as_str()), parse_coord(row[5].as_str())) {
                        (Some(lat), Some(lon)) => {
                            if lat != 0 && lon != 0 {
                                match Self::extract_sncf_stop_id(row[0].as_str()) {
                                    Some(sid) => {
                                        out.push((sid, row[2].clone(), lat, lon));
                                    },
                                    None => {},
                                }
                            }
                        },
                        _ => {},
                    }
                }
            }
            proof {
                assert(stop_rows_match(out@, sncf_stops_spec(rows@.take(i as int + 1))));
            }
            i = i + 1;
        }
        proof {
            assert(rows@.take(rows@.len() as int) =~= rows@);
        }
        out
    }

    /// Shapes the urban stop records into stop rows; see [`tbm_stops_spec`].
    pub fn parse_tbm_stops(rows: &Vec<Vec<String>>) -> (r: Vec<(String, String, i64, i64)>)
        ensures
            r@ == tbm_stops_spec(rows@),
    {
        let mut out: Vec<(String, String, i64, i64)> = Vec::new();
        let mut i: usize = 0;
        while i < rows.len()
            invariant
                0 <= i <= rows@.len(),
                out@ == tbm_stops_spec(rows@.take(i as int)),
            decreases rows@.len() - i,
        {
            proof {
                assert(rows@.take(i as int + 1).drop_last() =~= rows@.take(i as int));
                assert(rows@.take(i as int + 1).last() == rows@[i as int]);
            }
            let row = &rows[i];
            if row.len() >= 6 {
                match (parse_coord(row[4].as_str()), parse_coord(row[5].as_str())) {
                    (Some(lat), Some(lon)) => {
                        out.push((row[0].clone(), row[2].clone(), lat, lon));
                    },
                    _ => {},
                }
            }
            i = i + 1;
        }
        proof {
            assert(rows@.take(rows@.len() as int) =~= rows@);
        }
        out
    }

    /// Extracts the route-to-color table, the color standing in the given
    /// field; see [`route_colors_spec`].
    pub fn parse_route_colors(rows: &Vec<Vec<String>>, color_col: usize) -> (r: Vec<
        (String, String),
    >)
        ensures
            r@ == route_colors_spec(rows@, color_col as int),
    {
        let mut out: Vec<(String, String)> = Vec::new();
        let mut i: usize = 0;
        while i < rows.len()
            invariant
                0 <= i <= rows@.len(),
                out@ == route_colors_spec(rows@.take(i as int), color_col as int),
            decreases rows@.len() - i,
        {
            proof {
                assert(rows@.take(i as int + 1).drop_last() =~= rows@.take(i as int));
                assert(rows@.take(i as int + 1).last() == rows@[i as int]);
            }
            let row = &rows[i];
            if row.len() > color_col && row[color_col].as_str().unicode_len() == 6 && all_hex_exec(
                row[color_col].as_str(),
            ) {
                out.push((row[0].clone(), row[color_col].clone()));
            }
            i = i + 1;
        }
        proof {
            assert(rows@.take(rows@.len() as int) =~= rows@);
        }
        out
    }

    /// Extracts the route-to-agency table; see [`route_agencies_spec`].
    pub fn parse_route_agencies(rows: &Vec<Vec<String>>) -> (r: Vec<(String, String)>)
        ensures
            r@ == route_agencies_spec(rows@),
    {
        let mut out: Vec<(String, String)> = Vec::new();
        let mut i: usize = 0;
        while i < rows.len()
            invariant
                0 <= i <= rows@.len(),
                out@ == route_agencies_spec(rows@.take(i as int)),
            decreases rows@.len() - i,
        {
            proof {
                assert(rows@.take(i as int + 1).drop_last() =~= rows@.take(i as int));
                assert(rows@.take(i as int + 1).last() == rows@[i as int]);
            }
            let row = &rows[i];
            if row.len() >= 2 && row[1].as_str().unicode_len() > 0 {
                out.push((row[0].clone(), row[1].clone()));
            }
            i = i + 1;
        }
        proof {
            assert(rows@.take(rows@.len() as int) =~= rows@);
        }
        out
    }

    /// Extracts the regional route tables: colors and agencies; the color
    /// stands in field seven.
    pub fn parse_transgironde_routes(rows: &Vec<Vec<String>>) -> (r: (
        Vec<(String, String)>,
        Vec<(String, String)>,
    ))
        ensures
            r.0@ == route_colors_spec(rows@, 7),
            r.1@ == route_agencies_spec(rows@),
    {
        (Self::parse_route_colors(rows, 7), Self::parse_route_agencies(rows))
    }

    /// Extracts the national-rail route colors; the color stands in field
    /// seven.
    pub fn parse_sncf_routes(rows: &Vec<Vec<String>>) -> (r: Vec<(String, String)>)
        ensures
            r@ == route_colors_spec(rows@, 7),
    {
        Self::parse_route_colors(rows, 7)
    }
}

// ===========================================================================
// Grouped tables: shapes grouped by shape id and sorted by sequence,
// route-to-shape-id lists deduplicated and sorted, stop times grouped by
// stop id and sorted by arrival time.
// ===========================================================================

/// The valid shape rows: id and point of each row of at least four fields
/// whose coordinates and sequence number parse, the fields standing in the
/// given columns.
pub open spec fn shape_rows_spec(
    rows: Seq<Vec<String>>,
    seqc: int,
    latc: int,
    lonc: int,
) -> Seq<(String, ShapePoint)>
    decreases rows.len(),
{
    if rows.len() == 0 {
        Seq::empty()
    } else {
        let rest = shape_rows_spec(rows.drop_last(), seqc, latc, lonc);
        let row = rows.last();
        if row@.len() >= 4 && coord_spec(row@[latc]@) is Some && coord_spec(row@[lonc]@) is Some
            && crate::strutil::parse_u32_spec(row@[seqc]@) is Some {
            rest.push(
                (
                    row@[0],
                    ShapePoint {
                        latitude: coord_spec(row@[latc]@).unwrap(),
                        longitude: coord_spec(row@[lonc]@).unwrap(),
                        sequence: crate::strutil::parse_u32_spec(row@[seqc]@).unwrap(),
                    },
                ),
            )
        } else {
            rest
        }
    }
}

/// The valid route-to-shape rows: route id and shape id of each row whose
/// shape field is present and non-empty.
pub open spec fn route_shape_rows_spec(rows: Seq<Vec<String>>, shape_col: int) -> Seq<
    (String, String),
>
    decreases rows.len(),
{
    if rows.len() == 0 {
        Seq::empty()
    } else {
        let rest = route_shape_rows_spec(rows.drop_last(), shape_col);
        let row = rows.last();
        if row@.len() > shape_col && row@[shape_col]@.len() > 0 {
            rest.push((row@[0], row@[shape_col]))
        } else {
            rest
        }
    }
}

/// The valid stop-time rows: each row of at least five fields whose stop
/// sequence parses, laid out as `trip_id, arrival_time, departure_time,
/// stop_id, stop_sequence, stop_headsign`.
pub open spec fn stop_time_rows_spec(rows: Seq<Vec<String>>) -> Seq<StopTime>
    decreases rows.len(),
{
    if rows.len() == 0 {
        Seq::empty()
    } else {
        let rest = stop_time_rows_spec(rows.drop_last());
        let row = rows.last();
        if row@.len() >= 5 && crate::strutil::parse_u32_spec(row@[4]@) is Some {
            rest.push(
                StopTime {
                    trip_id: row@[0],
                    arrival_time: row@[1],
                    departure_time: row@[2],
                    stop_id: row@[3],
                    stop_sequence: crate::strutil::parse_u32_spec(row@[4]@).unwrap(),
                    stop_headsign: if row@.len() >= 6 && row@[5]@.len() > 0 {
                        Some(row@[5])
                    } else {
                        None
                    },
                },
            )
        } else {
            rest
        }
    }
}

/// The points among `flat` keyed by `key`, in order.
pub open spec fn points_for(flat: Seq<(String, ShapePoint)>, key: Seq<char>) -> Seq<ShapePoint>
    decreases flat.len(),
{
    if flat.len() == 0 {
        Seq::empty()
    } else {
        let rest = points_for(flat.drop_last(), key);
        if flat.last().0@ == key {
            rest.push(flat.last().1)
        } else {
            rest
        }
    }
}

/// The shape ids among `flat` keyed by `key`, in order.
pub open spec fn ids_for(flat: Seq<(String, String)>, key: Seq<char>) -> Seq<String>
    decreases flat.len(),
{
    if flat.len() == 0 {
        Seq::empty()
    } else {
        let rest = ids_for(flat.drop_last(), key);
        if flat.last().0@ == key {
            rest.push(flat.last().1)
        } else {
            rest
        }
    }
}

/// The stop-time rows among `flat` for stop `key`, in order.
pub open spec fn times_for(flat: Seq<StopTime>, key: Seq<char>) -> Seq<StopTime>
    decreases flat.len(),
{
    if flat.len() == 0 {
        Seq::empty()
    } else {
        let rest = times_for(flat.drop_last(), key);
        if flat.last().stop_id@ == key {
            rest.push(flat.last())
        } else {
            rest
        }
    }
}

/// Whether some pair of `flat` is keyed by the view `x`.
pub open spec fn key_in_pairs<V>(flat: Seq<(String, V)>, x: Seq<char>) -> bool {
    exists|k: int| 0 <= k < flat.len() && (#[trigger] flat[k]).0@ == x
}

/// Whether some row of `flat` has the stop id view `x`.
pub open spec fn key_in_stop_times(flat: Seq<StopTime>, x: Seq<char>) -> bool {
    exists|k: int| 0 <= k < flat.len() && (#[trigger] flat[k]).stop_id@ == x
}

/// Whether `keys` are exactly the distinct first components of `flat`,
/// compared by view.
pub open spec fn covers_pair_keys<V>(keys: Seq<String>, flat: Seq<(String, V)>) -> bool {
    &&& forall|a: int| 0 <= a < keys.len() ==> key_in_pairs(flat, (#[trigger] keys[a])@)
    &&& forall|k: int| 0 <= k < flat.len() ==> crate::sortutil::contains_string_view(
        keys,
        (#[trigger] flat[k]).0@,
    )
}

/// Whether `keys` are exactly the distinct stop ids of `flat`, compared by
/// view.
pub open spec fn covers_stop_keys(keys: Seq<String>, flat: Seq<StopTime>) -> bool {
    &&& forall|a: int| 0 <= a < keys.len() ==> key_in_stop_times(flat, (#[trigger] keys[a])@)
    &&& forall|k: int| 0 <= k < flat.len() ==> crate::sortutil::contains_string_view(
        keys,
        (#[trigger] flat[k]).stop_id@,
    )
}

/// Deduplicated keys drawn from the key column of `flat` cover exactly its
/// keys.
proof fn lemma_keys_cover_pairs<V>(keys: Seq<String>, kv: Seq<String>, flat: Seq<(String, V)>)
    requires
        kv.len() == flat.len(),
        forall|k: int| 0 <= k < kv.len() ==> kv[k] == (#[trigger] flat[k]).0,
        crate::sortutil::drawn_from(keys, kv),
        forall|k: int| 0 <= k < kv.len() ==> crate::sortutil::contains_string_view(
            keys,
            (#[trigger] kv[k])@,
        ),
    ensures
        covers_pair_keys(keys, flat),
{
    assert forall|a: int| 0 <= a < keys.len() implies key_in_pairs(
        flat,
        (#[trigger] keys[a])@,
    ) by {
        let k = choose|k: int| 0 <= k < kv.len() && #[trigger] keys[a] == kv[k];
        assert(kv[k] == flat[k].0);
        assert(flat[k].0@ == keys[a]@);
    }
    assert forall|k: int| 0 <= k < flat.len() implies crate::sortutil::contains_string_view(
        keys,
        (#[trigger] flat[k]).0@,
    ) by {
        assert(kv[k] == flat[k].0);
        assert(crate::sortutil::contains_string_view(keys, kv[k]@));
    }
}

/// Deduplicated keys drawn from the stop ids of `flat` cover exactly its
/// stop ids.
proof fn lemma_keys_cover_stop_times(keys: Seq<String>, kv: Seq<String>, flat: Seq<StopTime>)
    requires
        kv.len() == flat.len(),
        forall|k: int| 0 <= k < kv.len() ==> kv[k] == (#[trigger] flat[k]).stop_id,
        crate::sortutil::drawn_from(keys, kv),
        forall|k: int| 0 <= k < kv.len() ==> crate::sortutil::contains_string_view(
            keys,
            (#[trigger] kv[k])@,
        ),
    ensures
        covers_stop_keys(keys, flat),
{
    assert forall|a: int| 0 <= a < keys.len() implies key_in_stop_times(
        flat,
        (#[trigger] keys[a])@,
    ) by {
        let k = choose|k: int| 0 <= k < kv.len() && #[trigger] keys[a] == kv[k];
        assert(kv[k] == flat[k].stop_id);
        assert(flat[k].stop_id@ == keys[a]@);
    }
    assert forall|k: int| 0 <= k < flat.len() implies crate::sortutil::contains_string_view(
        keys,
        (#[trigger] flat[k]).stop_id@,
    ) by {
        assert(kv[k] == flat[k].stop_id);
        assert(crate::sortutil::contains_string_view(keys, kv[k]@));
    }
}

/// Key coverage carries from the key list to a table whose keys match it.
proof fn lemma_table_keys_cover<V>(tk: Seq<String>, keys: Seq<String>, flat: Seq<(String, V)>)
    requires
        tk.len() == keys.len(),
        forall|a: int| 0 <= a < tk.len() ==> (#[trigger] tk[a])@ == keys[a]@,
        covers_pair_keys(keys, flat),
    ensures
        covers_pair_keys(tk, flat),
{
    assert forall|a: int| 0 <= a < tk.len() implies key_in_pairs(flat, (#[trigger] tk[a])@) by {
        assert(key_in_pairs(flat, keys[a]@));
        assert(tk[a]@ == keys[a]@);
    }
    assert forall|k: int| 0 <= k < flat.len() implies crate::sortutil::contains_string_view(
        tk,
        (#[trigger] flat[k]).0@,
    ) by {
        assert(crate::sortutil::contains_string_view(keys, flat[k].0@));
        let a = choose|a: int| 0 <= a < keys.len() && (#[trigger] keys[a])@ == flat[k].0@;
        assert(tk[a]@ == flat[k].0@);
    }
}

/// Key coverage carries from the key list to a stop-times table whose keys
/// match it.
proof fn lemma_stop_table_keys_cover(tk: Seq<String>, keys: Seq<String>, flat: Seq<StopTime>)
    requires
        tk.len() == keys.len(),
        forall|a: int| 0 <= a < tk.len() ==> (#[trigger] tk[a])@ == keys[a]@,
        covers_stop_keys(keys, flat),
    ensures
        covers_stop_keys(tk, flat),
{
    assert forall|a: int| 0 <= a < tk.len() implies key_in_stop_times(
        flat,
        (#[trigger] tk[a])@,
    ) by {
        assert(key_in_stop_times(flat, keys[a]@));
        assert(tk[a]@ == keys[a]@);
    }
    assert forall|k: int| 0 <= k < flat.len() implies crate::sortutil::contains_string_view(
        tk,
        (#[trigger] flat[k]).stop_id@,
    ) by {
        assert(crate::sortutil::contains_string_view(keys, flat[k].stop_id@));
        let a = choose|a: int| 0 <= a < keys.len() && (#[trigger] keys[a])@ == flat[k].stop_id@;
        assert(tk[a]@ == flat[k].stop_id@);
    }
}

/// The keys of an association list, in order.
fn keys_of_pairs<V>(flat: &Vec<(String, V)>) -> (r: Vec<String>)
    ensures
        r@.len() == flat@.len(),
        forall|k: int| 0 <= k < r@.len() ==> r@[k] == (#[trigger] flat@[k]).0,
{
    let mut out: Vec<String> = Vec::new();
    let mut i: usize = 0;
    while i < flat.len()
        invariant
            0 <= i <= flat@.len(),
            out@.len() == i,
            forall|k: int| 0 <= k < i ==> out@[k] == (#[trigger] flat@[k]).0,
        decreases flat@.len() - i,
    {
        out.push(flat[i].0.clone());
        i = i + 1;
    }
    out
}

/// The stop ids of stop-time rows, in order.
fn keys_of_stop_times(flat: &Vec<StopTime>) -> (r: Vec<String>)
    ensures
        r@.len() == flat@.len(),
        forall|k: int| 0 <= k < r@.len() ==> r@[k] == (#[trigger] flat@[k]).stop_id,
{
    let mut out: Vec<String> = Vec::new();
    let mut i: usize = 0;
    while i < flat.len()
        invariant
            0 <= i <= flat@.len(),
            out@.len() == i,
            forall|k: int| 0 <= k < i ==> out@[k] == (#[trigger] flat@[k]).stop_id,
        decreases flat@.len() - i,
    {
        out.push(flat[i].stop_id.clone());
        i = i + 1;
    }
    out
}

/// Collects the points keyed by `key`, in order; see [`points_for`].
fn filter_points(flat: &Vec<(String, ShapePoint)>, key: &str) -> (r: Vec<ShapePoint>)
    ensures
        r@ == points_for(flat@, key@),
{
    let mut out: Vec<ShapePoint> = Vec::new();
    let mut i: usize = 0;
    while i < flat.len()
        invariant
            0 <= i <= flat@.len(),
            out@ == points_for(flat@.take(i as int), key@),
        decreases flat@.len() - i,
    {
        proof {
            assert(flat@.take(i as int + 1).drop_last() =~= flat@.take(i as int));
            assert(flat@.take(i as int + 1).last() == flat@[i as int]);
        }
        if str_eq(flat[i].0.as_str(), key) {
            out.push(flat[i].1);
        }
        i = i + 1;
    }
    proof {
        assert(flat@.take(flat@.len() as int) =~= flat@);
    }
    out
}

/// Collects the shape ids keyed by `key`, in order; see [`ids_for`].
fn filter_ids(flat: &Vec<(String, String)>, key: &str) -> (r: Vec<String>)
    ensures
        r@ == ids_for(flat@, key@),
{
    let mut out: Vec<String> = Vec::new();
    let mut i: usize = 0;
    while i < flat.len()
        invariant
            0 <= i <= flat@.len(),
            out@ == ids_for(flat@.take(i as int), key@),
        decreases flat@.len() - i,
    {
        proof {
            assert(flat@.take(i as int + 1).drop_last() =~= flat@.take(i as int));
            assert(flat@.take(i as int + 1).last() == flat@[i as int]);
        }
        if str_eq(flat[i].0.as_str(), key) {
            out.push(flat[i].1.clone());
        }
        i = i + 1;
    }
    proof {
        assert(flat@.take(flat@.len() as int) =~= flat@);
    }
    out
}

/// Collects the stop-time rows for stop `key`, in order; see [`times_for`].
fn filter_times(flat: &Vec<StopTime>, key: &str) -> (r: Vec<StopTime>)
    ensures
        r@ == times_for(flat@, key@),
{
    let mut out: Vec<StopTime> = Vec::new();
    let mut i: usize = 0;
    while i < flat.len()
        invariant
            0 <= i <= flat@.len(),
            out@ == times_for(flat@.take(i as int), key@),
        decreases flat@.len() - i,
    {
        proof {
            assert(flat@.take(i as int + 1).drop_last() =~= flat@.take(i as int));
            assert(flat@.take(i as int + 1).last() == flat@[i as int]);
        }
        if str_eq(flat[i].stop_id.as_str(), key) {
            out.push(flat[i].duplicate());
        }
        i = i + 1;
    }
    proof {
        assert(flat@.take(flat@.len() as int) =~= flat@);
    }
    out
}

/// A well-formed shape table built from the flat rows `flat`: one entry per
/// distinct shape id, each group sorted ascending by sequence number and
/// holding exactly that id's points.
pub open spec fn shape_table_ok(
    table: Seq<(String, Vec<ShapePoint>)>,
    flat: Seq<(String, ShapePoint)>,
) -> bool {
    &&& forall|g1: int, g2: int| 0 <= g1 < g2 < table.len() ==> table[g1].0@ != table[g2].0@
    &&& forall|g: int| 0 <= g < table.len() ==> crate::sortutil::sorted_seq(
        (#[trigger] table[g]).1@,
    ) && table[g].1@.to_multiset() == points_for(flat, table[g].0@).to_multiset()
    &&& covers_pair_keys(table.map_values(|e: (String, Vec<ShapePoint>)| e.0), flat)
}

/// Groups flat shape rows by shape id and sorts each group by sequence.
#[verifier::rlimit(60)]
pub fn group_shapes(flat: &Vec<(String, ShapePoint)>) -> (r: Vec<(String, Vec<ShapePoint>)>)
    ensures
        shape_table_ok(r@, flat@),
        flat@.len() == 0 ==> r@.len() == 0,
{
    let kv = keys_of_pairs(flat);
    let keys = crate::sortutil::dedup_strings_in_order(kv);
    proof {
        lemma_keys_cover_pairs(keys@, kv@, flat@);
    }
    let mut out: Vec<(String, Vec<ShapePoint>)> = Vec::new();
    let mut g: usize = 0;
    while g < keys.len()
        invariant
            0 <= g <= keys@.len(),
            out@.len() == g,
            forall|a: int, b: int| 0 <= a < b < keys@.len() ==> keys@[a]@ != keys@[b]@,
            covers_pair_keys(keys@, flat@),
            forall|a: int| 0 <= a < g ==> (#[trigger] out@[a]).0@ == keys@[a]@,
            forall|a: int| 0 <= a < g ==> crate::sortutil::sorted_seq((#[trigger] out@[a]).1@)
                && out@[a].1@.to_multiset() == points_for(flat@, out@[a].0@).to_multiset(),
        decreases keys@.len() - g,
    {
        let pts = crate::sortutil::sort_vec(filter_points(flat, keys[g].as_str()));
        out.push((keys[g].clone(), pts));
        g = g + 1;
    }
    proof {
        lemma_table_keys_cover(out@.map_values(|e: (String, Vec<ShapePoint>)| e.0), keys@, flat@);
        if flat@.len() == 0 && keys@.len() > 0 {
            let k = choose|k: int| 0 <= k < kv@.len() && #[trigger] keys@[0] == kv@[k];
            assert(false);
        }
    }
    out
}

/// A well-formed route-to-shapes table built from the flat rows `flat`: one
/// entry per distinct route id, each list sorted, duplicate-free, and
/// holding exactly the views of that route's shape ids.
pub open spec fn route_shapes_ok(
    table: Seq<(String, Vec<String>)>,
    flat: Seq<(String, String)>,
) -> bool {
    &&& forall|g1: int, g2: int| 0 <= g1 < g2 < table.len() ==> table[g1].0@ != table[g2].0@
    &&& forall|g: int| 0 <= g < table.len() ==> crate::sortutil::sorted_seq(
        (#[trigger] table[g]).1@,
    )
    &&& forall|g: int, i: int, j: int|
        0 <= g < table.len() && 0 <= i < j < table[g].1@.len() ==> (#[trigger] table[g].1@[i])@
            != (#[trigger] table[g].1@[j])@
    &&& forall|g: int, i: int| 0 <= g < table.len() && 0 <= i < (#[trigger] table[g]).1@.len()
        ==> crate::sortutil::contains_string_view(
        ids_for(flat, table[g].0@),
        (#[trigger] table[g].1@[i])@,
    )
    &&& forall|g: int, i: int|
        0 <= g < table.len() && 0 <= i < ids_for(flat, (#[trigger] table[g]).0@).len()
            ==> crate::sortutil::contains_string_view(
            table[g].1@,
            (#[trigger] ids_for(flat, table[g].0@)[i])@,
        )
    &&& covers_pair_keys(table.map_values(|e: (String, Vec<String>)| e.0), flat)
}

/// Groups flat route-to-shape rows by route id; each route's shape ids are
/// sorted and deduplicated.
#[verifier::rlimit(60)]
pub fn group_route_shapes(flat: &Vec<(String, String)>) -> (r: Vec<(String, Vec<String>)>)
    ensures
        route_shapes_ok(r@, flat@),
        flat@.len() == 0 ==> r@.len() == 0,
{
    let kv = keys_of_pairs(flat);
    let keys = crate::sortutil::dedup_strings_in_order(kv);
    proof {
        lemma_keys_cover_pairs(keys@, kv@, flat@);
    }
    let mut out: Vec<(String, Vec<String>)> = Vec::new();
    let mut g: usize = 0;
    while g < keys.len()
        invariant
            0 <= g <= keys@.len(),
            out@.len() == g,
            forall|a: int, b: int| 0 <= a < b < keys@.len() ==> keys@[a]@ != keys@[b]@,
            covers_pair_keys(keys@, flat@),
            forall|a: int| 0 <= a < g ==> (#[trigger] out@[a]).0@ == keys@[a]@,
            forall|a: int| 0 <= a < g ==> crate::sortutil::sorted_seq((#[trigger] out@[a]).1@),
            forall|a: int, i: int, j: int|
                0 <= a < g && 0 <= i < j < out@[a].1@.len() ==> (#[trigger] out@[a].1@[i])@
                    != (#[trigger] out@[a].1@[j])@,
            forall|a: int, i: int| 0 <= a < g && 0 <= i < (#[trigger] out@[a]).1@.len()
                ==> crate::sortutil::contains_string_view(
                ids_for(flat@, out@[a].0@),
                (#[trigger] out@[a].1@[i])@,
            ),
            forall|a: int, i: int|
                0 <= a < g && 0 <= i < ids_for(flat@, (#[trigger] out@[a]).0@).len()
                    ==> crate::sortutil::contains_string_view(
                    out@[a].1@,
                    (#[trigger] ids_for(flat@, out@[a].0@)[i])@,
                ),
        decreases keys@.len() - g,
    {
        let raw = filter_ids(flat, keys[g].as_str());
        let ghost raw0 = raw@;
        let sorted = crate::sortutil::sort_vec(raw);
        proof {
            broadcast use vstd::seq_lib::group_to_multiset_ensures;

            assert forall|i: int| 0 <= i < sorted@.len() implies exists|k: int|
                0 <= k < raw0.len() && (#[trigger] sorted@[i]) == raw0[k] by {
                assert(sorted@.to_multiset().contains(sorted@[i]));
                assert(raw0.to_multiset().contains(sorted@[i]));
            }
            assert forall|k: int| 0 <= k < raw0.len() implies exists|i: int|
                0 <= i < sorted@.len() && (#[trigger] raw0[k]) == sorted@[i] by {
                assert(raw0.to_multiset().contains(raw0[k]));
                assert(sorted@.to_multiset().contains(raw0[k]));
            }
        }
        let ids = crate::sortutil::dedup_sorted_strings(sorted);
        out.push((keys[g].clone(), ids));
        g = g + 1;
    }
    proof {
        lemma_table_keys_cover(out@.map_values(|e: (String, Vec<String>)| e.0), keys@, flat@);
        if flat@.len() == 0 && keys@.len() > 0 {
            let k = choose|k: int| 0 <= k < kv@.len() && #[trigger] keys@[0] == kv@[k];
            assert(false);
        }
    }
    out
}

/// A well-formed stop-times table built from the flat rows `flat`: one
/// entry per distinct stop id, each group sorted ascending by arrival time
/// and holding exactly that stop's rows.
pub open spec fn stop_times_table_ok(
    table: Seq<(String, Vec<StopTime>)>,
    flat: Seq<StopTime>,
) -> bool {
    &&& forall|g1: int, g2: int| 0 <= g1 < g2 < table.len() ==> table[g1].0@ != table[g2].0@
    &&& forall|g: int| 0 <= g < table.len() ==> crate::sortutil::sorted_seq(
        (#[trigger] table[g]).1@,
    ) && table[g].1@.to_multiset() == times_for(flat, table[g].0@).to_multiset()
    &&& covers_stop_keys(table.map_values(|e: (String, Vec<StopTime>)| e.0), flat)
}

/// Groups flat stop-time rows by stop id and sorts each group by arrival
/// time.
#[verifier::rlimit(60)]
pub fn group_stop_times(flat: &Vec<StopTime>) -> (r: Vec<(String, Vec<StopTime>)>)
    ensures
        stop_times_table_ok(r@, flat@),
        flat@.len() == 0 ==> r@.len() == 0,
{
    let kv = keys_of_stop_times(flat);
    let keys = crate::sortutil::dedup_strings_in_order(kv);
    proof {
        lemma_keys_cover_stop_times(keys@, kv@, flat@);
    }
    let mut out: Vec<(String, Vec<StopTime>)> = Vec::new();
    let mut g: usize = 0;
    while g < keys.len()
        invariant
            0 <= g <= keys@.len(),
            out@.len() == g,
            forall|a: int, b: int| 0 <= a < b < keys@.len() ==> keys@[a]@ != keys@[b]@,
            covers_stop_keys(keys@, flat@),
            forall|a: int| 0 <= a < g ==> (#[trigger] out@[a]).0@ == keys@[a]@,
            forall|a: int| 0 <= a < g ==> crate::sortutil::sorted_seq((#[trigger] out@[a]).1@)
                && out@[a].1@.to_multiset() == times_for(flat@, out@[a].0@).to_multiset(),
        decreases keys@.len() - g,
    {
        let rows = crate::sortutil::sort_vec(filter_times(flat, keys[g].as_str()));
        out.push((keys[g].clone(), rows));
        g = g + 1;
    }
    proof {
        lemma_stop_table_keys_cover(
            out@.map_values(|e: (String, Vec<StopTime>)| e.0),
            keys@,
            flat@,
        );
        if flat@.len() == 0 && keys@.len() > 0 {
            let k = choose|k: int| 0 <= k < kv@.len() && #[trigger] keys@[0] == kv@[k];
            assert(false);
        }
    }
    out
}

impl NVTModels {
    /// Extracts the valid shape rows, fields laid out as
    /// `shape_id, shape_pt_sequence, shape_pt_lat, shape_pt_lon`.
    pub fn parse_transgironde_shape_rows(rows: &Vec<Vec<String>>) -> (r: Vec<(String, ShapePoint)>)
        ensures
            r@ == shape_rows_spec(rows@, 1, 2, 3),
    {
        Self::parse_shape_rows(rows, 1, 2, 3)
    }

    /// Extracts the valid shape rows, fields laid out as
    /// `shape_id, shape_pt_lat, shape_pt_lon, shape_pt_sequence`.
    pub fn parse_sncf_shape_rows(rows: &Vec<Vec<String>>) -> (r: Vec<(String, ShapePoint)>)
        ensures
            r@ == shape_rows_spec(rows@, 3, 1, 2),
    {
        Self::parse_shape_rows(rows, 3, 1, 2)
    }

    /// Extracts the valid shape rows with the given column layout; see
    /// [`shape_rows_spec`].
    pub fn parse_shape_rows(rows: &Vec<Vec<String>>, seqc: usize, latc: usize, lonc: usize) -> (r:
        Vec<(String, ShapePoint)>)
        requires
            seqc < 4,
            latc < 4,
            lonc < 4,
        ensures
            r@ == shape_rows_spec(rows@, seqc as int, latc as int, lonc as int),
    {
        let mut out: Vec<(String, ShapePoint)> = Vec::new();
        let mut i: usize = 0;
        while i < rows.len()
            invariant
                seqc < 4,
                latc < 4,
                lonc < 4,
                0 <= i <= rows@.len(),
                out@ == shape_rows_spec(rows@.take(i as int), seqc as int, latc as int, lonc as int),
            decreases rows@.len() - i,
        {
            proof {
                assert(rows@.take(i as int + 1).drop_last() =~= rows@.take(i as int));
                assert(rows@.take(i as int + 1).last() == rows@[i as int]);
            }
            let row = &rows[i];
            if row.len() >= 4 {
                match (
                    parse_coord(row[latc].as_str()),
                    parse_coord(row[lonc].as_str()),
                    parse_u32_digits(row[seqc].as_str()),
                ) {
                    (Some(lat), Some(lon), Some(sq)) => {
                        out.push(
                            (row[0].clone(), ShapePoint { latitude: lat, longitude: lon, sequence: sq }),
                        );
                    },
                    _ => {},
                }
            }
            i = i + 1;
        }
        proof {
            assert(rows@.take(rows@.len() as int) =~= rows@);
        }
        out
    }

    /// Extracts the valid route-to-shape rows, the shape id standing in the
    /// given field; see [`route_shape_rows_spec`].
    pub fn parse_route_shape_rows(rows: &Vec<Vec<String>>, shape_col: usize) -> (r: Vec<
        (String, String),
    >)
        requires
            shape_col >= 1,
        ensures
            r@ == route_shape_rows_spec(rows@, shape_col as int),
    {
        let mut out: Vec<(String, String)> = Vec::new();
        let mut i: usize = 0;
        while i < rows.len()
            invariant
                shape_col >= 1,
                0 <= i <= rows@.len(),
                out@ == route_shape_rows_spec(rows@.take(i as int), shape_col as int),
            decreases rows@.len() - i,
        {
            proof {
                assert(rows@.take(i as int + 1).drop_last() =~= rows@.take(i as int));
                assert(rows@.take(i as int + 1).last() == rows@[i as int]);
            }
            let row = &rows[i];
            if row.len() > shape_col && row[shape_col].as_str().unicode_len() > 0 {
                out.push((row[0].clone(), row[shape_col].clone()));
            }
            i = i + 1;
        }
        proof {
            assert(rows@.take(rows@.len() as int) =~= rows@);
        }
        out
    }

    /// Extracts the valid stop-time rows; see [`stop_time_rows_spec`].
    pub fn parse_stop_time_rows(rows: &Vec<Vec<String>>) -> (r: Vec<StopTime>)
        ensures
            r@ == stop_time_rows_spec(rows@),
    {
        let mut out: Vec<StopTime> = Vec::new();
        let mut i: usize = 0;
        while i < rows.len()
            invariant
                0 <= i <= rows@.len(),
                out@ == stop_time_rows_spec(rows@.take(i as int)),
            decreases rows@.len() - i,
        {
            proof {
                assert(rows@.take(i as int + 1).drop_last() =~= rows@.take(i as int));
                assert(rows@.take(i as int + 1).last() == rows@[i as int]);
            }
            let row = &rows[i];
            if row.len() >= 5 {
                match parse_u32_digits(row[4].as_str()) {
                    Some(sq) => {
                        let headsign = if row.len() >= 6 && row[5].as_str().unicode_len() > 0 {
                            Some(row[5].clone())
                        } else {
                            None
                        };
                        out.push(
                            StopTime {
                                trip_id: row[0].clone(),
                                arrival_time: row[1].clone(),
                                departure_time: row[2].clone(),
                                stop_id: row[3].clone(),
                                stop_sequence: sq,
                                stop_headsign: headsign,
                            },
                        );
                    },
                    None => {},
                }
            }
            i = i + 1;
        }
        proof {
            assert(rows@.take(rows@.len() as int) =~= rows@);
        }
        out
    }

    /// Parses the shape table with the regional column layout and groups it.
    pub fn parse_transgironde_shapes(rows: &Vec<Vec<String>>) -> (r: Vec<
        (String, Vec<ShapePoint>),
    >)
        ensures
            shape_table_ok(r@, shape_rows_spec(rows@, 1, 2, 3)),
            rows@.len() == 0 ==> r@.len() == 0,
    {
        group_shapes(&Self::parse_transgironde_shape_rows(rows))
    }

    /// Parses the shape table with the national-rail column layout and
    /// groups it.
    pub fn parse_sncf_shapes(rows: &Vec<Vec<String>>) -> (r: Vec<(String, Vec<ShapePoint>)>)
        ensures
            shape_table_ok(r@, shape_rows_spec(rows@, 3, 1, 2)),
            rows@.len() == 0 ==> r@.len() == 0,
    {
        group_shapes(&Self::parse_sncf_shape_rows(rows))
    }

    /// Parses the trips table into the route-to-shape-ids map, the shape id
    /// standing in field seven.
    pub fn parse_transgironde_trips(rows: &Vec<Vec<String>>) -> (r: Vec<(String, Vec<String>)>)
        ensures
            route_shapes_ok(r@, route_shape_rows_spec(rows@, 7)),
            rows@.len() == 0 ==> r@.len() == 0,
    {
        group_route_shapes(&Self::parse_route_shape_rows(rows, 7))
    }

    /// Parses the trips table into the route-to-shape-ids map, the shape id
    /// standing in field seven.
    pub fn parse_sncf_trips(rows: &Vec<Vec<String>>) -> (r: Vec<(String, Vec<String>)>)
        ensures
            route_shapes_ok(r@, route_shape_rows_spec(rows@, 7)),
            rows@.len() == 0 ==> r@.len() == 0,
    {
        group_route_shapes(&Self::parse_route_shape_rows(rows, 7))
    }

    /// Parses the stop-times table and groups it by stop id.
    pub fn parse_stop_times(rows: &Vec<Vec<String>>) -> (r: Vec<(String, Vec<StopTime>)>)
        ensures
            stop_times_table_ok(r@, stop_time_rows_spec(rows@)),
            rows@.len() == 0 ==> r@.len() == 0,
    {
        group_stop_times(&Self::parse_stop_time_rows(rows))
    }
}

} // verus!
