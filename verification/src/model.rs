//! Core data model: fused network records, raw GTFS table rows, real-time
//! feed records, and the crate's error type.
//!
//! Geographic coordinates are held as signed microdegrees (degrees scaled by
//! 1,000,000), so that positions carry through the verified logic as plain
//! integers.
//!
//! Types whose fields include vectors get a ghost view struct (`...V`): the
//! view keeps scalar and string fields as values and abstracts each vector to
//! the sequence it holds, so that contracts can state that two records carry
//! the same data even when their vectors are distinct allocations.

use vstd::prelude::*;

verus! {

/// A service alert attached to stops and lines.
#[derive(Debug, Clone, PartialEq)]
pub struct AlertInfo {
    pub id: String,
    pub text: String,
    pub description: String,
    pub url: Option<String>,
    pub route_ids: Vec<String>,
    pub stop_ids: Vec<String>,
    pub active_period_start: Option<i64>,
    pub active_period_end: Option<i64>,
    pub severity: u32,
}

/// Ghost view of an [`AlertInfo`].
pub struct AlertInfoV {
    pub id: String,
    pub text: String,
    pub description: String,
    pub url: Option<String>,
    pub route_ids: Seq<String>,
    pub stop_ids: Seq<String>,
    pub active_period_start: Option<i64>,
    pub active_period_end: Option<i64>,
    pub severity: u32,
}

impl View for AlertInfo {
    type V = AlertInfoV;

    open spec fn view(&self) -> AlertInfoV {
        AlertInfoV {
            id: self.id,
            text: self.text,
            description: self.description,
            url: self.url,
            route_ids: self.route_ids@,
            stop_ids: self.stop_ids@,
            active_period_start: self.active_period_start,
            active_period_end: self.active_period_end,
            severity: self.severity,
        }
    }
}

/// The views of a sequence of alerts.
pub open spec fn view_alerts(s: Seq<AlertInfo>) -> Seq<AlertInfoV> {
    s.map_values(|a: AlertInfo| a@)
}

/// A live vehicle or a schedule-derived prediction. The synthetic vehicle id
/// `"scheduled"` marks entries derived from trip updates rather than from a
/// tracked vehicle. Holds no vector, so values themselves carry through
/// contracts.
#[derive(Debug, Clone, PartialEq)]
pub struct RealTimeInfo {
    pub vehicle_id: String,
    pub trip_id: String,
    pub route_id: Option<String>,
    pub direction_id: Option<u32>,
    pub destination: Option<String>,
    pub latitude: i64,
    pub longitude: i64,
    pub stop_id: Option<String>,
    pub current_stop_sequence: Option<u32>,
    pub timestamp: Option<i64>,
    pub delay: Option<i32>,
}

/// A fused stop with its attached lines, alerts and real-time entries.
#[derive(Debug, Clone, PartialEq)]
pub struct Stop {
    pub stop_id: String,
    pub stop_name: String,
    pub latitude: i64,
    pub longitude: i64,
    pub lines: Vec<String>,
    pub alerts: Vec<AlertInfo>,
    pub real_time: Vec<RealTimeInfo>,
}

/// Ghost view of a [`Stop`].
pub struct StopV {
    pub stop_id: String,
    pub stop_name: String,
    pub latitude: i64,
    pub longitude: i64,
    pub lines: Seq<String>,
    pub alerts: Seq<AlertInfoV>,
    pub real_time: Seq<RealTimeInfo>,
}

impl View for Stop {
    type V = StopV;

    open spec fn view(&self) -> StopV {
        StopV {
            stop_id: self.stop_id,
            stop_name: self.stop_name,
            latitude: self.latitude,
            longitude: self.longitude,
            lines: self.lines@,
            alerts: view_alerts(self.alerts@),
            real_time: self.real_time@,
        }
    }
}

/// The views of a sequence of stops.
pub open spec fn view_stops(s: Seq<Stop>) -> Seq<StopV> {
    s.map_values(|x: Stop| x@)
}

/// One point of a line's path geometry.
#[derive(Debug, Clone, Copy, PartialEq, Eq, Structural)]
pub struct ShapePoint {
    pub latitude: i64,
    pub longitude: i64,
    pub sequence: u32,
}

/// A raw GTFS stop_times row.
#[derive(Debug, Clone, PartialEq)]
pub struct StopTime {
    pub trip_id: String,
    pub arrival_time: String,
    pub departure_time: String,
    pub stop_id: String,
    pub stop_sequence: u32,
    pub stop_headsign: Option<String>,
}

/// A raw GTFS trips row.
#[derive(Debug, Clone, PartialEq)]
pub struct Trip {
    pub trip_id: String,
    pub route_id: String,
    pub service_id: String,
    pub trip_headsign: Option<String>,
    pub direction_id: Option<u32>,
}

/// A raw GTFS calendar row: the weekly recurring service pattern.
#[derive(Debug, Clone, PartialEq)]
pub struct ServiceCalendar {
    pub service_id: String,
    pub monday: bool,
    pub tuesday: bool,
    pub wednesday: bool,
    pub thursday: bool,
    pub friday: bool,
    pub saturday: bool,
    pub sunday: bool,
    pub start_date: String,
    pub end_date: String,
}

/// A raw GTFS calendar_dates row: a date-specific service exception.
/// Exception type 1 adds the service on that date, type 2 removes it.
#[derive(Debug, Clone, PartialEq)]
pub struct CalendarDate {
    pub service_id: String,
    pub date: String,
    pub exception_type: u32,
}

/// A raw GTFS agency row.
#[derive(Debug, Clone, PartialEq)]
pub struct Agency {
    pub agency_id: String,
    pub agency_name: String,
    pub agency_url: String,
    pub agency_timezone: String,
    pub agency_phone: String,
}

/// A raw GTFS transfers row.
#[derive(Debug, Clone, PartialEq)]
pub struct Transfer {
    pub from_stop_id: String,
    pub to_stop_id: String,
    pub transfer_type: u32,
    pub min_transfer_time: Option<u32>,
}

/// A schedule-derived upcoming arrival at a stop.
#[derive(Debug, Clone, PartialEq)]
pub struct ScheduledArrival {
    pub trip_id: String,
    pub route_id: String,
    pub line_code: String,
    pub line_color: String,
    pub arrival_time: String,
    pub departure_time: String,
    pub destination: Option<String>,
    pub stop_headsign: Option<String>,
    pub operator: String,
}

/// A fused line with its attached alerts and real-time entries.
#[derive(Debug, Clone, PartialEq)]
pub struct Line {
    pub line_ref: String,
    pub line_name: String,
    pub line_code: String,
    pub route_id: String,
    pub destinations: Vec<(String, String)>,
    pub alerts: Vec<AlertInfo>,
    pub real_time: Vec<RealTimeInfo>,
    pub color: String,
    pub shape_ids: Vec<String>,
    pub operator: String,
}

/// Ghost view of a [`Line`].
pub struct LineV {
    pub line_ref: String,
    pub line_name: String,
    pub line_code: String,
    pub route_id: String,
    pub destinations: Seq<(String, String)>,
    pub alerts: Seq<AlertInfoV>,
    pub real_time: Seq<RealTimeInfo>,
    pub color: String,
    pub shape_ids: Seq<String>,
    pub operator: String,
}

impl View for Line {
    type V = LineV;

    open spec fn view(&self) -> LineV {
        LineV {
            line_ref: self.line_ref,
            line_name: self.line_name,
            line_code: self.line_code,
            route_id: self.route_id,
            destinations: self.destinations@,
            alerts: view_alerts(self.alerts@),
            real_time: self.real_time@,
            color: self.color,
            shape_ids: self.shape_ids@,
            operator: self.operator,
        }
    }
}

/// The views of a sequence of lines.
pub open spec fn view_lines(s: Seq<Line>) -> Seq<LineV> {
    s.map_values(|x: Line| x@)
}

/// Detailed state of one tracked vehicle, with its surrounding stops.
#[derive(Debug, Clone, PartialEq)]
pub struct VehicleDetails {
    pub vehicle_id: String,
    pub trip_id: String,
    pub route_id: Option<String>,
    pub line_code: String,
    pub line_name: String,
    pub line_color: String,
    pub operator: String,
    pub destination: Option<String>,
    pub current_stop: Option<Stop>,
    pub next_stop: Option<Stop>,
    pub previous_stop: Option<Stop>,
    pub latitude: i64,
    pub longitude: i64,
    pub timestamp: Option<i64>,
    pub delay: Option<i32>,
}

/// The fused network view: a pure projection recomputed on every read.
/// `shapes` lists each operator's shape table in turn; on a cross-operator
/// shape-id clash, lookups take the last entry, so later operators shadow
/// earlier ones.
#[derive(Debug, Clone, PartialEq)]
pub struct NetworkData {
    pub stops: Vec<Stop>,
    pub lines: Vec<Line>,
    pub shapes: Vec<(String, Vec<ShapePoint>)>,
}

/// The views of a shape table: id and point sequence of each entry.
pub open spec fn view_shapes(s: Seq<(String, Vec<ShapePoint>)>) -> Seq<(String, Seq<ShapePoint>)> {
    s.map_values(|e: (String, Vec<ShapePoint>)| (e.0, e.1@))
}

/// The error kinds of the ingestion engine.
#[derive(Debug, Clone, PartialEq)]
pub enum NVTError {
    NetworkError(String),
    ParseError(String),
    FileError(String),
}

/// The namespace type grouping the engine's operations.
pub struct NVTModels;

// ===========================================================================
// Raw discovery-feed records (urban operator), handed in by the caller that
// performed the JSON fetch. Absent fields stay `None` and are filtered by the
// verified flattening.
// ===========================================================================

/// One annotated stop point from the urban stop-discovery feed.
#[derive(Debug, Clone, PartialEq)]
pub struct StopPointRecord {
    pub stop_ref: Option<String>,
    pub stop_name: Option<String>,
    pub latitude: Option<i64>,
    pub longitude: Option<i64>,
    pub lines: Vec<String>,
}

/// Ghost view of a [`StopPointRecord`].
pub struct StopPointRecordV {
    pub stop_ref: Option<String>,
    pub stop_name: Option<String>,
    pub latitude: Option<i64>,
    pub longitude: Option<i64>,
    pub lines: Seq<String>,
}

impl View for StopPointRecord {
    type V = StopPointRecordV;

    open spec fn view(&self) -> StopPointRecordV {
        StopPointRecordV {
            stop_ref: self.stop_ref,
            stop_name: self.stop_name,
            latitude: self.latitude,
            longitude: self.longitude,
            lines: self.lines@,
        }
    }
}

/// One annotated line from the urban line-discovery feed.
#[derive(Debug, Clone, PartialEq)]
pub struct LineRecord {
    pub line_ref: Option<String>,
    pub line_name: Option<String>,
    pub line_code: Option<String>,
    pub destinations: Vec<(Option<String>, Option<String>)>,
}

/// Ghost view of a [`LineRecord`].
pub struct LineRecordV {
    pub line_ref: Option<String>,
    pub line_name: Option<String>,
    pub line_code: Option<String>,
    pub destinations: Seq<(Option<String>, Option<String>)>,
}

impl View for LineRecord {
    type V = LineRecordV;

    open spec fn view(&self) -> LineRecordV {
        LineRecordV {
            line_ref: self.line_ref,
            line_name: self.line_name,
            line_code: self.line_code,
            destinations: self.destinations@,
        }
    }
}

/// Urban stop metadata after flattening: id, name, position, serving lines.
#[derive(Debug, Clone, PartialEq)]
pub struct StopMeta {
    pub stop_id: String,
    pub stop_name: String,
    pub latitude: i64,
    pub longitude: i64,
    pub lines: Vec<String>,
}

/// Ghost view of a [`StopMeta`].
pub struct StopMetaV {
    pub stop_id: String,
    pub stop_name: String,
    pub latitude: i64,
    pub longitude: i64,
    pub lines: Seq<String>,
}

impl View for StopMeta {
    type V = StopMetaV;

    open spec fn view(&self) -> StopMetaV {
        StopMetaV {
            stop_id: self.stop_id,
            stop_name: self.stop_name,
            latitude: self.latitude,
            longitude: self.longitude,
            lines: self.lines@,
        }
    }
}

/// Urban line metadata after flattening: ref, name, code, destinations.
#[derive(Debug, Clone, PartialEq)]
pub struct LineMeta {
    pub line_ref: String,
    pub line_name: String,
    pub line_code: String,
    pub destinations: Vec<(String, String)>,
}

/// Ghost view of a [`LineMeta`].
pub struct LineMetaV {
    pub line_ref: String,
    pub line_name: String,
    pub line_code: String,
    pub destinations: Seq<(String, String)>,
}

impl View for LineMeta {
    type V = LineMetaV;

    open spec fn view(&self) -> LineMetaV {
        LineMetaV {
            line_ref: self.line_ref,
            line_name: self.line_name,
            line_code: self.line_code,
            destinations: self.destinations@,
        }
    }
}

// ===========================================================================
// Raw GTFS-Realtime feed records, handed in by the caller that decoded the
// protocol-buffer bytes. Each mirrors the fields the engine reads.
// ===========================================================================

/// A time range attached to an alert.
#[derive(Debug, Clone, Copy, PartialEq, Eq, Structural)]
pub struct PeriodData {
    pub start: Option<i64>,
    pub end: Option<i64>,
}

/// One informed entity of an alert: the route and stop it affects.
#[derive(Debug, Clone, PartialEq)]
pub struct InformedEntityData {
    pub route_id: Option<String>,
    pub stop_id: Option<String>,
}

/// A decoded service alert, translations flattened to their texts in feed
/// order.
#[derive(Debug, Clone, PartialEq)]
pub struct AlertData {
    pub header_texts: Vec<String>,
    pub description_texts: Vec<String>,
    pub url_texts: Vec<String>,
    pub informed: Vec<InformedEntityData>,
    pub periods: Vec<PeriodData>,
    pub severity: Option<u32>,
}

/// Ghost view of an [`AlertData`].
pub struct AlertDataV {
    pub header_texts: Seq<String>,
    pub description_texts: Seq<String>,
    pub url_texts: Seq<String>,
    pub informed: Seq<InformedEntityData>,
    pub periods: Seq<PeriodData>,
    pub severity: Option<u32>,
}

impl View for AlertData {
    type V = AlertDataV;

    open spec fn view(&self) -> AlertDataV {
        AlertDataV {
            header_texts: self.header_texts@,
            description_texts: self.description_texts@,
            url_texts: self.url_texts@,
            informed: self.informed@,
            periods: self.periods@,
            severity: self.severity,
        }
    }
}

/// A decoded vehicle-position payload.
#[derive(Debug, Clone, PartialEq)]
pub struct VehicleData {
    pub vehicle_id: Option<String>,
    pub label: Option<String>,
    pub trip_id: Option<String>,
    pub route_id: Option<String>,
    pub direction_id: Option<u32>,
    pub latitude: Option<i64>,
    pub longitude: Option<i64>,
    pub stop_id: Option<String>,
    pub current_stop_sequence: Option<u32>,
    pub timestamp: Option<i64>,
}

/// One stop-time entry of a trip update.
#[derive(Debug, Clone, PartialEq)]
pub struct StopTimeUpdateData {
    pub stop_id: Option<String>,
    pub arrival_delay: Option<i32>,
    pub arrival_time: Option<i64>,
    pub departure_delay: Option<i32>,
    pub departure_time: Option<i64>,
}

/// A decoded trip update: the trip descriptor plus its stop-time entries.
#[derive(Debug, Clone, PartialEq)]
pub struct TripUpdateData {
    pub trip_id: Option<String>,
    pub route_id: Option<String>,
    pub direction_id: Option<u32>,
    pub stop_time_updates: Vec<StopTimeUpdateData>,
}

/// Ghost view of a [`TripUpdateData`].
pub struct TripUpdateDataV {
    pub trip_id: Option<String>,
    pub route_id: Option<String>,
    pub direction_id: Option<u32>,
    pub stop_time_updates: Seq<StopTimeUpdateData>,
}

impl View for TripUpdateData {
    type V = TripUpdateDataV;

    open spec fn view(&self) -> TripUpdateDataV {
        TripUpdateDataV {
            trip_id: self.trip_id,
            route_id: self.route_id,
            direction_id: self.direction_id,
            stop_time_updates: self.stop_time_updates@,
        }
    }
}

/// The views of a sequence of trip updates.
pub open spec fn view_trip_updates(s: Seq<TripUpdateData>) -> Seq<TripUpdateDataV> {
    s.map_values(|x: TripUpdateData| x@)
}

/// One entity of a decoded GTFS-Realtime feed message.
#[derive(Debug, Clone, PartialEq)]
pub struct FeedEntityData {
    pub id: String,
    pub alert: Option<AlertData>,
    pub vehicle: Option<VehicleData>,
    pub trip_update: Option<TripUpdateData>,
}

/// Ghost view of a [`FeedEntityData`].
pub struct FeedEntityDataV {
    pub id: String,
    pub alert: Option<AlertDataV>,
    pub vehicle: Option<VehicleData>,
    pub trip_update: Option<TripUpdateDataV>,
}

impl View for FeedEntityData {
    type V = FeedEntityDataV;

    open spec fn view(&self) -> FeedEntityDataV {
        FeedEntityDataV {
            id: self.id,
            alert: match self.alert {
                Some(a) => Some(a@),
                None => None,
            },
            vehicle: self.vehicle,
            trip_update: match self.trip_update {
                Some(t) => Some(t@),
                None => None,
            },
        }
    }
}

/// The views of a sequence of feed entities.
pub open spec fn view_entities(s: Seq<FeedEntityData>) -> Seq<FeedEntityDataV> {
    s.map_values(|x: FeedEntityData| x@)
}

// ===========================================================================
// Specified copies. Derived `Clone` impls carry no contract, so the verified
// logic copies values through these helpers, whose results are known equal to
// their sources (as values for vector-free types, as views otherwise).
// ===========================================================================

/// Copies an optional string; the result equals the source.
pub fn dup_opt_string(v: &Option<String>) -> (r: Option<String>)
    ensures
        r == *v,
{
    match v {
        Some(s) => Some(s.clone()),
        None => None,
    }
}

/// Copies a vector of strings; the result holds the same strings.
pub fn dup_strings(v: &Vec<String>) -> (r: Vec<String>)
    ensures
        r@ == v@,
{
    let mut out: Vec<String> = Vec::new();
    let mut i: usize = 0;
    while i < v.len()
        invariant
            0 <= i <= v.len(),
            out@ =~= v@.take(i as int),
        decreases v.len() - i,
    {
        out.push(v[i].clone());
        i = i + 1;
    }
    proof {
        assert(v@.take(v@.len() as int) =~= v@);
    }
    out
}

/// Copies a vector of string pairs; the result holds the same pairs.
pub fn dup_string_pairs(v: &Vec<(String, String)>) -> (r: Vec<(String, String)>)
    ensures
        r@ == v@,
{
    let mut out: Vec<(String, String)> = Vec::new();
    let mut i: usize = 0;
    while i < v.len()
        invariant
            0 <= i <= v.len(),
            out@ =~= v@.take(i as int),
        decreases v.len() - i,
    {
        out.push((v[i].0.clone(), v[i].1.clone()));
        i = i + 1;
    }
    proof {
        assert(v@.take(v@.len() as int) =~= v@);
    }
    out
}

impl AlertInfo {
    /// Copies the alert; the result's view equals the source's.
    pub fn duplicate(&self) -> (r: AlertInfo)
        ensures
            r@ == self@,
    {
        AlertInfo {
            id: self.id.clone(),
            text: self.text.clone(),
            description: self.description.clone(),
            url: dup_opt_string(&self.url),
            route_ids: dup_strings(&self.route_ids),
            stop_ids: dup_strings(&self.stop_ids),
            active_period_start: self.active_period_start,
            active_period_end: self.active_period_end,
            severity: self.severity,
        }
    }
}

impl RealTimeInfo {
    /// Copies the entry; the result equals the source.
    pub fn duplicate(&self) -> (r: RealTimeInfo)
        ensures
            r == *self,
    {
        RealTimeInfo {
            vehicle_id: self.vehicle_id.clone(),
            trip_id: self.trip_id.clone(),
            route_id: dup_opt_string(&self.route_id),
            direction_id: self.direction_id,
            destination: dup_opt_string(&self.destination),
            latitude: self.latitude,
            longitude: self.longitude,
            stop_id: dup_opt_string(&self.stop_id),
            current_stop_sequence: self.current_stop_sequence,
            timestamp: self.timestamp,
            delay: self.delay,
        }
    }
}

impl StopTime {
    /// Copies the row; the result equals the source.
    pub fn duplicate(&self) -> (r: StopTime)
        ensures
            r == *self,
    {
        StopTime {
            trip_id: self.trip_id.clone(),
            arrival_time: self.arrival_time.clone(),
            departure_time: self.departure_time.clone(),
            stop_id: self.stop_id.clone(),
            stop_sequence: self.stop_sequence,
            stop_headsign: dup_opt_string(&self.stop_headsign),
        }
    }
}

impl Trip {
    /// Copies the row; the result equals the source.
    pub fn duplicate(&self) -> (r: Trip)
        ensures
            r == *self,
    {
        Trip {
            trip_id: self.trip_id.clone(),
            route_id: self.route_id.clone(),
            service_id: self.service_id.clone(),
            trip_headsign: dup_opt_string(&self.trip_headsign),
            direction_id: self.direction_id,
        }
    }
}

/// Copies a vector of alerts; the result's views equal the source's.
pub fn dup_alerts(v: &Vec<AlertInfo>) -> (r: Vec<AlertInfo>)
    ensures
        view_alerts(r@) == view_alerts(v@),
        r@.len() == v@.len(),
{
    let mut out: Vec<AlertInfo> = Vec::new();
    let mut i: usize = 0;
    while i < v.len()
        invariant
            0 <= i <= v.len(),
            out@.len() == i,
            forall|k: int| 0 <= k < i ==> out@[k]@ == #[trigger] v@[k]@,
        decreases v.len() - i,
    {
        out.push(v[i].duplicate());
        i = i + 1;
    }
    proof {
        assert(view_alerts(out@) =~= view_alerts(v@));
    }
    out
}

/// Copies a vector of real-time entries; the result holds the same entries.
pub fn dup_real_time(v: &Vec<RealTimeInfo>) -> (r: Vec<RealTimeInfo>)
    ensures
        r@ == v@,
{
    let mut out: Vec<RealTimeInfo> = Vec::new();
    let mut i: usize = 0;
    while i < v.len()
        invariant
            0 <= i <= v.len(),
            out@ =~= v@.take(i as int),
        decreases v.len() - i,
    {
        out.push(v[i].duplicate());
        i = i + 1;
    }
    proof {
        assert(v@.take(v@.len() as int) =~= v@);
    }
    out
}

impl Stop {
    /// Copies the stop; the result's view equals the source's.
    pub fn duplicate(&self) -> (r: Stop)
        ensures
            r@ == self@,
    {
        Stop {
            stop_id: self.stop_id.clone(),
            stop_name: self.stop_name.clone(),
            latitude: self.latitude,
            longitude: self.longitude,
            lines: dup_strings(&self.lines),
            alerts: dup_alerts(&self.alerts),
            real_time: dup_real_time(&self.real_time),
        }
    }
}

impl ScheduledArrival {
    /// Copies the arrival; the result equals the source.
    pub fn duplicate(&self) -> (r: ScheduledArrival)
        ensures
            r == *self,
    {
        ScheduledArrival {
            trip_id: self.trip_id.clone(),
            route_id: self.route_id.clone(),
            line_code: self.line_code.clone(),
            line_color: self.line_color.clone(),
            arrival_time: self.arrival_time.clone(),
            departure_time: self.departure_time.clone(),
            destination: dup_opt_string(&self.destination),
            stop_headsign: dup_opt_string(&self.stop_headsign),
            operator: self.operator.clone(),
        }
    }
}

impl Line {
    /// Copies the line; the result's view equals the source's.
    pub fn duplicate(&self) -> (r: Line)
        ensures
            r@ == self@,
    {
        Line {
            line_ref: self.line_ref.clone(),
            line_name: self.line_name.clone(),
            line_code: self.line_code.clone(),
            route_id: self.route_id.clone(),
            destinations: dup_string_pairs(&self.destinations),
            alerts: dup_alerts(&self.alerts),
            real_time: dup_real_time(&self.real_time),
            color: self.color.clone(),
            shape_ids: dup_strings(&self.shape_ids),
            operator: self.operator.clone(),
        }
    }
}

impl StopMeta {
    /// Copies the metadata; every field keeps its value, the line list its
    /// strings.
    pub fn duplicate(&self) -> (r: StopMeta)
        ensures
            r.stop_id == self.stop_id,
            r.stop_name == self.stop_name,
            r.latitude == self.latitude,
            r.longitude == self.longitude,
            r.lines@ == self.lines@,
    {
        StopMeta {
            stop_id: self.stop_id.clone(),
            stop_name: self.stop_name.clone(),
            latitude: self.latitude,
            longitude: self.longitude,
            lines: dup_strings(&self.lines),
        }
    }
}

impl LineMeta {
    /// Copies the metadata; every field keeps its value, the destination
    /// list its pairs.
    pub fn duplicate(&self) -> (r: LineMeta)
        ensures
            r.line_ref == self.line_ref,
            r.line_name == self.line_name,
            r.line_code == self.line_code,
            r.destinations@ == self.destinations@,
    {
        LineMeta {
            line_ref: self.line_ref.clone(),
            line_name: self.line_name.clone(),
            line_code: self.line_code.clone(),
            destinations: dup_string_pairs(&self.destinations),
        }
    }
}

/// Copies a vector of stop metadata; each copy keeps its source's fields.
pub fn dup_stop_metas(v: &Vec<StopMeta>) -> (r: Vec<StopMeta>)
    ensures
        r@.len() == v@.len(),
        forall|i: int| 0 <= i < r@.len() ==> (#[trigger] r@[i]).stop_id == v@[i].stop_id
            && r@[i].stop_name == v@[i].stop_name && r@[i].latitude == v@[i].latitude
            && r@[i].longitude == v@[i].longitude && r@[i].lines@ == v@[i].lines@,
{
    let mut out: Vec<StopMeta> = Vec::new();
    let mut i: usize = 0;
    while i < v.len()
        invariant
            0 <= i <= v@.len(),
            out@.len() == i,
            forall|k: int| 0 <= k < i ==> (#[trigger] out@[k]).stop_id == v@[k].stop_id
                && out@[k].stop_name == v@[k].stop_name && out@[k].latitude == v@[k].latitude
                && out@[k].longitude == v@[k].longitude && out@[k].lines@ == v@[k].lines@,
        decreases v@.len() - i,
    {
        out.push(v[i].duplicate());
        i = i + 1;
    }
    out
}

/// Copies a vector of line metadata; each copy keeps its source's fields.
pub fn dup_line_metas(v: &Vec<LineMeta>) -> (r: Vec<LineMeta>)
    ensures
        r@.len() == v@.len(),
        forall|i: int| 0 <= i < r@.len() ==> (#[trigger] r@[i]).line_ref == v@[i].line_ref
            && r@[i].line_name == v@[i].line_name && r@[i].line_code == v@[i].line_code
            && r@[i].destinations@ == v@[i].destinations@,
{
    let mut out: Vec<LineMeta> = Vec::new();
    let mut i: usize = 0;
    while i < v.len()
        invariant
            0 <= i <= v@.len(),
            out@.len() == i,
            forall|k: int| 0 <= k < i ==> (#[trigger] out@[k]).line_ref == v@[k].line_ref
                && out@[k].line_name == v@[k].line_name && out@[k].line_code == v@[k].line_code
                && out@[k].destinations@ == v@[k].destinations@,
        decreases v@.len() - i,
    {
        out.push(v[i].duplicate());
        i = i + 1;
    }
    out
}

/// Copies a vector of stops; the copies' views equal the sources'.
pub fn dup_stops(v: &Vec<Stop>) -> (r: Vec<Stop>)
    ensures
        view_stops(r@) == view_stops(v@),
        r@.len() == v@.len(),
{
    let mut out: Vec<Stop> = Vec::new();
    let mut i: usize = 0;
    while i < v.len()
        invariant
            0 <= i <= v@.len(),
            out@.len() == i,
            forall|k: int| 0 <= k < i ==> out@[k]@ == (#[trigger] v@[k])@,
        decreases v@.len() - i,
    {
        out.push(v[i].duplicate());
        i = i + 1;
    }
    proof {
        assert(view_stops(out@) =~= view_stops(v@));
    }
    out
}

/// Copies a vector of lines; the copies' views equal the sources'.
pub fn dup_lines(v: &Vec<Line>) -> (r: Vec<Line>)
    ensures
        view_lines(r@) == view_lines(v@),
        r@.len() == v@.len(),
{
    let mut out: Vec<Line> = Vec::new();
    let mut i: usize = 0;
    while i < v.len()
        invariant
            0 <= i <= v@.len(),
            out@.len() == i,
            forall|k: int| 0 <= k < i ==> out@[k]@ == (#[trigger] v@[k])@,
        decreases v@.len() - i,
    {
        out.push(v[i].duplicate());
        i = i + 1;
    }
    proof {
        assert(view_lines(out@) =~= view_lines(v@));
    }
    out
}

/// Copies a vector of shape points.
pub fn dup_points(v: &Vec<ShapePoint>) -> (r: Vec<ShapePoint>)
    ensures
        r@ == v@,
{
    let mut out: Vec<ShapePoint> = Vec::new();
    let mut i: usize = 0;
    while i < v.len()
        invariant
            0 <= i <= v@.len(),
            out@ =~= v@.take(i as int),
        decreases v@.len() - i,
    {
        out.push(v[i]);
        i = i + 1;
    }
    proof {
        assert(v@.take(v@.len() as int) =~= v@);
    }
    out
}

/// Copies a shape table; the copies' keys and point lists keep their
/// views.
pub fn dup_shape_table(v: &Vec<(String, Vec<ShapePoint>)>) -> (r: Vec<(String, Vec<ShapePoint>)>)
    ensures
        view_shapes(r@) == view_shapes(v@),
        r@.len() == v@.len(),
{
    let mut out: Vec<(String, Vec<ShapePoint>)> = Vec::new();
    let mut i: usize = 0;
    while i < v.len()
        invariant
            0 <= i <= v@.len(),
            out@.len() == i,
            forall|k: int| 0 <= k < i ==> (#[trigger] out@[k]).0 == v@[k].0 && out@[k].1@
                == v@[k].1@,
        decreases v@.len() - i,
    {
        out.push((v[i].0.clone(), dup_points(&v[i].1)));
        i = i + 1;
    }
    proof {
        assert(view_shapes(out@) =~= view_shapes(v@));
    }
    out
}

impl NVTError {
    /// A readable description of the error, in place of `Display`.
    pub fn describe(&self) -> (r: String)
        ensures
            match self {
                NVTError::NetworkError(e) => r@ == "Network error: "@ + e@,
                NVTError::ParseError(e) => r@ == "Parse error: "@ + e@,
                NVTError::FileError(e) => r@ == "File error: "@ + e@,
            },
    {
        match self {
            NVTError::NetworkError(e) => {
                let mut s = String::from_str("Network error: ");
                s.append(e.as_str());
                s
            },
            NVTError::ParseError(e) => {
                let mut s = String::from_str("Parse error: ");
                s.append(e.as_str());
                s
            },
            NVTError::FileError(e) => {
                let mut s = String::from_str("File error: ");
                s.append(e.as_str());
                s
            },
        }
    }
}

} // verus!
