//! The tide archive: predictions for a rolling window, replaced window by
//! window on refresh, and the flood query over them.
//!
//! Heights are held in thousandths of a foot against the tidal datum; times
//! are station-local civil times.

use crate::text::{format_height, height_text};
use chrono::{NaiveDate, NaiveTime};
use vstd::prelude::*;

verus! {

/// The first day that a local time may fall on: 0001-01-01.
pub const FIRST_DAY: i32 = -719162;

/// The last day that a local time may fall on: 9999-12-31.
pub const LAST_DAY: i32 = 2932896;

/// Seconds in a civil day.
pub const SECONDS_PER_DAY: u32 = 86400;

/// The height, in thousandths of a foot, at or above which a tide floods
/// the path.
pub const FLOOD_THRESHOLD_MILLI_FT: i64 = 6400;

/// How many days ahead predictions are fetched and considered.
pub const FORECAST_DAYS: i32 = 30;

/// A station-local civil time: the day, counted from 1970-01-01, and the
/// second of that day.
#[derive(Debug, Clone, Copy, PartialEq, Eq, Structural)]
pub struct LocalDateTime {
    pub day: i32,
    pub second: u32,
}

impl LocalDateTime {
    pub open spec fn wf(&self) -> bool {
        FIRST_DAY <= self.day <= LAST_DAY && self.second < SECONDS_PER_DAY
    }

    /// Seconds since 1970-01-01 00:00, local time.
    pub open spec fn seconds(&self) -> int {
        self.day as int * SECONDS_PER_DAY as int + self.second as int
    }

    /// Whether this time is not later than `other`.
    pub fn not_after(&self, other: &LocalDateTime) -> (r: bool)
        requires
            self.wf(),
            other.wf(),
        ensures
            r == (self.seconds() <= other.seconds()),
    {
        self.day < other.day || (self.day == other.day && self.second <= other.second)
    }
}

/// Whether a tide is high or low.
#[derive(Debug, Clone, Copy, PartialEq, Eq, Structural)]
pub enum TideKind {
    High,
    Low,
}

/// One entry of the upstream forecast; an entry without a kind is neither
/// high nor low.
#[derive(Debug, Clone, Copy, PartialEq, Eq, Structural)]
pub struct Prediction {
    pub time: LocalDateTime,
    pub height_milli_ft: i64,
    pub kind: Option<TideKind>,
}

/// One stored prediction.
#[derive(Debug, Clone, Copy, PartialEq, Eq, Structural)]
pub struct TideRow {
    pub time: LocalDateTime,
    pub height_milli_ft: i64,
    pub kind: TideKind,
}

/// A flood event ready for display.
#[derive(Debug, Clone, PartialEq, Eq)]
pub struct FloodDisplay {
    pub datetime: String,
    pub height: String,
}

pub struct FloodDisplayView {
    pub datetime: Seq<char>,
    pub height: Seq<char>,
}

impl View for FloodDisplay {
    type V = FloodDisplayView;

    open spec fn view(&self) -> FloodDisplayView {
        FloodDisplayView { datetime: self.datetime@, height: self.height@ }
    }
}

/// The text of a local time, in the form "Thursday, October 5 at 2:30PM".
pub uninterp spec fn local_time_text(day: int, second: int) -> Seq<char>;

/// Relies on chrono: `NaiveDate::from_epoch_days` and
/// `NaiveTime::from_num_seconds_from_midnight_opt` give the date and time
/// for every well-formed local time, and `NaiveDateTime::format` writes them
/// with a fixed pattern of valid items.
#[verifier::external_body]
fn format_local_time(t: LocalDateTime) -> (r: String)
    requires
        t.wf(),
    ensures
        r@ == local_time_text(t.day as int, t.second as int),
{
    match (NaiveDate::from_epoch_days(t.day), NaiveTime::from_num_seconds_from_midnight_opt(t.second, 0)) {
        (Some(date), Some(time)) => date.and_time(time).format("%A, %B %-d at %-I:%M%p").to_string(),
        _ => String::new(),
    }
}

/// The display form of a stored prediction.
pub open spec fn display_of(time: LocalDateTime, height_milli_ft: i64) -> FloodDisplayView {
    FloodDisplayView {
        datetime: local_time_text(time.day as int, time.second as int),
        height: height_text(height_milli_ft as int),
    }
}

impl FloodDisplay {
    /// The display form of a prediction at `time` with the given height.
    pub fn new(time: LocalDateTime, height_milli_ft: i64) -> (r: FloodDisplay)
        requires
            time.wf(),
        ensures
            r@ == display_of(time, height_milli_ft),
    {
        FloodDisplay { datetime: format_local_time(time), height: format_height(height_milli_ft) }
    }
}

/// Whether a time falls on a day of the window that starts on `start` and
/// runs `days` days further, both ends included.
pub open spec fn in_window(t: LocalDateTime, start: int, days: int) -> bool {
    start <= t.day <= start + days
}

/// The rows that an upstream answer yields: entries that are neither high
/// nor low are dropped, the others kept in order.
pub open spec fn ingested(entries: Seq<Prediction>) -> Seq<TideRow>
    decreases entries.len(),
{
    if entries.len() == 0 {
        Seq::empty()
    } else {
        let e = entries.last();
        let rest = ingested(entries.drop_last());
        match e.kind {
            Some(k) => rest.push(TideRow { time: e.time, height_milli_ft: e.height_milli_ft, kind: k }),
            None => rest,
        }
    }
}

/// The rows outside the window, in order.
pub open spec fn outside_window(rows: Seq<TideRow>, start: int, days: int) -> Seq<TideRow> {
    rows.filter(|r: TideRow| !in_window(r.time, start, days))
}

/// The rows inside the window, in order.
pub open spec fn inside_window(rows: Seq<TideRow>, start: int, days: int) -> Seq<TideRow> {
    rows.filter(|r: TideRow| in_window(r.time, start, days))
}

/// The archive after a refresh: the rows of the window are replaced by
/// what upstream answered.
pub open spec fn refreshed(rows: Seq<TideRow>, start: int, days: int, entries: Seq<Prediction>) -> Seq<TideRow> {
    outside_window(rows, start, days) + ingested(entries)
}

/// A row that the flood query reports at `now`.
pub open spec fn is_flood(r: TideRow, now: LocalDateTime) -> bool {
    r.time.seconds() >= now.seconds() && r.height_milli_ft >= FLOOD_THRESHOLD_MILLI_FT
}

pub open spec fn sorted_by_time(rows: Seq<TideRow>) -> bool {
    forall|i: int, j: int| 0 <= i < j < rows.len() ==> rows[i].time.seconds() <= rows[j].time.seconds()
}

/// Where a row at `seconds` goes in `rows`: before the first row that is
/// later, so after every row of the same time.
pub open spec fn insertion_point(rows: Seq<TideRow>, seconds: int) -> int
    decreases rows.len(),
{
    if rows.len() == 0 {
        0
    } else if rows[0].time.seconds() > seconds {
        0
    } else {
        1 + insertion_point(rows.drop_first(), seconds)
    }
}

/// `rows` ordered by time; rows of the same time keep their order.
pub open spec fn sort_by_time(rows: Seq<TideRow>) -> Seq<TideRow>
    decreases rows.len(),
{
    if rows.len() == 0 {
        rows
    } else {
        let sorted = sort_by_time(rows.drop_last());
        let r = rows.last();
        sorted.insert(insertion_point(sorted, r.time.seconds()), r)
    }
}

/// The insertion point is the first position holding a later row.
proof fn lemma_insertion_point(rows: Seq<TideRow>, seconds: int, pos: int)
    requires
        0 <= pos <= rows.len(),
        forall|j: int| 0 <= j < pos ==> (#[trigger] rows[j]).time.seconds() <= seconds,
        pos < rows.len() ==> rows[pos].time.seconds() > seconds,
    ensures
        insertion_point(rows, seconds) == pos,
    decreases rows.len(),
{
    if rows.len() > 0 && pos > 0 {
        let rest = rows.drop_first();
        assert forall|j: int| 0 <= j < pos - 1 implies (#[trigger] rest[j]).time.seconds() <= seconds by {
            assert(rest[j] == rows[j + 1]);
        }
        lemma_insertion_point(rest, seconds, pos - 1);
    }
}

/// `rows` are the flood rows of `all` at `now`, in order of time; rows of
/// the same time keep their storage order.
pub open spec fn flood_order(all: Seq<TideRow>, now: LocalDateTime, rows: Seq<TideRow>) -> bool {
    &&& rows == sort_by_time(all.filter(|r: TideRow| is_flood(r, now)))
    &&& sorted_by_time(rows)
    &&& rows.to_multiset() == all.filter(|r: TideRow| is_flood(r, now)).to_multiset()
    &&& forall|i: int| 0 <= i < rows.len() ==> is_flood(#[trigger] rows[i], now)
}

pub open spec fn all_wf(rows: Seq<TideRow>) -> bool {
    forall|i: int| 0 <= i < rows.len() ==> (#[trigger] rows[i]).time.wf()
}

pub open spec fn entries_wf(entries: Seq<Prediction>) -> bool {
    forall|i: int| 0 <= i < entries.len() ==> (#[trigger] entries[i]).time.wf()
}

/// Filtering keeps nothing of a sequence none of whose items passes.
proof fn lemma_filter_keeps_nothing(x: Seq<TideRow>, pred: spec_fn(TideRow) -> bool)
    requires
        forall|i: int| 0 <= i < x.len() ==> !pred(#[trigger] x[i]),
    ensures
        x.filter(pred) == Seq::<TideRow>::empty(),
    decreases x.len(),
{
    reveal(Seq::filter);
    if x.len() == 0 {
        assert(x.filter(pred) =~= Seq::<TideRow>::empty());
    } else {
        lemma_filter_keeps_nothing(x.drop_last(), pred);
    }
}

/// After a refresh, the rows inside the window are exactly the rows that
/// the upstream answer yields inside it, whatever the archive held before.
pub proof fn lemma_refresh_window_follows_upstream(rows: Seq<TideRow>, start: int, days: int, entries: Seq<Prediction>)
    ensures
        inside_window(refreshed(rows, start, days, entries), start, days)
            == inside_window(ingested(entries), start, days),
{
    broadcast use vstd::seq_lib::group_filter_ensures;

    let inside = |r: TideRow| in_window(r.time, start, days);
    let outside = outside_window(rows, start, days);
    lemma_filter_keeps_nothing(outside, inside);
    Seq::filter_distributes_over_add(outside, ingested(entries), inside);
    assert(Seq::<TideRow>::empty() + ingested(entries).filter(inside) =~= ingested(entries).filter(inside));
}

/// Refreshing twice in a row with the same upstream answer leaves as many
/// rows inside the window as refreshing once: nothing is duplicated.
pub proof fn lemma_refresh_twice_same_window_count(rows: Seq<TideRow>, start: int, days: int, entries: Seq<Prediction>)
    ensures
        inside_window(refreshed(refreshed(rows, start, days, entries), start, days, entries), start, days).len()
            == inside_window(refreshed(rows, start, days, entries), start, days).len(),
{
    lemma_refresh_window_follows_upstream(rows, start, days, entries);
    lemma_refresh_window_follows_upstream(refreshed(rows, start, days, entries), start, days, entries);
}

/// Filtering keeps the whole of a sequence all of whose items pass.
proof fn lemma_filter_keeps_all(x: Seq<TideRow>, pred: spec_fn(TideRow) -> bool)
    requires
        forall|i: int| 0 <= i < x.len() ==> pred(#[trigger] x[i]),
    ensures
        x.filter(pred) == x,
    decreases x.len(),
{
    reveal(Seq::filter);
    if x.len() == 0 {
        assert(x.filter(pred) =~= x);
    } else {
        lemma_filter_keeps_all(x.drop_last(), pred);
        assert(x.drop_last().push(x.last()) =~= x);
    }
}

/// Every row that an upstream answer yields has the time of one of its
/// entries.
proof fn lemma_ingested_times(entries: Seq<Prediction>, i: int)
    requires
        0 <= i < ingested(entries).len(),
    ensures
        exists|k: int| 0 <= k < entries.len() && entries[k].time == (#[trigger] ingested(entries)[i]).time,
    decreases entries.len(),
{
    let rest = entries.drop_last();
    if i < ingested(rest).len() {
        lemma_ingested_times(rest, i);
        let k = choose|k: int| 0 <= k < rest.len() && rest[k].time == ingested(rest)[i].time;
        assert(entries[k] == rest[k]);
    } else {
        assert(entries[entries.len() - 1] == entries.last());
    }
}

/// When every entry of the upstream answer lies inside the window, a second
/// refresh with the same answer leaves the archive exactly as the first one
/// did.
pub proof fn lemma_refresh_in_window_idempotent(rows: Seq<TideRow>, start: int, days: int, entries: Seq<Prediction>)
    requires
        forall|k: int| 0 <= k < entries.len() ==> in_window(#[trigger] entries[k].time, start, days),
    ensures
        refreshed(refreshed(rows, start, days, entries), start, days, entries) == refreshed(rows, start, days, entries),
{
    broadcast use vstd::seq_lib::group_filter_ensures;

    let keep = |r: TideRow| !in_window(r.time, start, days);
    let outside = outside_window(rows, start, days);
    let fresh = ingested(entries);
    assert forall|i: int| 0 <= i < fresh.len() implies !keep(#[trigger] fresh[i]) by {
        lemma_ingested_times(entries, i);
    }
    lemma_filter_keeps_all(outside, keep);
    lemma_filter_keeps_nothing(fresh, keep);
    Seq::filter_distributes_over_add(outside, fresh, keep);
    assert(outside + Seq::<TideRow>::empty() =~= outside);
}

/// The stored predictions.
pub struct TideArchive {
    rows: Vec<TideRow>,
}

impl View for TideArchive {
    type V = Seq<TideRow>;

    closed spec fn view(&self) -> Seq<TideRow> {
        self.rows@
    }
}

impl TideArchive {
    pub open spec fn wf(&self) -> bool {
        all_wf(self@)
    }

    /// An empty archive.
    pub fn new() -> (r: TideArchive)
        ensures
            r.wf(),
            r@ == Seq::<TideRow>::empty(),
    {
        TideArchive { rows: Vec::new() }
    }

    /// An archive holding `rows`, in that order.
    pub fn from_rows(rows: Vec<TideRow>) -> (r: TideArchive)
        requires
            all_wf(rows@),
        ensures
            r.wf(),
            r@ == rows@,
    {
        TideArchive { rows }
    }

    /// The stored rows, in storage order.
    pub fn rows(&self) -> (r: Vec<TideRow>)
        ensures
            r@ == self@,
    {
        self.rows.clone()
    }

    /// The rows that flood at or after `now`, ordered by time.
    pub fn flood_rows(&self, now: LocalDateTime) -> (r: Vec<TideRow>)
        requires
            self.wf(),
            now.wf(),
        ensures
            flood_order(self@, now, r@),
            all_wf(r@),
    {
        let ghost s0 = self@;
        let mut out: Vec<TideRow> = Vec::new();
        proof {
            reveal(Seq::filter);
            assert(s0.subrange(0, 0).filter(|r: TideRow| is_flood(r, now)) =~= Seq::<TideRow>::empty());
            assert(sort_by_time(Seq::<TideRow>::empty()) =~= Seq::<TideRow>::empty());
            assert(out@ =~= Seq::<TideRow>::empty());
        }
        let mut i: usize = 0;
        while i < self.rows.len()
            invariant
                self@ == s0,
                all_wf(s0),
                now.wf(),
                i <= s0.len(),
                out@ == sort_by_time(s0.subrange(0, i as int).filter(|r: TideRow| is_flood(r, now))),
                sorted_by_time(out@),
                out@.to_multiset() == s0.subrange(0, i as int).filter(|r: TideRow| is_flood(r, now)).to_multiset(),
                forall|j: int| 0 <= j < out@.len() ==> is_flood(#[trigger] out@[j], now),
                all_wf(out@),
            decreases s0.len() - i,
        {
            let row = self.rows[i];
            let ghost out0 = out@;
            proof {
                let p = s0.subrange(0, i as int);
                assert(s0.subrange(0, i + 1) =~= p.push(row));
                p.lemma_filter_push(row, |r: TideRow| is_flood(r, now));
            }
            if now.not_after(&row.time) && row.height_milli_ft >= FLOOD_THRESHOLD_MILLI_FT {
                let mut pos: usize = 0;
                while pos < out.len() && out[pos].time.not_after(&row.time)
                    invariant
                        pos <= out@.len(),
                        all_wf(out@),
                        row.time.wf(),
                        forall|j: int| 0 <= j < pos ==> (#[trigger] out@[j]).time.seconds() <= row.time.seconds(),
                    decreases out@.len() - pos,
                {
                    pos = pos + 1;
                }
                let ghost before = out@;
                proof {
                    lemma_insertion_point(before, row.time.seconds(), pos as int);
                    let p = s0.subrange(0, i as int).filter(|r: TideRow| is_flood(r, now));
                    assert(p.push(row).drop_last() =~= p);
                }
                out.insert(pos, row);
                proof {
                    assert(out@ == before.insert(pos as int, row));
                    vstd::seq_lib::to_multiset_insert(before, pos as int, row);
                    let p = s0.subrange(0, i as int).filter(|r: TideRow| is_flood(r, now));
                    vstd::seq_lib::to_multiset_build(p, row);
                }
                assert forall|j: int| 0 <= j < out@.len() implies is_flood(#[trigger] out@[j], now) by {
                    if j < pos {
                        assert(out@[j] == before[j]);
                    } else if j > pos {
                        assert(out@[j] == before[j - 1]);
                    }
                }
                assert forall|j: int| 0 <= j < out@.len() implies (#[trigger] out@[j]).time.wf() by {
                    if j < pos {
                        assert(out@[j] == before[j]);
                    } else if j > pos {
                        assert(out@[j] == before[j - 1]);
                    }
                }
                assert(sorted_by_time(out@)) by {
                    assert forall|a: int, b: int| 0 <= a < b < out@.len() implies out@[a].time.seconds() <= out@[b].time.seconds() by {
                        if pos < before.len() {
                            assert(before[pos as int].time.seconds() > row.time.seconds());
                        }
                    }
                }
            }
            i = i + 1;
        }
        assert(s0.subrange(0, s0.len() as int) =~= s0);
        out
    }
}

/// Replaces the rows of the window that starts on day `start` and runs
/// `days` days further with the high and low entries of `entries`, and
/// returns how many rows were stored from them.
pub fn update_tide_predictions(archive: &mut TideArchive, start: i32, days: i32, entries: &Vec<Prediction>) -> (r: usize)
    requires
        old(archive).wf(),
        entries_wf(entries@),
        0 <= days,
        start + days <= i32::MAX,
    ensures
        final(archive).wf(),
        final(archive)@ == refreshed(old(archive)@, start as int, days as int, entries@),
        r == ingested(entries@).len(),
{
    let ghost s0 = archive@;
    let end: i32 = start + days;
    let mut kept: Vec<TideRow> = Vec::new();
    let mut i: usize = 0;
    while i < archive.rows.len()
        invariant
            archive@ == s0,
            all_wf(s0),
            end == start + days,
            i <= s0.len(),
            kept@ == outside_window(s0.subrange(0, i as int), start as int, days as int),
            all_wf(kept@),
        decreases s0.len() - i,
    {
        let row = archive.rows[i];
        proof {
            let p = s0.subrange(0, i as int);
            assert(s0.subrange(0, i + 1) =~= p.push(row));
            p.lemma_filter_push(row, |r: TideRow| !in_window(r.time, start as int, days as int));
        }
        if !(start <= row.time.day && row.time.day <= end) {
            kept.push(row);
        }
        i = i + 1;
    }
    assert(s0.subrange(0, s0.len() as int) =~= s0);
    let ghost outside = kept@;
    let mut count: usize = 0;
    let mut k: usize = 0;
    while k < entries.len()
        invariant
            k <= entries@.len(),
            entries_wf(entries@),
            kept@ == outside + ingested(entries@.subrange(0, k as int)),
            count == ingested(entries@.subrange(0, k as int)).len(),
            all_wf(kept@),
            count <= k,
        decreases entries@.len() - k,
    {
        let e = entries[k];
        assert(entries@.subrange(0, k + 1).drop_last() =~= entries@.subrange(0, k as int));
        match e.kind {
            Some(kind) => {
                kept.push(TideRow { time: e.time, height_milli_ft: e.height_milli_ft, kind });
                count = count + 1;
            },
            None => {},
        }
        assert(kept@ =~= outside + ingested(entries@.subrange(0, k + 1)));
        k = k + 1;
    }
    assert(entries@.subrange(0, entries@.len() as int) =~= entries@);
    archive.rows = kept;
    count
}

/// `events` show `rows`, one for one.
pub open spec fn displays(events: Seq<FloodDisplay>, rows: Seq<TideRow>) -> bool {
    &&& events.len() == rows.len()
    &&& forall|i: int| 0 <= i < rows.len() ==> (#[trigger] events[i])@ == display_of(rows[i].time, rows[i].height_milli_ft)
}

/// The flood events at or after `now`, ordered by time, in display form.
pub fn get_flood_predictions(archive: &TideArchive, now: LocalDateTime) -> (r: Vec<FloodDisplay>)
    requires
        archive.wf(),
        now.wf(),
    ensures
        exists|rows: Seq<TideRow>| flood_order(archive@, now, rows) && displays(r@, rows),
{
    let rows = archive.flood_rows(now);
    let mut out: Vec<FloodDisplay> = Vec::new();
    let mut i: usize = 0;
    while i < rows.len()
        invariant
            i <= rows@.len(),
            all_wf(rows@),
            out@.len() == i,
            forall|j: int| 0 <= j < i ==> (#[trigger] out@[j])@ == display_of(rows@[j].time, rows@[j].height_milli_ft),
        decreases rows@.len() - i,
    {
        out.push(FloodDisplay::new(rows[i].time, rows[i].height_milli_ft));
        i = i + 1;
    }
    assert(displays(out@, rows@));
    out
}

} // verus!
