//! The ingestion pipeline over one table: from text cells to an evenly spaced
//! series, its channel classification and its site identity.

use crate::columns::{classification, first_position, position_from, position_of, texts, ColumnMapping};
use crate::ingest::{
    clone_row, deltas, first_format, format_text, format_votes, grid_len, is_mode_at, vote_count,
    is_series_of, is_time_header, majority_format, mode_interval, lemma_mode_unique, no_votes,
    regularize, rows_model, timestamp_format, wins_vote, Dataset, FileData, FileProcessorError,
    CANONICAL_FORMAT, FORMAT_SAMPLE_ROWS,
};
use crate::outside::{
    format_time, opt_view, formatted_time, lower_of, parse_time, parsed_time,
    sort_times, to_lowercase, TIME_LIMIT,
};
use crate::paths::{extension_of, file_extension, stem_of};
use crate::site_info::{inferred_type, site_after, SiteInfo};
use crate::text::contains_str;
use vstd::prelude::*;

verus! {

/// The state of one ingestion: the keywords that mark a timestamp header, and
/// what was found in the last table processed.
pub struct FileProcessor {
    pub timestamp_keywords: Vec<String>,
    pub time_col: Option<String>,
    pub start_timestamp: Option<i64>,
    pub end_timestamp: Option<i64>,
    pub df: Option<Dataset>,
    pub interval: Option<i64>,
    pub monitor_type: String,
    pub site_info: SiteInfo,
}

/// What ingestion yields: the series, its time range (seconds since 1970), the
/// number of filled gaps, the sampling interval (seconds), the channel
/// classification and the site identity.
pub struct ProcessedFileData {
    pub df: Dataset,
    pub start_timestamp: i64,
    pub end_timestamp: i64,
    pub gaps_filled: usize,
    pub interval: i64,
    pub column_mapping: ColumnMapping,
    pub monitor_type: String,
    pub site_id: String,
    pub site_name: String,
}

/// What re-slicing yields: the requested range, the interval and the row count.
pub struct UpdatedTimestampData {
    pub start_timestamp: String,
    pub end_timestamp: String,
    pub interval: i64,
    pub row_count: usize,
}

/// The instant read from each row's cell in column `col` (`None` for a row too
/// short or a cell that does not read).
pub open spec fn row_times(rows: Seq<Vec<String>>, col: int, format: Seq<char>) -> Seq<
    Option<i64>,
> {
    Seq::new(
        rows.len(),
        |i: int|
            if 0 <= col < rows[i]@.len() {
                parsed_time(rows[i]@[col]@, format)
            } else {
                None
            },
    )
}

/// The instants that were read, in row order.
pub open spec fn valid_times(times: Seq<Option<i64>>) -> Seq<i64>
    decreases times.len(),
{
    if times.len() == 0 {
        seq![]
    } else {
        let prev = valid_times(times.drop_last());
        match times.last() {
            Some(t) => prev.push(t),
            None => prev,
        }
    }
}

/// `s` is sorted in ascending order.
pub open spec fn ascending(s: Seq<i64>) -> bool {
    forall|i: int, j: int| 0 <= i <= j < s.len() ==> s[i] <= s[j]
}

/// `d` is the dominant interval of these instants: the dominant spacing of
/// their ascending order.
pub open spec fn dominant_interval(times: Seq<Option<i64>>, d: i64) -> bool {
    exists|s: Seq<i64>|
        ascending(s) && s.to_multiset() == valid_times(times).to_multiset() && exists|i: int|
            is_mode_at(deltas(s), i) && deltas(s)[i] == d
}

/// The sampling interval of these instants is unique: a sorted order and a
/// mode position are each unique.
pub proof fn lemma_dominant_unique(times: Seq<Option<i64>>, d1: i64, d2: i64)
    requires
        dominant_interval(times, d1),
        dominant_interval(times, d2),
    ensures
        d1 == d2,
{
    let s1 = choose|s: Seq<i64>|
        ascending(s) && s.to_multiset() == valid_times(times).to_multiset() && exists|i: int|
            is_mode_at(deltas(s), i) && deltas(s)[i] == d1;
    let s2 = choose|s: Seq<i64>|
        ascending(s) && s.to_multiset() == valid_times(times).to_multiset() && exists|i: int|
            is_mode_at(deltas(s), i) && deltas(s)[i] == d2;
    let leq = |x: i64, y: i64| x <= y;
    assert(vstd::relations::sorted_by(s1, leq));
    assert(vstd::relations::sorted_by(s2, leq));
    assert(vstd::relations::total_ordering(leq));
    vstd::seq_lib::lemma_sorted_unique(s1, s2, leq);
    assert(s1 == s2);
    let i1 = choose|i: int| is_mode_at(deltas(s1), i) && deltas(s1)[i] == d1;
    let i2 = choose|i: int| is_mode_at(deltas(s2), i) && deltas(s2)[i] == d2;
    lemma_mode_unique(deltas(s1), i1, i2);
}

pub proof fn lemma_valid_len(times: Seq<Option<i64>>)
    ensures
        valid_times(times).len() <= times.len(),
        none_read(times) ==> valid_times(times).len() == 0,
        (forall|j: int| 0 <= j < times.len() ==> #[trigger] times[j] is Some) ==> valid_times(
            times,
        ).len() == times.len(),
    decreases times.len(),
{
    if times.len() > 0 {
        let prev = times.drop_last();
        lemma_valid_len(prev);
        if none_read(times) {
            assert forall|j: int| 0 <= j < prev.len() implies #[trigger] prev[j] is None by {
                assert(prev[j] == times[j]);
            }
            assert(times[times.len() - 1] is None);
        }
        if forall|j: int| 0 <= j < times.len() ==> #[trigger] times[j] is Some {
            assert forall|j: int| 0 <= j < prev.len() implies #[trigger] prev[j] is Some by {
                assert(prev[j] == times[j]);
            }
            assert(times[times.len() - 1] is Some);
        }
    }
}

/// The text that a timestamp cell is normalised to.
pub open spec fn normalized(cell: Seq<char>, format: Seq<char>) -> Seq<char> {
    match parsed_time(cell, format) {
        Some(t) => match formatted_time(t, CANONICAL_FORMAT@) {
            Some(s) => s,
            None => "Invalid Date"@,
        },
        None => "Invalid Date"@,
    }
}

/// The first header, from position `i` on, that names the timestamp column.
pub open spec fn time_header_from(headers: Seq<Seq<char>>, keywords: Seq<Seq<char>>, i: int) -> Option<
    int,
>
    decreases headers.len() - i,
{
    if i < 0 || i >= headers.len() {
        None
    } else if is_time_header(headers[i], keywords) {
        Some(i)
    } else {
        time_header_from(headers, keywords, i + 1)
    }
}

/// The first header that names the timestamp column.
pub open spec fn first_time_header(headers: Seq<Seq<char>>, keywords: Seq<Seq<char>>) -> Option<
    int,
> {
    time_header_from(headers, keywords, 0)
}

pub proof fn lemma_time_header_from(headers: Seq<Seq<char>>, keywords: Seq<Seq<char>>, i: int)
    requires
        0 <= i,
    ensures
        time_header_from(headers, keywords, i) matches Some(j) ==> {
            &&& i <= j < headers.len()
            &&& is_time_header(headers[j], keywords)
            &&& forall|k: int| i <= k < j ==> !is_time_header(#[trigger] headers[k], keywords)
        },
        time_header_from(headers, keywords, i) is None ==> forall|k: int|
            i <= k < headers.len() ==> !is_time_header(#[trigger] headers[k], keywords),
    decreases headers.len() - i,
{
    if i < headers.len() && !is_time_header(headers[i], keywords) {
        lemma_time_header_from(headers, keywords, i + 1);
    }
}

/// The timestamp header is the first header of its name.
pub proof fn lemma_time_header_position(headers: Seq<Seq<char>>, keywords: Seq<Seq<char>>, i: int, k: int)
    requires
        first_time_header(headers, keywords) == Some(i),
        0 <= k <= i,
    ensures
        0 <= i < headers.len(),
        position_from(headers, headers[i], k) == Some(i),
    decreases i - k,
{
    lemma_time_header_from(headers, keywords, 0);
    if k < i {
        assert(!is_time_header(headers[k], keywords));
        assert(headers[k] != headers[i]);
        lemma_time_header_position(headers, keywords, i, k + 1);
    }
}

/// At most one format wins a vote.
pub proof fn lemma_winner_unique(votes: Seq<Option<usize>>, f: usize, g: usize)
    requires
        wins_vote(votes, f),
        wins_vote(votes, g),
    ensures
        f == g,
{
    if f < g {
        assert(vote_count(votes, f, votes.len() as int) < vote_count(votes, g, votes.len() as int));
        assert(vote_count(votes, f, votes.len() as int) <= vote_count(votes, g, votes.len() as int));
        assert(vote_count(votes, g, votes.len() as int) <= vote_count(votes, f, votes.len() as int));
    } else if g < f {
        assert(vote_count(votes, g, votes.len() as int) < vote_count(votes, f, votes.len() as int));
        assert(vote_count(votes, f, votes.len() as int) <= vote_count(votes, g, votes.len() as int));
    }
}

/// The instants read from each row's timestamp cell once it is normalised from `format`.
pub open spec fn normalized_times(rows: Seq<Vec<String>>, col: int, format: Seq<char>) -> Seq<
    Option<i64>,
> {
    Seq::new(
        rows.len(),
        |i: int|
            if 0 <= col < rows[i]@.len() {
                parsed_time(normalized(rows[i]@[col]@, format), CANONICAL_FORMAT@)
            } else {
                None
            },
    )
}

/// The instants of the rows at positions `ks`.
pub open spec fn kept_instants(times: Seq<i64>, ks: Seq<int>) -> Seq<Option<i64>> {
    Seq::new(ks.len(), |k: int| Some(times[ks[k]]))
}

/// The rows whose instant lies within `lo..=hi`, among the first `n`, in order.
pub open spec fn kept(times: Seq<i64>, lo: int, hi: int, n: int) -> Seq<int>
    decreases n,
{
    if n <= 0 {
        seq![]
    } else if lo <= times[n - 1] <= hi {
        kept(times, lo, hi, n - 1).push(n - 1)
    } else {
        kept(times, lo, hi, n - 1)
    }
}

/// Every row of the first `n` lies within `lo..=hi`.
pub proof fn lemma_kept_all(times: Seq<i64>, lo: int, hi: int, n: int)
    requires
        0 <= n <= times.len(),
        forall|j: int| 0 <= j < n ==> lo <= #[trigger] times[j] <= hi,
    ensures
        kept(times, lo, hi, n).len() == n,
    decreases n,
{
    if n > 0 {
        lemma_kept_all(times, lo, hi, n - 1);
    }
}

pub proof fn lemma_series_result_intro(
    ds: Dataset,
    gaps: nat,
    headers: Seq<Seq<char>>,
    rows: Seq<Vec<String>>,
    times: Seq<Option<i64>>,
    lo: i64,
    hi: i64,
    d: i64,
)
    requires
        is_time_range(times, lo, hi),
        d > 0,
        dominant_interval(times, d),
        is_series_of(ds, gaps, headers, rows, times, lo as int, hi as int, d as int),
    ensures
        series_result(ds, gaps, headers, rows, times, lo, hi, d),
{
    reveal(series_result);
}

/// A rebuilt series starts at its first instant and ends at the last grid
/// instant that does not pass its latest one.
pub proof fn lemma_series_end(
    ds: Dataset,
    gaps: nat,
    headers: Seq<Seq<char>>,
    rows: Seq<Vec<String>>,
    times: Seq<Option<i64>>,
    lo: i64,
    hi: i64,
    d: i64,
)
    requires
        series_result(ds, gaps, headers, rows, times, lo, hi, d),
    ensures
        ds.wf(),
        texts(ds.headers@) == headers,
        ds.times@.len() > 0,
        ds.times@[0] == lo,
        d > 0,
        grid_len(lo as int, ds.times@.last() as int, d as int) == ds.times@.len(),
        forall|k: int| 0 <= k < ds.times@.len() ==> #[trigger] ds.times@[k] == lo + k * d,
        ascending(ds.times@),
{
    reveal(series_result);
    let n = ds.times@.len();
    assert(hi - lo >= 0) by {
        let j = choose|j: int| 0 <= j < times.len() && times[j] == Some(hi);
        assert(times[j] is Some);
    }
    let q = (hi - lo) / (d as int);
    assert(q >= 0) by (nonlinear_arith)
        requires
            q == (hi - lo) / (d as int),
            d > 0,
            hi - lo >= 0,
    ;
    assert(n == q + 1);
    assert(ds.times@[0] == lo + 0 * d);
    let end = ds.times@[n - 1];
    assert(end == lo + q * d);
    assert((end - lo) / (d as int) == q) by (nonlinear_arith)
        requires
            end - lo == q * d,
            d > 0,
            q >= 0,
    ;
    assert forall|a: int, b: int| 0 <= a <= b < n implies ds.times@[a] <= ds.times@[b] by {
        assert(ds.times@[a] == lo + a * d);
        assert(ds.times@[b] == lo + b * d);
        assert(a * d <= b * d) by (nonlinear_arith)
            requires
                a <= b,
                d > 0,
        ;
    }
}

/// Re-slicing a series to its own first and last instants keeps every row. A
/// series that `process_file` leaves loaded is ascending, so this applies to
/// it right after ingestion.
pub proof fn lemma_reslice_full_range(ds: Dataset)
    requires
        ds.wf(),
        ds.times@.len() > 0,
        ascending(ds.times@),
    ensures
        kept(
            ds.times@,
            ds.times@[0] as int,
            ds.times@.last() as int,
            ds.times@.len() as int,
        ).len() == ds.times@.len(),
{
    lemma_kept_all(ds.times@, ds.times@[0] as int, ds.times@.last() as int, ds.times@.len() as int);
}

/// A rebuilt series is strictly increasing, and consecutive instants lie one
/// interval apart.
pub proof fn lemma_series_is_regular(
    ds: Dataset,
    gaps: nat,
    headers: Seq<Seq<char>>,
    rows: Seq<Vec<String>>,
    times: Seq<Option<i64>>,
    start: int,
    end: int,
    interval: int,
)
    requires
        interval > 0,
        is_series_of(ds, gaps, headers, rows, times, start, end, interval),
    ensures
        forall|k: int|
            0 <= k < ds.times@.len() - 1 ==> #[trigger] ds.times@[k + 1] - ds.times@[k] == interval,
        ascending(ds.times@),
        forall|i: int, j: int| 0 <= i < j < ds.times@.len() ==> ds.times@[i] < ds.times@[j],
{
    assert forall|k: int| 0 <= k < ds.times@.len() - 1 implies #[trigger] ds.times@[k + 1]
        - ds.times@[k] == interval by {
        assert(ds.times@[k + 1] == start + (k + 1) * interval);
        assert(ds.times@[k] == start + k * interval);
        assert((k + 1) * interval == k * interval + interval) by (nonlinear_arith);
    }
    assert forall|i: int, j: int| 0 <= i < j < ds.times@.len() implies ds.times@[i]
        < ds.times@[j] by {
        assert(ds.times@[i] == start + i * interval);
        assert(ds.times@[j] == start + j * interval);
        assert(i * interval < j * interval) by (nonlinear_arith)
            requires
                i < j,
                interval > 0,
        ;
    }
}

pub proof fn lemma_kept_bounds(times: Seq<i64>, lo: int, hi: int, n: int)
    ensures
        kept(times, lo, hi, n).len() <= if n < 0 { 0 } else { n },
        forall|k: int|
            0 <= k < kept(times, lo, hi, n).len() ==> 0 <= #[trigger] kept(times, lo, hi, n)[k] < n,
    decreases n,
{
    if n > 0 {
        lemma_kept_bounds(times, lo, hi, n - 1);
    }
}

/// Whether a header names the timestamp column.
fn is_time_header_exec(h: &str, keywords: &Vec<String>) -> (r: bool)
    ensures
        r == is_time_header(h@, texts(keywords@)),
{
    let lower = to_lowercase(h);
    let mut k: usize = 0;
    while k < keywords.len()
        invariant
            k <= keywords@.len(),
            lower@ == lower_of(h@),
            forall|j: int|
                0 <= j < k ==> !crate::text::seq_contains(lower_of(h@), #[trigger] texts(keywords@)[j]),
        decreases keywords@.len() - k,
    {
        if contains_str(lower.as_str(), keywords[k].as_str()) {
            assert(crate::text::seq_contains(lower_of(h@), texts(keywords@)[k as int]));
            return true;
        }
        k = k + 1;
    }
    false
}

/// The instants read from column `col` of every row.
pub fn read_times(rows: &Vec<Vec<String>>, col: usize, format: &str) -> (r: Vec<Option<i64>>)
    ensures
        r@ == row_times(rows@, col as int, format@),
        forall|i: int|
            0 <= i < r@.len() && r@[i] is Some ==> -TIME_LIMIT <= #[trigger] r@[i]->Some_0
                <= TIME_LIMIT,
{
    let mut r: Vec<Option<i64>> = Vec::new();
    let mut i: usize = 0;
    while i < rows.len()
        invariant
            i <= rows@.len(),
            r@ == row_times(rows@, col as int, format@).subrange(0, i as int),
            forall|j: int|
                0 <= j < r@.len() && r@[j] is Some ==> -TIME_LIMIT <= #[trigger] r@[j]->Some_0
                    <= TIME_LIMIT,
        decreases rows@.len() - i,
    {
        if col < rows[i].len() {
            r.push(parse_time(rows[i][col].as_str(), format));
        } else {
            r.push(None);
        }
        i = i + 1;
        proof {
            assert(r@ =~= row_times(rows@, col as int, format@).subrange(0, i as int));
        }
    }
    assert(row_times(rows@, col as int, format@).subrange(0, i as int) =~= row_times(
        rows@,
        col as int,
        format@,
    ));
    r
}

/// The instants that were read, in row order.
pub fn collect_valid(times: &Vec<Option<i64>>) -> (r: Vec<i64>)
    requires
        forall|i: int|
            0 <= i < times@.len() && times@[i] is Some ==> -TIME_LIMIT <= #[trigger] times@[i]->Some_0
                <= TIME_LIMIT,
    ensures
        r@ == valid_times(times@),
        forall|i: int| 0 <= i < r@.len() ==> -TIME_LIMIT <= #[trigger] r@[i] <= TIME_LIMIT,
{
    let mut r: Vec<i64> = Vec::new();
    let mut i: usize = 0;
    while i < times.len()
        invariant
            i <= times@.len(),
            r@ == valid_times(times@.subrange(0, i as int)),
            forall|j: int|
                0 <= j < times@.len() && times@[j] is Some ==> -TIME_LIMIT
                    <= #[trigger] times@[j]->Some_0 <= TIME_LIMIT,
            forall|j: int| 0 <= j < r@.len() ==> -TIME_LIMIT <= #[trigger] r@[j] <= TIME_LIMIT,
        decreases times@.len() - i,
    {
        assert(times@.subrange(0, i + 1).drop_last() =~= times@.subrange(0, i as int));
        match times[i] {
            Some(t) => {
                r.push(t);
            },
            None => {},
        }
        i = i + 1;
    }
    assert(times@.subrange(0, i as int) =~= times@);
    r
}

/// The sampling interval of these instants: the most frequent difference between
/// consecutive instants in ascending order, the first met on a tie; `None` where
/// fewer than two were read.
pub fn interval_of(times: &Vec<Option<i64>>) -> (r: Option<i64>)
    requires
        forall|i: int|
            0 <= i < times@.len() && times@[i] is Some ==> -TIME_LIMIT <= #[trigger] times@[i]->Some_0
                <= TIME_LIMIT,
    ensures
        r is None <==> valid_times(times@).len() < 2,
        r matches Some(d) ==> d >= 0 && dominant_interval(times@, d),
{
    let mut v = collect_valid(times);
    if v.len() < 2 {
        return None;
    }
    let ghost before = v@;
    sort_times(&mut v);
    proof {
        broadcast use vstd::seq_lib::group_to_multiset_ensures;

        assert(v@.len() == v@.to_multiset().len());
        assert(before.len() == before.to_multiset().len());
        assert forall|i: int| 0 <= i < v@.len() implies -TIME_LIMIT <= #[trigger] v@[i]
            <= TIME_LIMIT by {
            assert(v@.contains(v@[i]));
            assert(v@.to_multiset().count(v@[i]) > 0);
            assert(before.to_multiset().count(v@[i]) > 0);
            assert(before.contains(v@[i]));
        }
    }
    let r = mode_interval(&v);
    assert(ascending(v@));
    proof {
        if r is Some {
            let i = choose|i: int| is_mode_at(deltas(v@), i) && deltas(v@)[i] == r->Some_0;
            assert(v@[i] <= v@[i + 1]);
        }
    }
    r
}

/// `(lo, hi)` are the earliest and latest instants that were read.
pub open spec fn is_time_range(times: Seq<Option<i64>>, lo: i64, hi: i64) -> bool {
    &&& exists|j: int| 0 <= j < times.len() && times[j] == Some(lo)
    &&& exists|j: int| 0 <= j < times.len() && times[j] == Some(hi)
    &&& forall|j: int|
        0 <= j < times.len() && times[j] is Some ==> lo <= #[trigger] times[j]->Some_0 <= hi
}

/// `ds` with `gaps` is the series of these rows from `lo` to `hi`, the earliest
/// and latest instants, in steps of `d`, their positive dominant interval.
#[verifier::opaque]
pub open spec fn series_result(
    ds: Dataset,
    gaps: nat,
    headers: Seq<Seq<char>>,
    rows: Seq<Vec<String>>,
    times: Seq<Option<i64>>,
    lo: i64,
    hi: i64,
    d: i64,
) -> bool {
    &&& is_time_range(times, lo, hi)
    &&& d > 0
    &&& dominant_interval(times, d)
    &&& is_series_of(ds, gaps, headers, rows, times, lo as int, hi as int, d as int)
}

/// The cells of every row once its timestamp cell is normalised from `format`.
pub open spec fn normalized_cells(rows: Seq<Vec<String>>, col: int, format: Seq<char>) -> Seq<
    Seq<Seq<char>>,
> {
    Seq::new(
        rows.len(),
        |k: int|
            {
                let before = texts(rows[k]@);
                if 0 <= col < before.len() {
                    before.update(col, normalized(before[col], format))
                } else {
                    before
                }
            },
    )
}

/// No instant was read.
pub open spec fn none_read(times: Seq<Option<i64>>) -> bool {
    forall|j: int| 0 <= j < times.len() ==> #[trigger] times[j] is None
}

/// The earliest and latest instants that were read.
pub fn time_range(times: &Vec<Option<i64>>) -> (r: Option<(i64, i64)>)
    ensures
        match r {
            Some((lo, hi)) => is_time_range(times@, lo, hi),
            None => none_read(times@),
        },
{
    let mut r: Option<(i64, i64)> = None;
    let mut i: usize = 0;
    while i < times.len()
        invariant
            i <= times@.len(),
            match r {
                Some((lo, hi)) => is_time_range(times@.subrange(0, i as int), lo, hi),
                None => none_read(times@.subrange(0, i as int)),
            },
        decreases times@.len() - i,
    {
        let ghost old_r = r;
        let ghost pre = times@.subrange(0, i as int);
        let ghost cur = times@.subrange(0, i + 1);
        assert forall|j: int| 0 <= j < i implies cur[j] == pre[j] by {}
        match times[i] {
            Some(t) => {
                match r {
                    Some((lo, hi)) => {
                        let nlo = if t < lo { t } else { lo };
                        let nhi = if t > hi { t } else { hi };
                        r = Some((nlo, nhi));
                        proof {
                            let wl = if t < lo { i as int } else {
                                choose|j: int| 0 <= j < pre.len() && pre[j] == Some(lo)
                            };
                            let wh = if t > hi { i as int } else {
                                choose|j: int| 0 <= j < pre.len() && pre[j] == Some(hi)
                            };
                            assert(cur[wl] == Some(nlo));
                            assert(cur[wh] == Some(nhi));
                        }
                    },
                    None => {
                        r = Some((t, t));
                        assert(cur[i as int] == Some(t));
                    },
                }
            },
            None => {},
        }
        i = i + 1;
    }
    assert(times@.subrange(0, i as int) =~= times@);
    r
}

/// Row `k` of the slice is row `ks[k]` of `ds`.
pub open spec fn slice_row(
    ds: Dataset,
    times: Seq<i64>,
    rows: Seq<Vec<String>>,
    ks: Seq<int>,
    k: int,
) -> bool {
    times[k] == ds.times@[ks[k]] && texts(rows[k]@) == texts(ds.rows@[ks[k]]@)
}

/// The rows whose instant lies within `lo..=hi`, in order.
pub fn filter_range(ds: &Dataset, lo: i64, hi: i64) -> (r: Dataset)
    requires
        ds.wf(),
    ensures
        r.wf(),
        texts(r.headers@) == texts(ds.headers@),
        r.time_index == ds.time_index,
        r.times@.len() == kept(ds.times@, lo as int, hi as int, ds.times@.len() as int).len(),
        forall|k: int|
            0 <= k < r.times@.len() ==> #[trigger] slice_row(
                *ds,
                r.times@,
                r.rows@,
                kept(ds.times@, lo as int, hi as int, ds.times@.len() as int),
                k,
            ),
{
    let mut times: Vec<i64> = Vec::new();
    let mut rows: Vec<Vec<String>> = Vec::new();
    let mut i: usize = 0;
    while i < ds.times.len()
        invariant
            ds.wf(),
            i <= ds.times@.len(),
            times@.len() == rows@.len(),
            times@.len() == kept(ds.times@, lo as int, hi as int, i as int).len(),
            forall|k: int| 0 <= k < times@.len() ==> -TIME_LIMIT <= #[trigger] times@[k] <= TIME_LIMIT,
            forall|k: int|
                0 <= k < times@.len() ==> #[trigger] slice_row(
                    *ds,
                    times@,
                    rows@,
                    kept(ds.times@, lo as int, hi as int, i as int),
                    k,
                ),
        decreases ds.times@.len() - i,
    {
        let ghost prev = kept(ds.times@, lo as int, hi as int, i as int);
        let ghost old_times = times@;
        let ghost old_rows = rows@;
        proof {
            lemma_kept_bounds(ds.times@, lo as int, hi as int, i as int);
        }
        let t = ds.times[i];
        if lo <= t && t <= hi {
            times.push(t);
            rows.push(clone_row(&ds.rows[i]));
        }
        i = i + 1;
        proof {
            let ks = kept(ds.times@, lo as int, hi as int, i as int);
            lemma_kept_bounds(ds.times@, lo as int, hi as int, i as int);
            if lo <= t && t <= hi {
                assert(ks == prev.push(i - 1));
            } else {
                assert(ks == prev);
            }
            assert forall|k: int| 0 <= k < times@.len() implies #[trigger] slice_row(
                *ds,
                times@,
                rows@,
                ks,
                k,
            ) by {
                if k < old_times.len() {
                    assert(slice_row(*ds, old_times, old_rows, prev, k));
                    assert(times@[k] == old_times[k]);
                    assert(rows@[k] == old_rows[k]);
                    assert(ks[k] == prev[k]);
                }
            }
        }
    }
    Dataset { headers: clone_row(&ds.headers), time_index: ds.time_index, times, rows }
}

/// A copy of a series.
pub fn copy_dataset(ds: &Dataset) -> (r: Dataset)
    requires
        ds.wf(),
    ensures
        r.wf(),
        texts(r.headers@) == texts(ds.headers@),
        r.time_index == ds.time_index,
        r.times@ == ds.times@,
        rows_model(r.rows@) == rows_model(ds.rows@),
{
    let mut times: Vec<i64> = Vec::new();
    let mut rows: Vec<Vec<String>> = Vec::new();
    let mut i: usize = 0;
    while i < ds.times.len()
        invariant
            ds.wf(),
            i <= ds.times@.len(),
            times@ == ds.times@.subrange(0, i as int),
            rows@.len() == i,
            forall|k: int| 0 <= k < i ==> texts(#[trigger] rows@[k]@) == texts(ds.rows@[k]@),
        decreases ds.times@.len() - i,
    {
        times.push(ds.times[i]);
        rows.push(clone_row(&ds.rows[i]));
        i = i + 1;
        proof {
            assert(times@ =~= ds.times@.subrange(0, i as int));
        }
    }
    assert(times@ =~= ds.times@);
    assert(rows_model(rows@) =~= rows_model(ds.rows@));
    Dataset { headers: clone_row(&ds.headers), time_index: ds.time_index, times, rows }
}

fn message(s: &str) -> (r: String)
    ensures
        r@ == s@,
{
    String::from_str(s)
}

impl FileProcessor {
    /// A processor that marks timestamp headers by the given keywords, or by
    /// `timestamp`, `time stamp`, `time`, `date` and `datetime`.
    pub fn new(timestamp_keywords: Option<Vec<String>>) -> (r: FileProcessor)
        ensures
            match timestamp_keywords {
                Some(k) => r.timestamp_keywords == k,
                None => texts(r.timestamp_keywords@) == seq![
                    "timestamp"@,
                    "time stamp"@,
                    "time"@,
                    "date"@,
                    "datetime"@,
                ],
            },
            r.time_col is None,
            r.df is None,
            r.interval is None,
            r.start_timestamp is None,
            r.end_timestamp is None,
    {
        let keywords = match timestamp_keywords {
            Some(k) => k,
            None => {
                let mut v: Vec<String> = Vec::new();
                v.push(message("timestamp"));
                v.push(message("time stamp"));
                v.push(message("time"));
                v.push(message("date"));
                v.push(message("datetime"));
                assert(texts(v@) =~= seq![
                    "timestamp"@,
                    "time stamp"@,
                    "time"@,
                    "date"@,
                    "datetime"@,
                ]);
                v
            },
        };
        FileProcessor {
            timestamp_keywords: keywords,
            time_col: None,
            start_timestamp: None,
            end_timestamp: None,
            df: None,
            interval: None,
            monitor_type: message("Unknown"),
            site_info: SiteInfo::new(),
        }
    }

    /// The position of the first header whose lowercase form contains a keyword.
    pub fn timestamp_column_index(&self, headers: &Vec<String>) -> (r: Option<usize>)
        ensures
            match r {
                Some(i) => i < headers@.len() && first_time_header(
                    texts(headers@),
                    texts(self.timestamp_keywords@),
                ) == Some(i as int),
                None => first_time_header(texts(headers@), texts(self.timestamp_keywords@)) is None,
            },
    {
        let ghost h = texts(headers@);
        let ghost kw = texts(self.timestamp_keywords@);
        let mut i: usize = 0;
        while i < headers.len()
            invariant
                i <= headers@.len(),
                h == texts(headers@),
                kw == texts(self.timestamp_keywords@),
                first_time_header(h, kw) == time_header_from(h, kw, i as int),
            decreases headers@.len() - i,
        {
            if is_time_header_exec(headers[i].as_str(), &self.timestamp_keywords) {
                return Some(i);
            }
            i = i + 1;
        }
        None
    }

    /// The first header whose lowercase form contains one of the keywords.
    pub fn identify_timestamp_column(&self, file_data: &FileData) -> (r: Result<
        String,
        FileProcessorError,
    >)
        ensures
            match r {
                Ok(name) => exists|i: int|
                    first_time_header(texts(file_data.headers@), texts(self.timestamp_keywords@))
                        == Some(i) && name@ == file_data.headers@[i]@,
                Err(e) => e is TimestampColumnNotFound && first_time_header(
                    texts(file_data.headers@),
                    texts(self.timestamp_keywords@),
                ) is None,
            },
    {
        match self.timestamp_column_index(&file_data.headers) {
            Some(i) => Ok(file_data.headers[i].clone()),
            None => Err(FileProcessorError::TimestampColumnNotFound),
        }
    }

    /// The date-time format that reads the most timestamp cells among the first
    /// rows, the one of higher priority on a tie.
    pub fn identify_timestamp_format(&self, file_data: &FileData, timestamp_column: &str) -> (r:
        Result<String, FileProcessorError>)
        ensures
            match first_position(texts(file_data.headers@), timestamp_column@) {
                None => r matches Err(e) && e is TimestampColumnNotFound,
                Some(col) => match r {
                    Ok(f) => exists|g: usize|
                        wins_vote(format_votes(file_data.data@, col), g) && f@ == format_text(
                            g as int,
                        ),
                    Err(e) => e is TimestampFormatNotIdentified && no_votes(
                        format_votes(file_data.data@, col),
                    ),
                },
            },
    {
        let col = match position_of(&file_data.headers, timestamp_column) {
            Some(c) => c,
            None => {
                return Err(FileProcessorError::TimestampColumnNotFound);
            },
        };
        let rows = &file_data.data;
        let n = if rows.len() < FORMAT_SAMPLE_ROWS {
            rows.len()
        } else {
            FORMAT_SAMPLE_ROWS
        };
        let mut votes: Vec<Option<usize>> = Vec::new();
        let mut i: usize = 0;
        while i < n
            invariant
                i <= n,
                n == format_votes(rows@, col as int).len(),
                n <= rows@.len(),
                votes@ == format_votes(rows@, col as int).subrange(0, i as int),
            decreases n - i,
        {
            if col < rows[i].len() {
                votes.push(first_format(rows[i][col].as_str()));
            } else {
                votes.push(None);
            }
            i = i + 1;
            proof {
                assert(votes@ =~= format_votes(rows@, col as int).subrange(0, i as int));
            }
        }
        assert(votes@ =~= format_votes(rows@, col as int));
        match majority_format(&votes) {
            Some(f) => Ok(message(timestamp_format(f))),
            None => Err(FileProcessorError::TimestampFormatNotIdentified),
        }
    }

    /// Rewrites every cell of the timestamp column in the canonical format, or as
    /// `Invalid Date` where it does not read with `format`.
    pub fn parse_dates(&self, file_data: &mut FileData, timestamp_column: &str, format: &str) -> (r:
        Result<(), FileProcessorError>)
        ensures
            texts(final(file_data).headers@) == texts(old(file_data).headers@),
            match first_position(texts(old(file_data).headers@), timestamp_column@) {
                None => r matches Err(e) && e is TimestampColumnNotFound && rows_model(
                    final(file_data).data@,
                ) == rows_model(old(file_data).data@),
                Some(col) => r is Ok && final(file_data).data@.len() == old(file_data).data@.len()
                    && forall|i: int|
                    0 <= i < old(file_data).data@.len() ==> {
                        let before = texts(old(file_data).data@[i]@);
                        texts(#[trigger] final(file_data).data@[i]@) == if col < before.len() {
                            before.update(col, normalized(before[col], format@))
                        } else {
                            before
                        }
                    },
            },
    {
        let col = match position_of(&file_data.headers, timestamp_column) {
            Some(c) => c,
            None => {
                return Err(FileProcessorError::TimestampColumnNotFound);
            },
        };
        let mut data: Vec<Vec<String>> = Vec::new();
        let mut i: usize = 0;
        while i < file_data.data.len()
            invariant
                i <= file_data.data@.len(),
                data@.len() == i,
                forall|k: int|
                    0 <= k < i ==> {
                        let before = texts(file_data.data@[k]@);
                        texts(#[trigger] data@[k]@) == if col < before.len() {
                            before.update(col as int, normalized(before[col as int], format@))
                        } else {
                            before
                        }
                    },
            decreases file_data.data@.len() - i,
        {
            let mut row = clone_row(&file_data.data[i]);
            if col < row.len() {
                let cell = match parse_time(row[col].as_str(), format) {
                    Some(t) => match format_time(t, CANONICAL_FORMAT) {
                        Some(s) => s,
                        None => message("Invalid Date"),
                    },
                    None => message("Invalid Date"),
                };
                row.set(col, cell);
                proof {
                    assert(texts(row@) =~= texts(file_data.data@[i as int]@).update(
                        col as int,
                        normalized(texts(file_data.data@[i as int]@)[col as int], format@),
                    ));
                }
            }
            data.push(row);
            i = i + 1;
        }
        file_data.data = data;
        Ok(())
    }

    /// The earliest and latest instants of the timestamp column read with `format`.
    pub fn get_start_end_timestamps(
        &self,
        file_data: &FileData,
        timestamp_column: &str,
        format: &str,
    ) -> (r: Result<(i64, i64), FileProcessorError>)
        ensures
            match first_position(texts(file_data.headers@), timestamp_column@) {
                None => r matches Err(e) && e is TimestampColumnNotFound,
                Some(col) => match r {
                    Ok((lo, hi)) => is_time_range(row_times(file_data.data@, col, format@), lo, hi),
                    Err(e) => e is ParseError && none_read(row_times(file_data.data@, col, format@)),
                },
            },
    {
        let col = match position_of(&file_data.headers, timestamp_column) {
            Some(c) => c,
            None => {
                return Err(FileProcessorError::TimestampColumnNotFound);
            },
        };
        let times = read_times(&file_data.data, col, format);
        match time_range(&times) {
            Some(r) => Ok(r),
            None => Err(FileProcessorError::ParseError(message("No valid timestamps found"))),
        }
    }

    /// The sampling interval of the timestamp column read with `format`: the most
    /// frequent difference between consecutive instants in ascending order, the
    /// first met on a tie. Fails exactly where fewer than two instants read.
    pub fn calculate_interval(&self, file_data: &FileData, timestamp_column: &str, format: &str) -> (r:
        Result<i64, FileProcessorError>)
        ensures
            match first_position(texts(file_data.headers@), timestamp_column@) {
                None => r matches Err(e) && e is TimestampColumnNotFound,
                Some(col) => match r {
                    Ok(d) => d >= 0 && dominant_interval(row_times(file_data.data@, col, format@), d)
                        && valid_times(row_times(file_data.data@, col, format@)).len() >= 2,
                    Err(e) => e is ParseError && valid_times(row_times(file_data.data@, col, format@)).len()
                        < 2,
                },
            },
    {
        let col = match position_of(&file_data.headers, timestamp_column) {
            Some(c) => c,
            None => {
                return Err(FileProcessorError::TimestampColumnNotFound);
            },
        };
        let times = read_times(&file_data.data, col, format);
        match interval_of(&times) {
            Some(d) => Ok(d),
            None => Err(FileProcessorError::ParseError(message("Could not determine a mode interval"))),
        }
    }

    /// Rebuilds the table as a series evenly spaced by its interval, from its
    /// earliest to its latest instant; returns it with the number of gaps. Fails
    /// exactly where fewer than two instants read or the interval (the most
    /// frequent difference) is zero, as duplicate instants can make it.
    pub fn create_timestamp_series(
        &mut self,
        file_data: &FileData,
        timestamp_column: &str,
        format: &str,
    ) -> (r: Result<(Dataset, usize), FileProcessorError>)
        ensures
            final(self).site_info == old(self).site_info,
            final(self).df == old(self).df,
            final(self).time_col == old(self).time_col,
            match first_position(texts(file_data.headers@), timestamp_column@) {
                None => r matches Err(e) && e is TimestampColumnNotFound,
                Some(col) => {
                    let times = row_times(file_data.data@, col, format@);
                    match r {
                        Ok((ds, gaps)) => ds.time_index == col && valid_times(times).len() >= 2
                            && !dominant_interval(times, 0) && exists|lo: i64, hi: i64, d: i64|
                            #[trigger] series_result(
                                ds,
                                gaps as nat,
                                texts(file_data.headers@),
                                file_data.data@,
                                times,
                                lo,
                                hi,
                                d,
                            ) && final(self).interval == Some(d),
                        Err(e) => e is ParseError && (valid_times(times).len() < 2
                            || dominant_interval(times, 0)),
                    }
                },
            },
    {
        let col = match position_of(&file_data.headers, timestamp_column) {
            Some(c) => c,
            None => {
                return Err(FileProcessorError::TimestampColumnNotFound);
            },
        };
        let times = read_times(&file_data.data, col, format);
        let d = match interval_of(&times) {
            Some(d) => d,
            None => {
                return Err(
                    FileProcessorError::ParseError(message("Fewer than two timestamps could be read")),
                );
            },
        };
        let (lo, hi) = match time_range(&times) {
            Some(r) => r,
            None => {
                proof {
                    lemma_valid_len(times@);
                }
                return Err(FileProcessorError::ParseError(message("No valid timestamps found")));
            },
        };
        if d <= 0 {
            assert(d == 0);
            return Err(FileProcessorError::ParseError(message("The most frequent interval is zero")));
        }
        self.interval = Some(d);
        proof {
            let j = choose|j: int| 0 <= j < times@.len() && times@[j] == Some(lo);
            let k = choose|j: int| 0 <= j < times@.len() && times@[j] == Some(hi);
            assert(times@[j] is Some);
            assert(times@[k] is Some);
        }
        let (ds, gaps) = regularize(&file_data.headers, col, &file_data.data, &times, lo, hi, d);
        proof {
            let rt = row_times(file_data.data@, col as int, format@);
            assert(times@ == rt);
            lemma_series_result_intro(ds, gaps as nat, texts(file_data.headers@), file_data.data@, rt, lo, hi, d);
            assert(valid_times(rt).len() >= 2);
            if dominant_interval(rt, 0) {
                lemma_dominant_unique(rt, d, 0);
            }
            assert(!dominant_interval(rt, 0));
            assert(ds.time_index == col);
            assert(self.interval == Some(d));
            assert(first_position(texts(file_data.headers@), timestamp_column@) == Some(col as int));
        }
        Ok((ds, gaps))
    }
}

impl FileProcessor {
    /// A loaded series, if any, is well formed.
    pub open spec fn wf(&self) -> bool {
        self.df matches Some(ds) ==> ds.wf()
    }

    /// Classifies the channels of the loaded series, and sets the monitor type
    /// from the file name or, failing that, from the channels.
    pub fn get_column_names_and_indices(&mut self, file_name: &str) -> (r: Result<
        ColumnMapping,
        FileProcessorError,
    >)
        ensures
            match old(self).df {
                None => r matches Err(e) && e is ParseError,
                Some(ds) => r matches Ok(m) && m.model() == classification(
                    texts(ds.headers@),
                    match old(self).time_col {
                        Some(c) => c@,
                        None => seq![],
                    },
                ) && final(self).monitor_type@ == (match inferred_type(file_name@, m) {
                    Some(t) => t,
                    None => old(self).site_info.monitor_type@,
                }),
            },
            final(self).df == old(self).df,
            final(self).time_col == old(self).time_col,
            final(self).interval == old(self).interval,
    {
        let m = match &self.df {
            Some(ds) => {
                let empty = String::new();
                let tc = match &self.time_col {
                    Some(c) => c,
                    None => &empty,
                };
                ColumnMapping::classify(&ds.headers, tc.as_str())
            },
            None => {
                return Err(FileProcessorError::ParseError(message("DataFrame not available")));
            },
        };
        self.site_info.determine_monitor_type(file_name, &m);
        self.monitor_type = self.site_info.monitor_type.clone();
        Ok(m)
    }

    /// Ingests a table read from `file_path`: finds the timestamp column and its
    /// format, normalises the timestamps, rebuilds an evenly spaced series,
    /// classifies the channels and infers the site. Fails on an empty table, a
    /// missing timestamp column or format, fewer than two readable instants, a
    /// most frequent difference of zero, or a path with no file name.
    pub fn process_file(&mut self, file_path: &str, file_data: FileData) -> (r: Result<
        ProcessedFileData,
        FileProcessorError,
    >)
        ensures
            file_data.data@.len() == 0 ==> (r matches Err(e) && e is EmptyFileData),
            file_data.data@.len() > 0 ==> match first_time_header(
                texts(file_data.headers@),
                texts(old(self).timestamp_keywords@),
            ) {
                None => r matches Err(e) && e is TimestampColumnNotFound,
                Some(i) => {
                    let votes = format_votes(file_data.data@, i);
                    &&& no_votes(votes) ==> (r matches Err(e) && e is TimestampFormatNotIdentified)
                    &&& forall|f: usize| #[trigger]
                        wins_vote(votes, f) ==> {
                            let times = normalized_times(file_data.data@, i, format_text(f as int));
                            &&& r is Err ==> (r matches Err(e) && e is ParseError && (valid_times(
                                times,
                            ).len() < 2 || dominant_interval(times, 0) || stem_of(file_path@)
                                is None))
                            &&& r is Ok ==> valid_times(times).len() >= 2 && !dominant_interval(
                                times,
                                0,
                            )
                            &&& r matches Ok(p) ==> p.df.time_index == i && exists|
                                rows: Seq<Vec<String>>,
                                hi: i64,
                            |
                                rows_model(rows) == normalized_cells(
                                    file_data.data@,
                                    i,
                                    format_text(f as int),
                                ) && #[trigger] series_result(
                                    p.df,
                                    p.gaps_filled as nat,
                                    texts(file_data.headers@),
                                    rows,
                                    times,
                                    p.start_timestamp,
                                    hi,
                                    p.interval,
                                )
                        }
                },
            },
            r matches Ok(p) ==> p.df.wf() && p.interval > 0 && final(self).wf() && ascending(
                p.df.times@,
            ),
            r matches Ok(p) ==> p.df.times@.len() == grid_len(
                p.start_timestamp as int,
                p.end_timestamp as int,
                p.interval as int,
            ) && p.df.times@.len() > 0 && p.end_timestamp == p.df.times@.last(),
            r matches Ok(p) ==> forall|k: int|
                0 <= k < p.df.times@.len() ==> #[trigger] p.df.times@[k] == p.start_timestamp + k
                    * p.interval,
            r matches Ok(p) ==> (final(self).df matches Some(d) && d.times@ == p.df.times@
                && rows_model(d.rows@) == rows_model(p.df.rows@) && texts(d.headers@) == texts(
                p.df.headers@,
            ) && d.time_index == p.df.time_index),
            r matches Ok(p) ==> final(self).interval == Some(p.interval) && final(self).start_timestamp
                == Some(p.start_timestamp) && final(self).end_timestamp == Some(p.end_timestamp),
            r matches Ok(p) ==> (final(self).time_col matches Some(c) && c@
                == p.df.headers@[p.df.time_index as int]@),
            r matches Ok(p) ==> p.column_mapping.model() == classification(
                texts(p.df.headers@),
                p.df.headers@[p.df.time_index as int]@,
            ),
            r matches Ok(p) ==> (p.site_id@, p.site_name@, p.monitor_type@) == site_after(
                old(self).site_info,
                file_path@,
                p.column_mapping,
            ),
    {
        if file_data.data.len() == 0 {
            return Err(FileProcessorError::EmptyFileData);
        }
        let ghost hdrs0 = texts(file_data.headers@);
        let ghost rows0 = file_data.data@;
        let ghost kw = texts(self.timestamp_keywords@);
        let mut file_data = file_data;
        let col_name = match self.identify_timestamp_column(&file_data) {
            Ok(c) => c,
            Err(e) => {
                return Err(e);
            },
        };
        let ghost i = first_time_header(hdrs0, kw)->Some_0;
        proof {
            lemma_time_header_from(hdrs0, kw, 0);
            lemma_time_header_position(hdrs0, kw, i, 0);
            assert(first_position(hdrs0, col_name@) == Some(i));
        }
        let fmt = match self.identify_timestamp_format(&file_data, col_name.as_str()) {
            Ok(f) => f,
            Err(e) => {
                return Err(e);
            },
        };
        let ghost g = choose|g: usize| wins_vote(format_votes(rows0, i), g) && fmt@ == format_text(g as int);
        proof {
            assert forall|f: usize| #[trigger] wins_vote(format_votes(rows0, i), f) implies f == g by {
                lemma_winner_unique(format_votes(rows0, i), f, g);
            }
        }
        match self.parse_dates(&mut file_data, col_name.as_str(), fmt.as_str()) {
            Ok(()) => {},
            Err(e) => {
                return Err(e);
            },
        }
        proof {
            let nt = normalized_times(rows0, i, fmt@);
            let rt2 = row_times(file_data.data@, i, CANONICAL_FORMAT@);
            assert(fmt@ == format_text(g as int));
            assert forall|k: int| 0 <= k < rows0.len() implies #[trigger] rt2[k] == nt[k] by {
                let before = texts(rows0[k]@);
                assert(texts(file_data.data@[k]@).len() == before.len());
                if i < before.len() {
                    assert(texts(file_data.data@[k]@)[i] == normalized(before[i], fmt@));
                }
            }
            assert(rt2 =~= nt);
            assert(texts(file_data.headers@) == hdrs0);
        }
        let (ds, gaps) = match self.create_timestamp_series(
            &file_data,
            col_name.as_str(),
            CANONICAL_FORMAT,
        ) {
            Ok(x) => x,
            Err(e) => {
                return Err(e);
            },
        };
        let d = match self.interval {
            Some(d) => d,
            None => {
                return Err(FileProcessorError::ParseError(message("Could not determine a mode interval")));
            },
        };
        let ghost col = first_position(texts(file_data.headers@), col_name@)->Some_0;
        let ghost rt = row_times(file_data.data@, col, CANONICAL_FORMAT@);
        let ghost hdrs = texts(file_data.headers@);
        let ghost data = file_data.data@;
        let ghost (lo, hi, dd) = choose|lo: i64, hi: i64, dd: i64|
            #[trigger] series_result(ds, gaps as nat, hdrs, data, rt, lo, hi, dd) && self.interval
                == Some(dd);
        proof {
            lemma_series_end(ds, gaps as nat, hdrs, data, rt, lo, hi, dd);
            crate::columns::lemma_position_from(hdrs, col_name@, 0);
        }
        let n = ds.times.len();
        let start = ds.times[0];
        let end = ds.times[n - 1];
        self.df = Some(copy_dataset(&ds));
        self.time_col = Some(col_name.clone());
        let mapping = ColumnMapping::classify(&ds.headers, col_name.as_str());
        let ghost site0 = self.site_info;
        self.site_info.determine_monitor_type(file_path, &mapping);
        let ghost site1 = self.site_info;
        match self.site_info.extract_site_info(file_path, &mapping) {
            Ok(()) => {},
            Err(e) => {
                return Err(FileProcessorError::ParseError(e));
            },
        }
        self.monitor_type = self.site_info.monitor_type.clone();
        self.start_timestamp = Some(start);
        self.end_timestamp = Some(end);
        proof {
            assert(dd == d);
            assert(ds.time_index == col);
            assert(texts(ds.headers@)[col] == col_name@);
            assert(site0 == old(self).site_info);
            assert(site_after(site1, file_path@, mapping) == site_after(site0, file_path@, mapping));
            assert(end == ds.times@.last());
        }
        let result = ProcessedFileData {
            df: ds,
            start_timestamp: start,
            end_timestamp: end,
            gaps_filled: gaps,
            interval: d,
            column_mapping: mapping,
            monitor_type: self.site_info.monitor_type.clone(),
            site_id: self.site_info.site_id.clone(),
            site_name: self.site_info.site_name.clone(),
        };
        proof {
            assert(rows_model(data) =~= normalized_cells(rows0, i, fmt@));
            assert(series_result(result.df, gaps as nat, hdrs0, data, rt, start, hi, d));
            assert forall|f: usize| #[trigger] wins_vote(format_votes(rows0, i), f) implies (
            result.df.time_index == i && exists|rows: Seq<Vec<String>>, h: i64|
                rows_model(rows) == normalized_cells(rows0, i, format_text(f as int))
                    && #[trigger] series_result(
                    result.df,
                    result.gaps_filled as nat,
                    hdrs0,
                    rows,
                    normalized_times(rows0, i, format_text(f as int)),
                    result.start_timestamp,
                    h,
                    result.interval,
                )) by {
                assert(f == g);
                assert(col == i);
                assert(rt == normalized_times(rows0, i, fmt@));
                assert(format_text(f as int) == fmt@);
                assert(series_result(
                    result.df,
                    result.gaps_filled as nat,
                    hdrs0,
                    data,
                    normalized_times(rows0, i, format_text(f as int)),
                    result.start_timestamp,
                    hi,
                    result.interval,
                ));
            }
        }
        Ok(result)
    }
}

impl FileProcessor {
    /// Narrows the loaded series to the rows from `start_time` to `end_time`
    /// (both in the canonical format, both included). The interval is kept where
    /// known, else taken as the most frequent difference between the rows that
    /// remain (zero where fewer than two remain). Fails where a time does not read, the start is not before the end,
    /// or no row remains.
    pub fn update_timestamps(&mut self, start_time: &str, end_time: &str) -> (r: Result<
        UpdatedTimestampData,
        FileProcessorError,
    >)
        requires
            old(self).wf(),
        ensures
            final(self).wf(),
            old(self).df is None ==> (r matches Err(e) && e is ParseError),
            old(self).df is Some && old(self).time_col is None ==> (r matches Err(e)
                && e is TimestampColumnNotFound),
            old(self).df is Some && old(self).time_col is Some && (parsed_time(
                start_time@,
                CANONICAL_FORMAT@,
            ) is None || parsed_time(end_time@, CANONICAL_FORMAT@) is None) ==> (r matches Err(e)
                && e is ParseError),
            r is Err ==> final(self).df == old(self).df && final(self).interval == old(
                self,
            ).interval && final(self).start_timestamp == old(self).start_timestamp
                && final(self).end_timestamp == old(self).end_timestamp && final(self).time_col == old(
                self,
            ).time_col,
            r is Ok ==> final(self).time_col == old(self).time_col,
            r matches Ok(u) ==> {
                let ds = old(self).df->Some_0;
                let lo = parsed_time(start_time@, CANONICAL_FORMAT@)->Some_0;
                let hi = parsed_time(end_time@, CANONICAL_FORMAT@)->Some_0;
                let ks = kept(ds.times@, lo as int, hi as int, ds.times@.len() as int);
                &&& old(self).time_col is Some
                &&& lo < hi
                &&& ks.len() > 0
                &&& u.row_count == ks.len()
                &&& u.start_timestamp@ == start_time@
                &&& u.end_timestamp@ == end_time@
                &&& final(self).interval == Some(u.interval)
                &&& final(self).start_timestamp == Some(lo)
                &&& final(self).end_timestamp == Some(hi)
                &&& (old(self).interval matches Some(d) ==> u.interval == d)
                &&& (old(self).interval is None ==> dominant_interval(kept_instants(ds.times@, ks), u.interval)
                    || (ks.len() < 2 && u.interval == 0))
                &&& final(self).df matches Some(nds) && nds.times@.len() == ks.len()
                    && texts(nds.headers@) == texts(ds.headers@) && forall|k: int|
                    0 <= k < ks.len() ==> #[trigger] slice_row(ds, nds.times@, nds.rows@, ks, k)
            },
            r is Err && old(self).df is Some && old(self).time_col is Some && parsed_time(
                start_time@,
                CANONICAL_FORMAT@,
            ) is Some && parsed_time(end_time@, CANONICAL_FORMAT@) is Some ==> {
                let ds = old(self).df->Some_0;
                let lo = parsed_time(start_time@, CANONICAL_FORMAT@)->Some_0;
                let hi = parsed_time(end_time@, CANONICAL_FORMAT@)->Some_0;
                &&& (r matches Err(e) && e is ParseError)
                &&& lo >= hi || kept(ds.times@, lo as int, hi as int, ds.times@.len() as int).len()
                    == 0
            },
    {
        let ds = match &self.df {
            Some(ds) => ds,
            None => {
                return Err(
                    FileProcessorError::ParseError(message("No data loaded. Cannot update timestamps.")),
                );
            },
        };
        if self.time_col.is_none() {
            return Err(FileProcessorError::TimestampColumnNotFound);
        }
        let lo = match parse_time(start_time, CANONICAL_FORMAT) {
            Some(t) => t,
            None => {
                return Err(FileProcessorError::ParseError(message("Failed to parse start timestamp")));
            },
        };
        let hi = match parse_time(end_time, CANONICAL_FORMAT) {
            Some(t) => t,
            None => {
                return Err(FileProcessorError::ParseError(message("Failed to parse end timestamp")));
            },
        };
        if lo >= hi {
            return Err(FileProcessorError::ParseError(message("Start time must be before end time")));
        }
        let filtered = filter_range(ds, lo, hi);
        if filtered.times.len() == 0 {
            return Err(FileProcessorError::ParseError(message("No data in the specified time range")));
        }
        let d = match self.interval {
            Some(d) => d,
            None => {
                let mut opt: Vec<Option<i64>> = Vec::new();
                let mut i: usize = 0;
                while i < filtered.times.len()
                    invariant
                        filtered.wf(),
                        i <= filtered.times@.len(),
                        opt@.len() == i,
                        forall|j: int| 0 <= j < i ==> #[trigger] opt@[j] == Some(filtered.times@[j]),
                    decreases filtered.times@.len() - i,
                {
                    opt.push(Some(filtered.times[i]));
                    i = i + 1;
                }
                proof {
                    let ks = kept(ds.times@, lo as int, hi as int, ds.times@.len() as int);
                    assert forall|j: int| 0 <= j < opt@.len() implies #[trigger] opt@[j]
                        == kept_instants(ds.times@, ks)[j] by {
                        assert(slice_row(*ds, filtered.times@, filtered.rows@, ks, j));
                    }
                    assert(opt@ =~= kept_instants(ds.times@, ks));
                    lemma_valid_len(opt@);
                }
                match interval_of(&opt) {
                    Some(d) => d,
                    None => 0,
                }
            },
        };
        let row_count = filtered.times.len();
        self.start_timestamp = Some(lo);
        self.end_timestamp = Some(hi);
        self.interval = Some(d);
        self.df = Some(filtered);
        Ok(
            UpdatedTimestampData {
                start_timestamp: message(start_time),
                end_timestamp: message(end_time),
                interval: d,
                row_count,
            },
        )
    }
}

/// The kinds of file that can be read.
#[derive(Debug, PartialEq, Eq, Structural)]
pub enum SourceFormat {
    Spreadsheet,
    Delimited,
}

/// Which reader a file needs, by its extension in lower case: `xlsx` is a
/// spreadsheet, `csv` delimited text; any other is unsupported.
pub fn source_format(file_path: &str) -> (r: Result<SourceFormat, FileProcessorError>)
    ensures
        match extension_of(file_path@) {
            None => r matches Err(e) && e is UnsupportedFileFormat,
            Some(ext) => {
                if lower_of(ext) == "xlsx"@ {
                    r == Ok::<SourceFormat, FileProcessorError>(SourceFormat::Spreadsheet)
                } else if lower_of(ext) == "csv"@ {
                    r == Ok::<SourceFormat, FileProcessorError>(SourceFormat::Delimited)
                } else {
                    r matches Err(e) && e is UnsupportedFileFormat
                }
            },
        },
{
    let ext = match file_extension(file_path) {
        Some(e) => e,
        None => {
            return Err(FileProcessorError::UnsupportedFileFormat(message("Unknown")));
        },
    };
    let lower = to_lowercase(ext.as_str());
    if crate::text::same_text(lower.as_str(), "xlsx") {
        Ok(SourceFormat::Spreadsheet)
    } else if crate::text::same_text(lower.as_str(), "csv") {
        Ok(SourceFormat::Delimited)
    } else {
        Err(FileProcessorError::UnsupportedFileFormat(ext))
    }
}

/// The format of a time picked in a form: date, `T`, hours and minutes.
pub const PICKER_FORMAT: &'static str = "%Y-%m-%dT%H:%M";

/// The instant a user-given time names: read as a picked time, or else in the
/// canonical format.
pub open spec fn user_time(text: Seq<char>) -> Option<i64> {
    match parsed_time(text, PICKER_FORMAT@) {
        Some(t) => Some(t),
        None => parsed_time(text, CANONICAL_FORMAT@),
    }
}

/// A user-given time rewritten in the canonical format; `None` where it does not
/// read or cannot be written.
pub fn format_timestamp(text: &str) -> (r: Option<String>)
    ensures
        match user_time(text@) {
            None => r is None,
            Some(t) => opt_view(r) == formatted_time(t, CANONICAL_FORMAT@),
        },
{
    let t = match parse_time(text, PICKER_FORMAT) {
        Some(t) => t,
        None => parse_time(text, CANONICAL_FORMAT)?,
    };
    format_time(t, CANONICAL_FORMAT)
}

impl ProcessedFileData {
    /// Replaces the site id with one the user gives.
    pub fn update_site_id(&mut self, site_id: String)
        ensures
            final(self).site_id == site_id,
            final(self).site_name == old(self).site_name,
            final(self).monitor_type == old(self).monitor_type,
            final(self).df == old(self).df,
    {
        self.site_id = site_id;
    }

    /// Replaces the site name with one the user gives.
    pub fn update_site_name(&mut self, site_name: String)
        ensures
            final(self).site_name == site_name,
            final(self).site_id == old(self).site_id,
            final(self).monitor_type == old(self).monitor_type,
            final(self).df == old(self).df,
    {
        self.site_name = site_name;
    }
}

} // verus!
