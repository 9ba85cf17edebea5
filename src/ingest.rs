//! Ingestion of a table of text cells: timestamp column and format detection,
//! the dominant sampling interval, and the rebuilding of an evenly spaced series.

use crate::columns::texts;
use crate::outside::{lower_of, parse_time, parsed_time, TIME_LIMIT};
use crate::text::seq_contains;
use vstd::prelude::*;

verus! {

/// A table as read from a file: its header row and its data rows.
pub struct FileData {
    pub headers: Vec<String>,
    pub data: Vec<Vec<String>>,
}

/// What can go wrong while ingesting a file.
#[derive(Debug)]
pub enum FileProcessorError {
    FileNotFound(String),
    UnsupportedFileFormat(String),
    EmptyFileData,
    TimestampColumnNotFound,
    TimestampFormatNotIdentified,
    SheetNotFound,
    ParseError(String),
    IoError(String),
    CsvError(String),
}

/// How many date-time formats are tried on timestamp cells.
pub const NUM_FORMATS: usize = 7;

/// How many data rows are sampled to pick the timestamp format.
pub const FORMAT_SAMPLE_ROWS: usize = 100;

/// The date-time formats tried on timestamp cells, in order of priority.
pub open spec fn format_text(i: int) -> Seq<char> {
    if i == 0 {
        "%d/%m/%Y %H:%M"@
    } else if i == 1 {
        "%m/%d/%Y %H:%M"@
    } else if i == 2 {
        "%d-%m-%Y %H:%M:%S"@
    } else if i == 3 {
        "%d-%m-%Y %H:%M"@
    } else if i == 4 {
        "%Y%m%d%H%M%S"@
    } else if i == 5 {
        "%Y-%m-%d %H:%M:%S"@
    } else {
        "%Y/%m/%d %H:%M:%S"@
    }
}

/// The format of a timestamp column once its values are normalised.
pub const CANONICAL_FORMAT: &'static str = "%Y-%m-%d %H:%M:%S";

/// The date-time format of priority `i`.
pub fn timestamp_format(i: usize) -> (r: &'static str)
    requires
        i < NUM_FORMATS,
    ensures
        r@ == format_text(i as int),
{
    if i == 0 {
        "%d/%m/%Y %H:%M"
    } else if i == 1 {
        "%m/%d/%Y %H:%M"
    } else if i == 2 {
        "%d-%m-%Y %H:%M:%S"
    } else if i == 3 {
        "%d-%m-%Y %H:%M"
    } else if i == 4 {
        "%Y%m%d%H%M%S"
    } else if i == 5 {
        "%Y-%m-%d %H:%M:%S"
    } else {
        "%Y/%m/%d %H:%M:%S"
    }
}

/// A header names the timestamp column when its lowercase form contains a keyword.
pub open spec fn is_time_header(h: Seq<char>, keywords: Seq<Seq<char>>) -> bool {
    exists|k: int| 0 <= k < keywords.len() && seq_contains(lower_of(h), #[trigger] keywords[k])
}

/// The first format, from priority `f` on, that reads the cell.
pub open spec fn first_format_from(cell: Seq<char>, f: int) -> Option<usize>
    decreases NUM_FORMATS - f,
{
    if f < 0 || f >= NUM_FORMATS {
        None
    } else if parsed_time(cell, format_text(f)) is Some {
        Some(f as usize)
    } else {
        first_format_from(cell, f + 1)
    }
}

/// The vote of each sampled row: the first format that reads its timestamp cell.
pub open spec fn format_votes(rows: Seq<Vec<String>>, col: int) -> Seq<Option<usize>> {
    Seq::new(
        if rows.len() < FORMAT_SAMPLE_ROWS {
            rows.len()
        } else {
            FORMAT_SAMPLE_ROWS as nat
        },
        |i: int|
            if col < rows[i]@.len() {
                first_format_from(rows[i]@[col]@, 0)
            } else {
                None
            },
    )
}

/// How many of the first `n` votes go to format `f`.
pub open spec fn vote_count(votes: Seq<Option<usize>>, f: usize, n: int) -> nat
    decreases n,
{
    if n <= 0 {
        0
    } else {
        vote_count(votes, f, n - 1) + if votes[n - 1] == Some(f) {
            1nat
        } else {
            0nat
        }
    }
}

/// Format `f` wins the vote: it has votes, no format has more, and every format of
/// higher priority has fewer.
pub open spec fn wins_vote(votes: Seq<Option<usize>>, f: usize) -> bool {
    &&& f < NUM_FORMATS
    &&& vote_count(votes, f, votes.len() as int) > 0
    &&& forall|g: usize|
        g < NUM_FORMATS ==> vote_count(votes, g, votes.len() as int) <= vote_count(
            votes,
            f,
            votes.len() as int,
        )
    &&& forall|g: usize|
        g < f ==> vote_count(votes, g, votes.len() as int) < vote_count(
            votes,
            f,
            votes.len() as int,
        )
}

/// No format has a vote.
pub open spec fn no_votes(votes: Seq<Option<usize>>) -> bool {
    forall|g: usize| g < NUM_FORMATS ==> vote_count(votes, g, votes.len() as int) == 0
}

/// The format with the most votes, the one of higher priority on a tie; `None`
/// when no format has a vote.
pub fn majority_format(votes: &Vec<Option<usize>>) -> (r: Option<usize>)
    ensures
        match r {
            Some(f) => wins_vote(votes@, f),
            None => no_votes(votes@),
        },
{
    let mut counts: Vec<usize> = Vec::new();
    let mut g: usize = 0;
    while g < NUM_FORMATS
        invariant
            g <= NUM_FORMATS,
            counts@.len() == g,
            forall|h: int| 0 <= h < g ==> counts@[h] == 0,
        decreases NUM_FORMATS - g,
    {
        counts.push(0);
        g = g + 1;
    }
    let mut i: usize = 0;
    while i < votes.len()
        invariant
            i <= votes@.len(),
            counts@.len() == NUM_FORMATS,
            forall|h: int|
                0 <= h < NUM_FORMATS ==> counts@[h] == vote_count(votes@, h as usize, i as int),
            forall|h: int| 0 <= h < NUM_FORMATS ==> counts@[h] <= i,
        decreases votes@.len() - i,
    {
        match votes[i] {
            Some(f) => {
                if f < NUM_FORMATS {
                    counts.set(f, counts[f] + 1);
                }
            },
            None => {},
        }
        i = i + 1;
    }
    let mut best: usize = 0;
    let mut h: usize = 1;
    while h < NUM_FORMATS
        invariant
            1 <= h <= NUM_FORMATS,
            best < h,
            counts@.len() == NUM_FORMATS,
            forall|k: int|
                0 <= k < NUM_FORMATS ==> counts@[k] == vote_count(votes@, k as usize, votes@.len() as int),
            forall|k: int| 0 <= k < h ==> counts@[k] <= counts@[best as int],
            forall|k: int| 0 <= k < best ==> counts@[k] < counts@[best as int],
        decreases NUM_FORMATS - h,
    {
        if counts[h] > counts[best] {
            best = h;
        }
        h = h + 1;
    }
    if counts[best] == 0 {
        assert forall|g: usize| g < NUM_FORMATS implies vote_count(votes@, g, votes@.len() as int)
            == 0 by {
            assert(counts@[g as int] <= counts@[best as int]);
        }
        None
    } else {
        assert forall|g: usize| g < NUM_FORMATS implies vote_count(votes@, g, votes@.len() as int)
            <= vote_count(votes@, best, votes@.len() as int) by {
            assert(counts@[g as int] <= counts@[best as int]);
        }
        assert forall|g: usize| g < best implies vote_count(votes@, g, votes@.len() as int)
            < vote_count(votes@, best, votes@.len() as int) by {
            assert(counts@[g as int] < counts@[best as int]);
        }
        Some(best)
    }
}

/// The first format that reads `cell`.
pub fn first_format(cell: &str) -> (r: Option<usize>)
    ensures
        r == first_format_from(cell@, 0),
{
    let mut f: usize = 0;
    while f < NUM_FORMATS
        invariant
            f <= NUM_FORMATS,
            first_format_from(cell@, 0) == first_format_from(cell@, f as int),
        decreases NUM_FORMATS - f,
    {
        if parse_time(cell, timestamp_format(f)).is_some() {
            return Some(f);
        }
        f = f + 1;
    }
    None
}

/// The differences between consecutive values.
pub open spec fn deltas(t: Seq<i64>) -> Seq<int> {
    Seq::new(if t.len() == 0 { 0nat } else { (t.len() - 1) as nat }, |i: int| t[i + 1] - t[i])
}

/// How many of the first `n` values equal `d`.
pub open spec fn occurrences(s: Seq<int>, d: int, n: int) -> nat
    decreases n,
{
    if n <= 0 {
        0
    } else {
        occurrences(s, d, n - 1) + if s[n - 1] == d {
            1nat
        } else {
            0nat
        }
    }
}

/// Position `i` holds the mode of `s`: its value occurs at least as often as
/// any other value, and more often than every value seen before it (so a tie
/// goes to the value seen first).
pub open spec fn is_mode_at(s: Seq<int>, i: int) -> bool {
    &&& 0 <= i < s.len()
    &&& forall|j: int|
        0 <= j < s.len() ==> occurrences(s, #[trigger] s[j], s.len() as int) <= occurrences(
            s,
            s[i],
            s.len() as int,
        )
    &&& forall|j: int|
        0 <= j < i ==> occurrences(s, #[trigger] s[j], s.len() as int) < occurrences(
            s,
            s[i],
            s.len() as int,
        )
}

/// A sequence has at most one mode position.
pub proof fn lemma_mode_unique(s: Seq<int>, i: int, j: int)
    requires
        is_mode_at(s, i),
        is_mode_at(s, j),
    ensures
        i == j,
{
    if i < j {
        assert(occurrences(s, s[i], s.len() as int) < occurrences(s, s[j], s.len() as int));
        assert(occurrences(s, s[j], s.len() as int) <= occurrences(s, s[i], s.len() as int));
    } else if j < i {
        assert(occurrences(s, s[j], s.len() as int) < occurrences(s, s[i], s.len() as int));
        assert(occurrences(s, s[i], s.len() as int) <= occurrences(s, s[j], s.len() as int));
    }
}

pub proof fn lemma_occurrences_bound(s: Seq<int>, d: int, n: int)
    ensures
        occurrences(s, d, n) <= if n < 0 { 0 } else { n },
    decreases n,
{
    if n > 0 {
        lemma_occurrences_bound(s, d, n - 1);
    }
}

/// The most frequent difference between consecutive values, the first one met on
/// a tie; `None` where there are fewer than two values.
pub fn mode_interval(t: &Vec<i64>) -> (r: Option<i64>)
    requires
        forall|i: int| 0 <= i < t@.len() ==> -TIME_LIMIT <= #[trigger] t@[i] <= TIME_LIMIT,
    ensures
        r is None <==> t@.len() < 2,
        r matches Some(d) ==> exists|i: int| is_mode_at(deltas(t@), i) && deltas(t@)[i] == d,
{
    broadcast use vstd::std_specs::hash::group_hash_axioms;

    let ghost s = deltas(t@);
    if t.len() < 2 {
        return None;
    }
    let n = t.len() - 1;
    let mut counts: std::collections::HashMap<i64, usize> = std::collections::HashMap::new();
    let mut i: usize = 0;
    while i < n
        invariant
            n == t@.len() - 1,
            s == deltas(t@),
            i <= n,
            forall|k: int| 0 <= k < t@.len() ==> -TIME_LIMIT <= #[trigger] t@[k] <= TIME_LIMIT,
            forall|d: i64| #[trigger]
                counts@.contains_key(d) ==> counts@[d] == occurrences(s, d as int, i as int),
            forall|d: i64| !#[trigger] counts@.contains_key(d) ==> occurrences(s, d as int, i as int)
                == 0,
        decreases n - i,
    {
        let d: i64 = t[i + 1] - t[i];
        proof {
            lemma_occurrences_bound(s, d as int, i as int);
        }
        let c: usize = match counts.get(&d) {
            Some(c) => *c,
            None => 0,
        };
        counts.insert(d, c + 1);
        i = i + 1;
        assert forall|e: i64| #[trigger] counts@.contains_key(e) implies counts@[e] == occurrences(
            s,
            e as int,
            i as int,
        ) by {
            if e != d {
                assert(occurrences(s, e as int, i as int) == occurrences(s, e as int, i - 1));
            }
        }
    }
    let first: i64 = t[1] - t[0];
    assert(s[0] == first);
    let mut best: usize = 0;
    let mut best_count: usize = match counts.get(&first) {
        Some(c) => *c,
        None => 0,
    };
    let mut j: usize = 1;
    while j < n
        invariant
            n == t@.len() - 1,
            s == deltas(t@),
            1 <= j <= n,
            forall|k: int| 0 <= k < t@.len() ==> -TIME_LIMIT <= #[trigger] t@[k] <= TIME_LIMIT,
            forall|d: i64| #[trigger]
                counts@.contains_key(d) ==> counts@[d] == occurrences(s, d as int, n as int),
            forall|d: i64| !#[trigger] counts@.contains_key(d) ==> occurrences(s, d as int, n as int)
                == 0,
            best < j,
            best_count == occurrences(s, s[best as int], n as int),
            forall|k: int| 0 <= k < j ==> occurrences(s, #[trigger] s[k], n as int) <= best_count,
            forall|k: int| 0 <= k < best ==> occurrences(s, #[trigger] s[k], n as int) < best_count,
        decreases n - j,
    {
        let d: i64 = t[j + 1] - t[j];
        assert(s[j as int] == d);
        let c: usize = match counts.get(&d) {
            Some(c) => *c,
            None => 0,
        };
        if c > best_count {
            best = j;
            best_count = c;
        }
        j = j + 1;
    }
    assert(is_mode_at(s, best as int));
    Some(t[best + 1] - t[best])
}

/// A table whose rows are evenly spaced in time. `times[i]` is the instant of
/// row `i`, in seconds since 1970; `rows[i]` holds the row's cells as read (all
/// empty in a row that fills a gap).
pub struct Dataset {
    pub headers: Vec<String>,
    pub time_index: usize,
    pub times: Vec<i64>,
    pub rows: Vec<Vec<String>>,
}

impl Dataset {
    pub open spec fn wf(&self) -> bool {
        &&& self.times@.len() == self.rows@.len()
        &&& forall|i: int|
            0 <= i < self.times@.len() ==> -TIME_LIMIT <= #[trigger] self.times@[i] <= TIME_LIMIT
    }
}

/// How many instants the grid from `start` to `end` in steps of `interval` has.
pub open spec fn grid_len(start: int, end: int, interval: int) -> nat {
    ((end - start) / interval + 1) as nat
}

/// Some row has the instant `t`.
pub open spec fn hit(times: Seq<Option<i64>>, t: int) -> bool {
    exists|j: int| 0 <= j < times.len() && #[trigger] holds_at(times, j, t)
}

/// Row `j` has the instant `t`.
pub open spec fn holds_at(times: Seq<Option<i64>>, j: int, t: int) -> bool {
    times[j] is Some && times[j]->Some_0 == t
}

/// Row `j` is the last row with the instant `t`.
pub open spec fn is_last(times: Seq<Option<i64>>, t: int, j: int) -> bool {
    &&& 0 <= j < times.len()
    &&& holds_at(times, j, t)
    &&& forall|k: int| j < k < times.len() ==> !holds_at(times, k, t)
}

/// The last row with the instant `t`, where some row has it.
pub open spec fn last_row(times: Seq<Option<i64>>, t: int) -> int {
    choose|j: int| is_last(times, t, j)
}

/// How many of the first `k` grid instants no row has.
pub open spec fn gaps_upto(times: Seq<Option<i64>>, start: int, interval: int, k: int) -> nat
    decreases k,
{
    if k <= 0 {
        0
    } else {
        gaps_upto(times, start, interval, k - 1) + if hit(times, start + (k - 1) * interval) {
            0nat
        } else {
            1nat
        }
    }
}

/// The cells of every row.
pub open spec fn rows_model(rows: Seq<Vec<String>>) -> Seq<Seq<Seq<char>>> {
    rows.map_values(|r: Vec<String>| texts(r@))
}

/// `ds` with `gaps` is the series that `regularize` builds from these rows.
pub open spec fn is_series_of(
    ds: Dataset,
    gaps: nat,
    headers: Seq<Seq<char>>,
    rows: Seq<Vec<String>>,
    times: Seq<Option<i64>>,
    start: int,
    end: int,
    interval: int,
) -> bool {
    &&& ds.wf()
    &&& texts(ds.headers@) == headers
    &&& ds.times@.len() == grid_len(start, end, interval)
    &&& forall|k: int| 0 <= k < ds.times@.len() ==> #[trigger] ds.times@[k] == start + k * interval
    &&& forall|k: int|
        0 <= k < ds.rows@.len() && hit(times, start + k * interval) ==> texts(
            #[trigger] ds.rows@[k]@,
        ) == texts(rows[last_row(times, start + k * interval)]@)
    &&& forall|k: int|
        0 <= k < ds.rows@.len() && !hit(times, start + k * interval) ==> texts(
            #[trigger] ds.rows@[k]@,
        ) == blank_row(headers.len())
    &&& gaps == gaps_upto(times, start, interval, grid_len(start, end, interval) as int)
}

/// A row of `w` empty cells.
pub open spec fn blank_row(w: nat) -> Seq<Seq<char>> {
    Seq::new(w, |i: int| Seq::<char>::empty())
}

/// A copy of a row of cells.
pub fn clone_row(r: &Vec<String>) -> (c: Vec<String>)
    ensures
        texts(c@) == texts(r@),
{
    let mut c: Vec<String> = Vec::new();
    let mut i: usize = 0;
    while i < r.len()
        invariant
            i <= r@.len(),
            c@.len() == i,
            forall|j: int| 0 <= j < i ==> #[trigger] c@[j]@ == r@[j]@,
        decreases r@.len() - i,
    {
        c.push(r[i].clone());
        i = i + 1;
    }
    assert(texts(c@) =~= texts(r@));
    c
}

/// A row of `w` empty cells.
pub fn empty_row(w: usize) -> (c: Vec<String>)
    ensures
        texts(c@) == blank_row(w as nat),
{
    let mut c: Vec<String> = Vec::new();
    let mut i: usize = 0;
    while i < w
        invariant
            i <= w,
            c@.len() == i,
            forall|j: int| 0 <= j < i ==> #[trigger] c@[j]@ == Seq::<char>::empty(),
        decreases w - i,
    {
        c.push(String::new());
        i = i + 1;
    }
    assert(texts(c@) =~= blank_row(w as nat));
    c
}

/// The series from `start` to `end` in steps of `interval`: each instant takes the
/// last row read at that instant, or a row of empty cells where none was (a gap).
/// Rows whose instant is off the grid are dropped. Returns the series and the
/// number of gaps.
pub fn regularize(
    headers: &Vec<String>,
    time_index: usize,
    rows: &Vec<Vec<String>>,
    times: &Vec<Option<i64>>,
    start: i64,
    end: i64,
    interval: i64,
) -> (r: (Dataset, usize))
    requires
        rows@.len() == times@.len(),
        0 < interval,
        -TIME_LIMIT <= start <= end <= TIME_LIMIT,
    ensures
        r.0.time_index == time_index,
        is_series_of(
            r.0,
            r.1 as nat,
            texts(headers@),
            rows@,
            times@,
            start as int,
            end as int,
            interval as int,
        ),
{
    broadcast use vstd::std_specs::hash::group_hash_axioms;

    let mut last: std::collections::HashMap<i64, usize> = std::collections::HashMap::new();
    let mut i: usize = 0;
    while i < times.len()
        invariant
            i <= times@.len(),
            forall|t: i64| #[trigger]
                last@.contains_key(t) ==> {
                    &&& last@[t] < i
                    &&& times@[last@[t] as int] == Some(t)
                    &&& forall|k: int| last@[t] < k < i ==> times@[k] != Some(t)
                },
            forall|t: i64| !#[trigger] last@.contains_key(t) ==> forall|k: int|
                0 <= k < i ==> times@[k] != Some(t),
        decreases times@.len() - i,
    {
        match times[i] {
            Some(t) => {
                last.insert(t, i);
            },
            None => {},
        }
        i = i + 1;
    }
    let w = headers.len();
    let mut out_times: Vec<i64> = Vec::new();
    let mut out_rows: Vec<Vec<String>> = Vec::new();
    let mut gaps: usize = 0;
    let mut current: i64 = start;
    let mut k: usize = 0;
    loop
        invariant_except_break
            0 <= k * interval <= end - start,
            current == start + k * interval,
        invariant
            out_times@.len() == k,
            out_rows@.len() == k,
            0 <= k * interval,
            gaps <= k,
            gaps == gaps_upto(times@, start as int, interval as int, k as int),
            forall|t: i64| #[trigger]
                last@.contains_key(t) ==> is_last(times@, t as int, last@[t] as int),
            forall|t: i64| !#[trigger] last@.contains_key(t) ==> !hit(times@, t as int),
            forall|m: int| 0 <= m < k ==> #[trigger] out_times@[m] == start + m * interval,
            forall|m: int| 0 <= m < k ==> -TIME_LIMIT <= #[trigger] out_times@[m] <= TIME_LIMIT,
            forall|m: int|
                0 <= m < k && hit(times@, start + m * interval) ==> texts(
                    #[trigger] out_rows@[m]@,
                ) == texts(rows@[last_row(times@, start + m * interval)]@),
            forall|m: int|
                0 <= m < k && !hit(times@, start + m * interval) ==> texts(
                    #[trigger] out_rows@[m]@,
                ) == blank_row(w as nat),
            w == headers@.len(),
            rows@.len() == times@.len(),
            0 < interval,
            -TIME_LIMIT <= start <= end <= TIME_LIMIT,
        ensures
            k == grid_len(start as int, end as int, interval as int),
        decreases end - current,
    {
        let ghost is_hit = hit(times@, current as int);
        proof {
            if !last@.contains_key(current) {
                assert(!hit(times@, current as int));
            } else {
                assert(hit(times@, current as int));
            }
        }
        let ghost prev = out_rows@;
        let ghost mut witness: int = 0;
        match last.get(&current) {
            Some(j) => {
                proof {
                    witness = *j as int;
                }
                out_rows.push(clone_row(&rows[*j]));
            },
            None => {
                out_rows.push(empty_row(w));
            },
        }
        out_times.push(current);
        proof {
            assert forall|m: int|
                0 <= m < k + 1 && hit(times@, start + m * interval) implies texts(
                #[trigger] out_rows@[m]@,
            ) == texts(rows@[last_row(times@, start + m * interval)]@) by {
                if m < k {
                    assert(out_rows@[m] == prev[m]);
                    assert(texts(prev[m]@) == texts(out_rows@[m]@));
                } else {
                    let t = start + m * interval;
                    assert(is_last(times@, t, witness));
                    let c = last_row(times@, t);
                    assert(is_last(times@, t, c));
                    assert(c == witness) by {
                        if c < witness {
                        } else if c > witness {
                        }
                    }
                }
            }
            assert forall|m: int|
                0 <= m < k + 1 && !hit(times@, start + m * interval) implies texts(
                #[trigger] out_rows@[m]@,
            ) == blank_row(w as nat) by {
                if m < k {
                    assert(out_rows@[m] == prev[m]);
                }
            }
        }
        let len = out_rows.len();
        assert(!is_hit ==> gaps + 1 <= len);
        match last.get(&current) {
            Some(_) => {},
            None => {
                gaps = gaps + 1;
            },
        }
        proof {
            assert((k + 1) * interval == k * interval + interval) by (nonlinear_arith);
        }
        if end - current < interval {
            k = len;
            proof {
                let d = end - start;
                assert((k - 1) * interval <= d < k * interval);
                assert((d / interval as int) == k - 1) by (nonlinear_arith)
                    requires
                        (k - 1) * interval <= d < k * interval,
                        interval > 0,
                        d >= 0,
                ;
            }
            break;
        }
        current = current + interval;
        k = len;
    }
    (Dataset { headers: clone_row(headers), time_index, times: out_times, rows: out_rows }, gaps)
}

/// How many rows have an instant.
pub open spec fn count_read(times: Seq<Option<i64>>) -> nat
    decreases times.len(),
{
    if times.len() == 0 {
        0
    } else {
        count_read(times.drop_last()) + if times.last() is Some {
            1nat
        } else {
            0nat
        }
    }
}

/// Instant `t` is one of the first `n` grid instants.
pub open spec fn on_grid(t: int, start: int, interval: int, n: int) -> bool {
    exists|k: int| 0 <= k < n && t == #[trigger] grid_at(start, interval, k)
}

/// The `k`-th grid instant.
pub open spec fn grid_at(start: int, interval: int, k: int) -> int {
    start + k * interval
}

proof fn lemma_gaps_same(a: Seq<Option<i64>>, b: Seq<Option<i64>>, start: int, interval: int, n: int)
    requires
        forall|t: int| hit(a, t) == hit(b, t),
    ensures
        gaps_upto(a, start, interval, n) == gaps_upto(b, start, interval, n),
    decreases n,
{
    if n > 0 {
        lemma_gaps_same(a, b, start, interval, n - 1);
    }
}

proof fn lemma_gaps_none(start: int, interval: int, n: int)
    requires
        n >= 0,
    ensures
        gaps_upto(Seq::<Option<i64>>::empty(), start, interval, n) == n,
    decreases n,
{
    if n > 0 {
        lemma_gaps_none(start, interval, n - 1);
    }
}

proof fn lemma_gaps_one_more(
    prev: Seq<Option<i64>>,
    t: i64,
    start: int,
    interval: int,
    k0: int,
    n: int,
)
    requires
        interval > 0,
        0 <= k0,
        t == start + k0 * interval,
        !hit(prev, t as int),
        n >= 0,
    ensures
        gaps_upto(prev.push(Some(t)), start, interval, n) + (if k0 < n {
            1int
        } else {
            0int
        }) == gaps_upto(prev, start, interval, n),
    decreases n,
{
    let cur = prev.push(Some(t));
    if n > 0 {
        lemma_gaps_one_more(prev, t, start, interval, k0, n - 1);
        let p = start + (n - 1) * interval;
        assert(hit(cur, p) == (hit(prev, p) || p == t)) by {
            if hit(prev, p) {
                let j = choose|j: int| 0 <= j < prev.len() && #[trigger] holds_at(prev, j, p);
                assert(cur[j] == prev[j]);
                assert(holds_at(cur, j, p));
            }
            if p == t {
                assert(cur[prev.len() as int] == Some(t));
                assert(holds_at(cur, prev.len() as int, p));
            }
            if hit(cur, p) {
                let j = choose|j: int| 0 <= j < cur.len() && #[trigger] holds_at(cur, j, p);
                if j < prev.len() {
                    assert(prev[j] == cur[j]);
                    assert(holds_at(prev, j, p));
                }
            }
        }
        assert((p == t) == (n - 1 == k0)) by {
            if p == t {
                assert((n - 1) * interval == k0 * interval);
                assert(n - 1 == k0) by (nonlinear_arith)
                    requires
                        (n - 1) * interval == k0 * interval,
                        interval > 0,
                ;
            }
        }
    }
}

/// Where every instant read lies on the first `n` grid instants and no two rows
/// share one, the gaps are the grid instants that no row filled: `n` less the
/// rows read.
pub proof fn lemma_gap_count(times: Seq<Option<i64>>, start: int, interval: int, n: int)
    requires
        interval > 0,
        n >= 0,
        forall|j: int|
            0 <= j < times.len() && times[j] is Some ==> on_grid(
                #[trigger] times[j]->Some_0 as int,
                start,
                interval,
                n,
            ),
        forall|i: int, j: int|
            0 <= i < j < times.len() && times[i] is Some ==> #[trigger] times[i] != #[trigger] times[j],
    ensures
        gaps_upto(times, start, interval, n) + count_read(times) == n,
    decreases times.len(),
{
    if times.len() == 0 {
        lemma_gaps_none(start, interval, n);
        assert(times =~= Seq::<Option<i64>>::empty());
    } else {
        let prev = times.drop_last();
        assert forall|j: int| 0 <= j < prev.len() && prev[j] is Some implies on_grid(
            #[trigger] prev[j]->Some_0 as int,
            start,
            interval,
            n,
        ) by {
            assert(prev[j] == times[j]);
        }
        assert forall|i: int, j: int|
            0 <= i < j < prev.len() && prev[i] is Some implies #[trigger] prev[i]
            != #[trigger] prev[j] by {
            assert(prev[i] == times[i] && prev[j] == times[j]);
        }
        lemma_gap_count(prev, start, interval, n);
        assert(times =~= prev.push(times.last()));
        match times.last() {
            None => {
                assert forall|t: int| hit(times, t) == hit(prev, t) by {
                    if hit(times, t) {
                        let j = choose|j: int| 0 <= j < times.len() && #[trigger] holds_at(times, j, t);
                        assert(j < prev.len());
                        assert(prev[j] == times[j]);
                        assert(holds_at(prev, j, t));
                    }
                    if hit(prev, t) {
                        let j = choose|j: int| 0 <= j < prev.len() && #[trigger] holds_at(prev, j, t);
                        assert(times[j] == prev[j]);
                        assert(holds_at(times, j, t));
                    }
                }
                lemma_gaps_same(times, prev, start, interval, n);
            },
            Some(t) => {
                let last = times.len() - 1;
                assert(times[last] is Some);
                assert(on_grid(times[last]->Some_0 as int, start, interval, n));
                let k0 = choose|k: int| 0 <= k < n && t == #[trigger] grid_at(start, interval, k);
                assert(!hit(prev, t as int)) by {
                    if hit(prev, t as int) {
                        let j = choose|j: int| 0 <= j < prev.len() && #[trigger] holds_at(prev, j, t as int);
                        assert(times[j] == prev[j]);
                        assert(times[j] != times[last]);
                    }
                }
                lemma_gaps_one_more(prev, t, start, interval, k0, n);
            },
        }
    }
}

} // verus!
