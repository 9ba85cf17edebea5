//! Classification of channel columns by their headers.

use crate::outside::{capture_groups, opt_view, regex_capture};
use crate::text::chars_of;
use vstd::prelude::*;

verus! {

/// Header pattern of a depth (or level) channel in metres or millimetres.
pub const DEPTH_PATTERN: &'static str = "(?i)(\\d+)_(\\d+)\\|.*(Depth|Level)\\|(m|mm)";

/// Header pattern of a flow channel in l/s or m3/s.
pub const FLOW_PATTERN: &'static str = "(?i)(\\d+)_(\\d+)\\|.*Flow\\|(l/s|m3/s)";

/// Header pattern of a velocity channel in m/s.
pub const VELOCITY_PATTERN: &'static str = "(?i)(\\d+)_(\\d+)\\|.*Velocity\\|m/s";

/// Header pattern of a rainfall channel in mm.
pub const RAINFALL_PATTERN: &'static str = "(?i)(\\d+)_(\\d+)\\|.*Rainfall\\|mm";

/// One classified column: its header, its position among all headers, and the
/// logger and pin numbers captured from the header, when present.
pub struct ColumnEntry {
    pub name: String,
    pub index: usize,
    pub logger_id: Option<String>,
    pub pin_id: Option<String>,
}

pub type EntryModel = (Seq<char>, usize, Option<Seq<char>>, Option<Seq<char>>);

impl ColumnEntry {
    pub open spec fn model(&self) -> EntryModel {
        (self.name@, self.index, opt_view(self.logger_id), opt_view(self.pin_id))
    }
}

pub open spec fn models(v: Seq<ColumnEntry>) -> Seq<EntryModel> {
    v.map_values(|e: ColumnEntry| e.model())
}

pub open spec fn texts(v: Seq<String>) -> Seq<Seq<char>> {
    v.map_values(|s: String| s@)
}

/// The columns of each role. A role with no column has an empty list.
pub struct ColumnMapping {
    pub timestamp: Vec<ColumnEntry>,
    pub depth: Vec<ColumnEntry>,
    pub flow: Vec<ColumnEntry>,
    pub velocity: Vec<ColumnEntry>,
    pub rainfall: Vec<ColumnEntry>,
}

/// The entries of the first `n` headers that `pattern` matches, in header order.
pub open spec fn matched_entries(pattern: Seq<char>, headers: Seq<Seq<char>>, n: nat) -> Seq<
    EntryModel,
>
    decreases n,
{
    if n == 0 {
        seq![]
    } else {
        let prev = matched_entries(pattern, headers, (n - 1) as nat);
        match regex_capture(pattern, headers[n - 1]) {
            Some((a, b)) => prev.push((headers[n - 1], (n - 1) as usize, a, b)),
            None => prev,
        }
    }
}

/// The first position of `name` among `headers`, from position `i` on.
pub open spec fn position_from(headers: Seq<Seq<char>>, name: Seq<char>, i: int) -> Option<int>
    decreases headers.len() - i,
{
    if i < 0 || i >= headers.len() {
        None
    } else if headers[i] == name {
        Some(i)
    } else {
        position_from(headers, name, i + 1)
    }
}

/// The first position of `name` among `headers`.
pub open spec fn first_position(headers: Seq<Seq<char>>, name: Seq<char>) -> Option<int> {
    position_from(headers, name, 0)
}

pub proof fn lemma_position_from(headers: Seq<Seq<char>>, name: Seq<char>, i: int)
    ensures
        position_from(headers, name, i) matches Some(j) ==> i <= j < headers.len() && headers[j]
            == name,
    decreases headers.len() - i,
{
    if 0 <= i < headers.len() && headers[i] != name {
        lemma_position_from(headers, name, i + 1);
    }
}

/// The columns whose headers `pattern` matches, with the groups it captures.
pub fn extract_columns(pattern: &str, headers: &Vec<String>) -> (r: Vec<ColumnEntry>)
    ensures
        models(r@) == matched_entries(pattern@, texts(headers@), headers@.len()),
{
    let mut r: Vec<ColumnEntry> = Vec::new();
    let mut i: usize = 0;
    while i < headers.len()
        invariant
            i <= headers@.len(),
            models(r@) == matched_entries(pattern@, texts(headers@), i as nat),
        decreases headers@.len() - i,
    {
        let name = &headers[i];
        let caps = capture_groups(pattern, name.as_str());
        match caps {
            Some((a, b)) => {
                r.push(ColumnEntry { name: name.clone(), index: i, logger_id: a, pin_id: b });
            },
            None => {},
        }
        i = i + 1;
        proof {
            assert(texts(headers@)[i - 1] == headers@[i - 1]@);
            assert(models(r@) =~= matched_entries(pattern@, texts(headers@), i as nat));
        }
    }
    r
}

/// The first position of a header equal to `name`.
pub fn position_of(headers: &Vec<String>, name: &str) -> (r: Option<usize>)
    ensures
        match r {
            Some(i) => i < headers@.len() && texts(headers@)[i as int] == name@ && first_position(
                texts(headers@),
                name@,
            ) == Some(i as int),
            None => first_position(texts(headers@), name@) is None,
        },
{
    let mut i: usize = 0;
    while i < headers.len()
        invariant
            i <= headers@.len(),
            first_position(texts(headers@), name@) == position_from(texts(headers@), name@, i as int),
        decreases headers@.len() - i,
    {
        if crate::text::same_text(headers[i].as_str(), name) {
            return Some(i);
        }
        i = i + 1;
    }
    None
}

/// The classification of every header: the timestamp column by name, the
/// channels by the pattern of each role.
pub open spec fn classification(headers: Seq<Seq<char>>, time_column: Seq<char>) -> (
    Seq<EntryModel>,
    Seq<EntryModel>,
    Seq<EntryModel>,
    Seq<EntryModel>,
    Seq<EntryModel>,
) {
    (
        match first_position(headers, time_column) {
            Some(i) => seq![(time_column, i as usize, None::<Seq<char>>, None::<Seq<char>>)],
            None => seq![],
        },
        matched_entries(DEPTH_PATTERN@, headers, headers.len()),
        matched_entries(FLOW_PATTERN@, headers, headers.len()),
        matched_entries(VELOCITY_PATTERN@, headers, headers.len()),
        matched_entries(RAINFALL_PATTERN@, headers, headers.len()),
    )
}

impl ColumnMapping {
    pub open spec fn model(&self) -> (
        Seq<EntryModel>,
        Seq<EntryModel>,
        Seq<EntryModel>,
        Seq<EntryModel>,
        Seq<EntryModel>,
    ) {
        (
            models(self.timestamp@),
            models(self.depth@),
            models(self.flow@),
            models(self.velocity@),
            models(self.rainfall@),
        )
    }

    /// Classifies every header: the timestamp column by its name, each other
    /// column by the role whose pattern its header matches.
    pub fn classify(headers: &Vec<String>, time_column: &str) -> (r: ColumnMapping)
        ensures
            r.model() == classification(texts(headers@), time_column@),
    {
        let mut timestamp: Vec<ColumnEntry> = Vec::new();
        match position_of(headers, time_column) {
            Some(i) => {
                let name = crate::outside::string_of(&chars_of(time_column));
                timestamp.push(ColumnEntry { name, index: i, logger_id: None, pin_id: None });
                proof {
                    assert(models(timestamp@) =~= seq![
                        (time_column@, i, None::<Seq<char>>, None::<Seq<char>>),
                    ]);
                }
            },
            None => {
                assert(models(timestamp@) =~= seq![]);
            },
        }
        ColumnMapping {
            timestamp,
            depth: extract_columns(DEPTH_PATTERN, headers),
            flow: extract_columns(FLOW_PATTERN, headers),
            velocity: extract_columns(VELOCITY_PATTERN, headers),
            rainfall: extract_columns(RAINFALL_PATTERN, headers),
        }
    }
}

} // verus!
