//! The fixed-format flow file: header, metadata record, one record of flow,
//! depth and velocity per sample laid out five to a line, and the tail.

use crate::fdv::{
    fields_text, identifier, identifier_line, line_texts, lines_text, meta_line, metadata_line,
    push_fields, push_lines, COMPACT_FORMAT, FIELDS_PER_LINE,
};
use crate::ingest::CANONICAL_FORMAT;
use crate::rainfall::missing;
use crate::outside::{formatted_time, lower_of, parse_time, parsed_time, string_of, to_lowercase};
use crate::text::{contains_str, digit_char, digits, digits_of, pad_left, push_all, push_padded, seq_contains};
use crate::text::chars_of;
use vstd::prelude::*;

verus! {

/// What can go wrong while writing a flow file.
#[derive(Debug)]
pub enum FDVFlowCreatorError {
    IoError(String),
    CalculationError(String),
    InvalidParameter(String),
    ParseError(String),
}

/// The header lines of a flow file, before the site and pipe are named.
pub open spec fn flow_header() -> Seq<Seq<char>> {
    seq![
        "**DATA_FORMAT:           1,ASCII"@,
        "**IDENTIFIER:            1,SHUTTERT"@,
        "**FIELD:                 3,FLOW,DEPTH,VELOCITY"@,
        "**UNITS:                 3,L/S,MM,M/S"@,
        "**FORMAT:                3,2I5,F5,[5]"@,
        "**RECORD_LENGTH:         I2,75"@,
        "**CONSTANTS:             6,HEIGHT,MIN_VEL,MANHOLE_NO,"@,
        "*+START,END,INTERVAL"@,
        "**C_UNITS:               6,MM,M/S,,GMT,GMT,MIN"@,
        "**C_FORMAT:              10,I5,1X,F5,1X,A20/D10,1X,D10,1X,I2"@,
        "*CSTART"@,
        "  0.200 UNKNOWN"@,
    ]
}

/// A length in millimetres written in metres with three decimals.
pub open spec fn metres_text(mm: int) -> Seq<char> {
    let a = if mm < 0 {
        -mm
    } else {
        mm
    };
    (if mm < 0 {
        seq!['-']
    } else {
        seq![]
    }) + digits((a / 1000) as nat) + seq![
        '.',
        digit_char(((a / 100) % 10) as nat),
        digit_char(((a / 10) % 10) as nat),
        digit_char((a % 10) as nat),
    ]
}

/// The constants line naming the pipe size.
pub open spec fn pipe_line(mm: int) -> Seq<char> {
    pad_left(metres_text(mm), 7) + " UNKNOWN"@
}

/// A depth column holds millimetres when its name says `mm` and does not name a level.
pub open spec fn is_millimetre_column(name: Seq<char>) -> bool {
    seq_contains(name, "mm"@) && !seq_contains(lower_of(name), "level"@)
}

/// What follows the last record: a newline ending a short last line, a blank
/// line, and the end marker.
pub open spec fn flow_tail(n: int) -> Seq<char> {
    (if n % 5 != 0 {
        seq!['\n']
    } else {
        seq![]
    }) + "\n*END\n"@
}

/// The whole flow file.
pub open spec fn flow_file(header: Seq<Seq<char>>, meta: Seq<char>, records: Seq<Seq<char>>) -> Seq<
    char,
> {
    lines_text(header) + meta + seq!['\n'] + "*CEND\n"@ + fields_text(records, records.len() as int)
        + flow_tail(records.len() as int)
}

fn line(s: &str) -> (r: String)
    ensures
        r@ == s@,
{
    String::from_str(s)
}

/// Whether depths in the column of this name are in millimetres.
pub fn depth_in_millimetres(depth_col: &str) -> (r: bool)
    ensures
        r == is_millimetre_column(depth_col@),
{
    contains_str(depth_col, "mm") && !contains_str(to_lowercase(depth_col).as_str(), "level")
}

/// The constants line for a pipe of `mm` millimetres.
pub fn pipe_text(mm: i64) -> (r: String)
    requires
        mm > i64::MIN,
    ensures
        r@ == pipe_line(mm as int),
{
    let a: i64 = if mm < 0 {
        -mm
    } else {
        mm
    };
    let mut t: Vec<char> = Vec::new();
    if mm < 0 {
        t.push('-');
    }
    push_all(&mut t, &digits_of((a / 1000) as u64));
    t.push('.');
    t.push((48u8 + ((a / 100) % 10) as u8) as char);
    t.push((48u8 + ((a / 10) % 10) as u8) as char);
    t.push((48u8 + (a % 10) as u8) as char);
    assert(t@ =~= metres_text(mm as int));
    let mut r: Vec<char> = Vec::new();
    push_padded(&mut r, &t, 7);
    push_all(&mut r, &chars_of(" UNKNOWN"));
    string_of(&r)
}

/// Writes flow in the fixed format. Each record is the text of one sample's
/// flow, depth and velocity fields; configure, then call `create_fdv_flow`,
/// which returns the file's text.
pub struct FDVFlowCreator {
    pub header_lines: Vec<String>,
    pub start_ts: Option<i64>,
    pub end_ts: Option<i64>,
    pub interval: Option<i64>,
    pub records: Option<Vec<String>>,
    pub depth_null_readings: usize,
    pub velocity_null_readings: usize,
}

impl FDVFlowCreator {
    /// A creator with the default header and nothing set.
    pub fn new() -> (r: FDVFlowCreator)
        ensures
            line_texts(r.header_lines@) == flow_header(),
            r.start_ts is None,
            r.end_ts is None,
            r.interval is None,
            r.records is None,
            r.depth_null_readings == 0,
            r.velocity_null_readings == 0,
    {
        let mut h: Vec<String> = Vec::new();
        h.push(line("**DATA_FORMAT:           1,ASCII"));
        h.push(line("**IDENTIFIER:            1,SHUTTERT"));
        h.push(line("**FIELD:                 3,FLOW,DEPTH,VELOCITY"));
        h.push(line("**UNITS:                 3,L/S,MM,M/S"));
        h.push(line("**FORMAT:                3,2I5,F5,[5]"));
        h.push(line("**RECORD_LENGTH:         I2,75"));
        h.push(line("**CONSTANTS:             6,HEIGHT,MIN_VEL,MANHOLE_NO,"));
        h.push(line("*+START,END,INTERVAL"));
        h.push(line("**C_UNITS:               6,MM,M/S,,GMT,GMT,MIN"));
        h.push(line("**C_FORMAT:              10,I5,1X,F5,1X,A20/D10,1X,D10,1X,I2"));
        h.push(line("*CSTART"));
        h.push(line("  0.200 UNKNOWN"));
        assert(line_texts(h@) =~= flow_header());
        FDVFlowCreator {
            header_lines: h,
            start_ts: None,
            end_ts: None,
            interval: None,
            records: None,
            depth_null_readings: 0,
            velocity_null_readings: 0,
        }
    }

    /// Names the pipe size, given in millimetres, in the constants line.
    pub fn set_pipe_dia(&mut self, pipe_dia_mm: i64)
        requires
            old(self).header_lines@.len() > 11,
            pipe_dia_mm > i64::MIN,
        ensures
            line_texts(final(self).header_lines@) == line_texts(old(self).header_lines@).update(
                11,
                pipe_line(pipe_dia_mm as int),
            ),
            final(self).start_ts == old(self).start_ts,
            final(self).end_ts == old(self).end_ts,
            final(self).interval == old(self).interval,
            final(self).records == old(self).records,
    {
        let t = pipe_text(pipe_dia_mm);
        self.header_lines.set(11, t);
        assert(line_texts(self.header_lines@) =~= line_texts(old(self).header_lines@).update(
            11,
            pipe_line(pipe_dia_mm as int),
        ));
    }

    /// Names the site in the identifier line: cut to fifteen characters, in upper case.
    pub fn set_site_name(&mut self, site_name: &str)
        requires
            old(self).header_lines@.len() > 1,
        ensures
            line_texts(final(self).header_lines@) == line_texts(old(self).header_lines@).update(
                1,
                identifier_line(site_name@),
            ),
            final(self).start_ts == old(self).start_ts,
            final(self).end_ts == old(self).end_ts,
            final(self).interval == old(self).interval,
            final(self).records == old(self).records,
    {
        let id = identifier(site_name);
        self.header_lines.set(1, id);
        assert(line_texts(self.header_lines@) =~= line_texts(old(self).header_lines@).update(
            1,
            identifier_line(site_name@),
        ));
    }

    /// Sets the first instant from a text in the canonical format.
    pub fn set_starting_time(&mut self, starting_time: &str) -> (r: Result<(), FDVFlowCreatorError>)
        ensures
            match parsed_time(starting_time@, CANONICAL_FORMAT@) {
                Some(t) => r is Ok && final(self).start_ts == Some(t),
                None => r is Err && final(self).start_ts == old(self).start_ts,
            },
            final(self).header_lines == old(self).header_lines,
            final(self).end_ts == old(self).end_ts,
            final(self).interval == old(self).interval,
            final(self).records == old(self).records,
    {
        match parse_time(starting_time, CANONICAL_FORMAT) {
            Some(t) => {
                self.start_ts = Some(t);
                Ok(())
            },
            None => Err(FDVFlowCreatorError::ParseError(line("unreadable starting time"))),
        }
    }

    /// Sets the last instant from a text in the canonical format.
    pub fn set_ending_time(&mut self, ending_time: &str) -> (r: Result<(), FDVFlowCreatorError>)
        ensures
            match parsed_time(ending_time@, CANONICAL_FORMAT@) {
                Some(t) => r is Ok && final(self).end_ts == Some(t),
                None => r is Err && final(self).end_ts == old(self).end_ts,
            },
            final(self).header_lines == old(self).header_lines,
            final(self).start_ts == old(self).start_ts,
            final(self).interval == old(self).interval,
            final(self).records == old(self).records,
    {
        match parse_time(ending_time, CANONICAL_FORMAT) {
            Some(t) => {
                self.end_ts = Some(t);
                Ok(())
            },
            None => Err(FDVFlowCreatorError::ParseError(line("unreadable ending time"))),
        }
    }

    /// Sets the interval, in minutes.
    pub fn set_interval(&mut self, interval: i64)
        ensures
            final(self).interval == Some(interval),
            final(self).header_lines == old(self).header_lines,
            final(self).start_ts == old(self).start_ts,
            final(self).end_ts == old(self).end_ts,
            final(self).records == old(self).records,
    {
        self.interval = Some(interval);
    }

    /// Sets the records, one per sample, with the null counts of the depth and
    /// velocity columns they were made from.
    pub fn set_records(&mut self, records: Vec<String>, depth_nulls: usize, velocity_nulls: usize)
        ensures
            final(self).records == Some(records),
            final(self).depth_null_readings == depth_nulls,
            final(self).velocity_null_readings == velocity_nulls,
            final(self).header_lines == old(self).header_lines,
            final(self).start_ts == old(self).start_ts,
            final(self).end_ts == old(self).end_ts,
            final(self).interval == old(self).interval,
    {
        self.records = Some(records);
        self.depth_null_readings = depth_nulls;
        self.velocity_null_readings = velocity_nulls;
    }

    /// The null counts of the depth and velocity columns.
    pub fn get_null_readings(&self) -> (r: (usize, usize))
        ensures
            r == (self.depth_null_readings, self.velocity_null_readings),
    {
        (self.depth_null_readings, self.velocity_null_readings)
    }

    /// Checks that the time range, the interval and a non-empty list of records are set.
    pub fn validate_parameters(&self) -> (r: Result<(), String>)
        ensures
            r is Ok <==> (self.start_ts is Some && self.end_ts is Some && self.interval is Some
                && (self.records matches Some(s) && s@.len() > 0)),
    {
        if self.start_ts.is_none() {
            return Err(line("Starting time is not set. Use set_starting_time() method."));
        }
        if self.end_ts.is_none() {
            return Err(line("Ending time is not set. Use set_ending_time() method."));
        }
        if self.interval.is_none() {
            return Err(line("Interval is not set. Use set_interval() method."));
        }
        match &self.records {
            Some(s) => {
                if s.len() == 0 {
                    return Err(line("DataFrame is empty or not set."));
                }
            },
            None => {
                return Err(line("DataFrame is empty or not set."));
            },
        }
        Ok(())
    }

    /// Writes the whole file: the header, the metadata record, the records and
    /// the tail. Fails where a parameter is missing or an instant cannot be written.
    pub fn create_fdv_flow(&self) -> (r: Result<String, FDVFlowCreatorError>)
        ensures
            !(self.start_ts is Some && self.end_ts is Some && self.interval is Some && (
            self.records matches Some(s) && s@.len() > 0)) ==> (r matches Err(e)
                && e is InvalidParameter),
            r matches Ok(t) ==> {
                let start = self.start_ts->Some_0;
                let end = self.end_ts->Some_0;
                &&& formatted_time(start, COMPACT_FORMAT@) is Some
                &&& formatted_time(end, COMPACT_FORMAT@) is Some
                &&& t@ == flow_file(
                    line_texts(self.header_lines@),
                    meta_line(
                        formatted_time(start, COMPACT_FORMAT@)->Some_0,
                        formatted_time(end, COMPACT_FORMAT@)->Some_0,
                        self.interval->Some_0,
                    ),
                    line_texts(self.records->Some_0@),
                )
            },
            (self.start_ts is Some && self.end_ts is Some && self.interval is Some && (
            self.records matches Some(s) && s@.len() > 0) && formatted_time(
                self.start_ts->Some_0,
                COMPACT_FORMAT@,
            ) is Some && formatted_time(self.end_ts->Some_0, COMPACT_FORMAT@) is Some) ==> r is Ok,
    {
        match self.validate_parameters() {
            Ok(()) => {},
            Err(m) => {
                return Err(FDVFlowCreatorError::InvalidParameter(m));
            },
        }
        let records = self.records.as_ref().unwrap();
        let meta = match metadata_line(self.start_ts.unwrap(), self.end_ts.unwrap(), self.interval.unwrap()) {
            Some(m) => m,
            None => {
                return Err(FDVFlowCreatorError::InvalidParameter(line("time range cannot be written")));
            },
        };
        let mut out: Vec<char> = Vec::new();
        push_lines(&mut out, &self.header_lines);
        push_all(&mut out, &chars_of(meta.as_str()));
        out.push('\n');
        push_all(&mut out, &chars_of("*CEND\n"));
        let mut fields: Vec<Vec<char>> = Vec::new();
        let mut i: usize = 0;
        while i < records.len()
            invariant
                i <= records@.len(),
                fields@.len() == i,
                forall|k: int| 0 <= k < i ==> #[trigger] fields@[k]@ == records@[k]@,
            decreases records@.len() - i,
        {
            fields.push(chars_of(records[i].as_str()));
            i = i + 1;
        }
        push_fields(&mut out, &fields);
        assert(fields@.map_values(|f: Vec<char>| f@) =~= line_texts(records@));
        if records.len() % FIELDS_PER_LINE != 0 {
            out.push('\n');
        }
        push_all(&mut out, &chars_of("\n*END\n"));
        assert(out@ =~= flow_file(line_texts(self.header_lines@), meta@, line_texts(records@)));
        Ok(string_of(&out))
    }
}

/// The values with each missing one read as `zero`.
pub open spec fn filled<T>(s: Seq<Option<T>>, zero: T) -> Seq<T> {
    Seq::new(
        s.len(),
        |i: int|
            match s[i] {
                Some(v) => v,
                None => zero,
            },
    )
}

/// Reads each missing value as `zero`, and counts the missing ones.
pub fn fill_nulls<T: Copy>(values: &Vec<Option<T>>, zero: T) -> (r: (Vec<T>, usize))
    ensures
        r.0@ == filled(values@, zero),
        r.1 == missing(values@, values@.len() as int),
{
    let mut out: Vec<T> = Vec::new();
    let mut nulls: usize = 0;
    let mut i: usize = 0;
    while i < values.len()
        invariant
            i <= values@.len(),
            out@ == filled(values@, zero).subrange(0, i as int),
            nulls == missing(values@, i as int),
            nulls <= i,
        decreases values@.len() - i,
    {
        match values[i] {
            Some(v) => {
                out.push(v);
            },
            None => {
                out.push(zero);
                nulls = nulls + 1;
            },
        }
        i = i + 1;
        proof {
            assert(out@ =~= filled(values@, zero).subrange(0, i as int));
        }
    }
    assert(filled(values@, zero).subrange(0, i as int) =~= filled(values@, zero));
    (out, nulls)
}

} // verus!
