//! The fixed-format rainfall file: an extended header, the metadata record, and
//! smoothed intensities in fields of fifteen characters, five to a line.

use crate::fdv::{
    FIELDS_PER_LINE,
    fields_text, identifier, identifier_line, line_texts, lines_text, meta_line, metadata_line,
    push_fields, push_lines, COMPACT_FORMAT,
};
use crate::outside::{formatted_time, parse_time, parsed_time, string_of};
use crate::ingest::CANONICAL_FORMAT;
use crate::smoothing::{
    bounded, flush, insert_sample, ints, smoothed, step, KEEP, MAX_SAMPLE_UM,
};
use crate::text::{digit_char, digits, digits_of, pad_left, push_all, push_padded};
use crate::text::chars_of;
use vstd::prelude::*;

verus! {

/// What can go wrong while writing a rainfall file.
#[derive(Debug)]
pub enum FDVRainfallCreatorError {
    IoError(String),
    InvalidParameter(String),
    ParseError(String),
}

/// Width of one intensity field.
pub const FIELD_WIDTH: usize = 15;

/// Sixtieths of a micrometre in a tenth of a millimetre.
pub const UNITS_PER_TENTH_MM: i64 = 6000;

/// An amount in sixtieths of a micrometre, in tenths of a millimetre, rounded
/// half away from zero.
pub open spec fn tenths(v: int) -> int {
    if v >= 0 {
        (v + 3000) / 6000
    } else {
        -((-v + 3000) / 6000)
    }
}

/// An amount written in millimetres with one decimal, a minus sign before a
/// negative amount.
pub open spec fn decimal_text(v: int) -> Seq<char> {
    let t = if tenths(v) < 0 {
        -tenths(v)
    } else {
        tenths(v)
    };
    (if v < 0 {
        seq!['-']
    } else {
        seq![]
    }) + digits((t / 10) as nat) + seq!['.', digit_char((t % 10) as nat)]
}

/// One intensity field.
pub open spec fn rain_field(v: int) -> Seq<char> {
    pad_left(decimal_text(v), FIELD_WIDTH as nat)
}

/// The fields of a list of values.
pub open spec fn rain_fields(vals: Seq<int>) -> Seq<Seq<char>> {
    Seq::new(vals.len(), |i: int| rain_field(vals[i]))
}

/// What follows the last field: a newline ending a short last line, a blank line,
/// and the end marker.
pub open spec fn rain_tail(n: int) -> Seq<char> {
    (if n % 5 != 0 {
        seq!['\n']
    } else {
        seq![]
    }) + "\n*END\n"@
}

/// The whole rainfall file.
pub open spec fn rain_file(header: Seq<Seq<char>>, meta: Seq<char>, vals: Seq<int>) -> Seq<char> {
    lines_text(header) + meta + seq!['\n'] + "*CEND\n"@ + fields_text(
        rain_fields(vals),
        vals.len() as int,
    ) + rain_tail(vals.len() as int)
}

/// The samples with each missing one read as zero.
pub open spec fn zero_filled(s: Seq<Option<i64>>) -> Seq<int> {
    s.map_values(
        |o: Option<i64>|
            match o {
                Some(v) => v as int,
                None => 0int,
            },
    )
}

/// How many of the first `n` samples are missing.
pub open spec fn missing<T>(s: Seq<Option<T>>, n: int) -> nat
    decreases n,
{
    if n <= 0 {
        0
    } else {
        missing(s, n - 1) + if s[n - 1] is None {
            1nat
        } else {
            0nat
        }
    }
}

/// The header lines of a rainfall file, before the site is named.
pub open spec fn rain_header() -> Seq<Seq<char>> {
    seq![
        "**DATA_FORMAT:           1,ASCII"@,
        "**IDENTIFIER:            1,SHUTTE"@,
        "**FIELD:                 1,INTENSITY"@,
        "**UNITS:                 1,MM/HR"@,
        "**FORMAT:                2,F15.1,[5]"@,
        "**RECORD_LENGTH:         I2,75"@,
        "**CONSTANTS:             35,LOCATION,0_ANT_RAIN,1_ANT_RAIN,2_ANT_RAIN,"@,
        "*+                       3_ANT_RAIN,4_ANT_RAIN,5_ANT_RAIN,6_ANT_RAIN,"@,
        "*+                       7_ANT_RAIN,8_ANT_RAIN,9_ANT_RAIN,10_ANT_RAIN,"@,
        "*+                       11_ANT_RAIN,12_ANT_RAIN,13_ANT_RAIN,14_ANT_RAIN,"@,
        "*+                       15_ANT_RAIN,16_ANT_RAIN,17_ANT_RAIN,18_ANT_RAIN,"@,
        "*+                       19_ANT_RAIN,20_ANT_RAIN,21_ANT_RAIN,22_ANT_RAIN,"@,
        "*+                       23_ANT_RAIN,24_ANT_RAIN,25_ANT_RAIN,26_ANT_RAIN,"@,
        "*+                       27_ANT_RAIN,28_ANT_RAIN,29_ANT_RAIN,30_ANT_RAIN,"@,
        "*+                       START,END,INTERVAL"@,
        "**C_UNITS:               35, ,MM,MM,MM,MM,MM,MM,MM,MM,MM,MM,"@,
        "**C_UNITS:               MM,MM,MM,MM,MM,MM,MM,MM,MM,MM,MM,"@,
        "**C_UNITS:               MM,MM,MM,MM,MM,MM,MM,MM,MM,MM,GMT,GMT,MIN"@,
        "**C_FORMAT:              8,A20,F7.2/15F5.1/15F5.1/D10,2X,D10,I4"@,
        "*CSTART"@,
        "UNKNOWN              -1.0 "@,
        "-1.0 -1.0 -1.0 -1.0 -1.0 -1.0 -1.0 -1.0 -1.0 -1.0 -1.0 -1.0 -1.0 -1.0 -1.0 "@,
        "-1.0 -1.0 -1.0 -1.0 -1.0 -1.0 -1.0 -1.0 -1.0 -1.0 -1.0 -1.0 -1.0 -1.0 -1.0 "@,
    ]
}

fn line(s: &str) -> (r: String)
    ensures
        r@ == s@,
{
    String::from_str(s)
}

/// The text of one intensity field.
pub fn rain_field_chars(v: i64) -> (r: Vec<char>)
    requires
        -crate::smoothing::MAX_UNITS <= v <= crate::smoothing::MAX_UNITS,
    ensures
        r@ == rain_field(v as int),
{
    let t: i64 = if v >= 0 {
        (v + 3000) / UNITS_PER_TENTH_MM
    } else {
        (-v + 3000) / UNITS_PER_TENTH_MM
    };
    let mut text: Vec<char> = Vec::new();
    if v < 0 {
        text.push('-');
    }
    push_all(&mut text, &digits_of((t / 10) as u64));
    text.push('.');
    let d: u8 = 48u8 + (t % 10) as u8;
    text.push(d as char);
    proof {
        assert(tenths(v as int) < 0 ==> -tenths(v as int) == t);
        assert(tenths(v as int) >= 0 ==> tenths(v as int) == t);
        assert(text@ =~= decimal_text(v as int));
    }
    let mut r: Vec<char> = Vec::new();
    push_padded(&mut r, &text, FIELD_WIDTH);
    r
}

/// The samples with each missing one read as zero, and how many were missing;
/// `None` where a sample is out of range.
pub fn zero_fill(samples: &Vec<Option<i64>>) -> (r: Option<(Vec<i64>, usize)>)
    ensures
        match r {
            Some((values, nulls)) => ints(values@) == zero_filled(samples@) && nulls == missing(
                samples@,
                samples@.len() as int,
            ) && forall|k: int|
                0 <= k < values@.len() ==> -MAX_SAMPLE_UM <= #[trigger] values@[k] <= MAX_SAMPLE_UM,
            None => !(forall|k: int|
                0 <= k < samples@.len() ==> -MAX_SAMPLE_UM <= #[trigger] zero_filled(samples@)[k]
                    <= MAX_SAMPLE_UM),
        },
{
    let ghost zs = zero_filled(samples@);
    let mut values: Vec<i64> = Vec::new();
    let mut nulls: usize = 0;
    let mut i: usize = 0;
    while i < samples.len()
        invariant
            i <= samples@.len(),
            zs == zero_filled(samples@),
            values@.len() == i,
            forall|k: int| 0 <= k < i ==> #[trigger] values@[k] as int == zs[k],
            forall|k: int| 0 <= k < i ==> -MAX_SAMPLE_UM <= #[trigger] values@[k] <= MAX_SAMPLE_UM,
            nulls == missing(samples@, i as int),
            nulls <= i,
        decreases samples@.len() - i,
    {
        let v: i64 = match samples[i] {
            Some(v) => v,
            None => {
                nulls = nulls + 1;
                0
            },
        };
        assert(zs[i as int] == v as int);
        if v < -MAX_SAMPLE_UM || v > MAX_SAMPLE_UM {
            return None;
        }
        values.push(v);
        i = i + 1;
    }
    assert(ints(values@) =~= zs);
    Some((values, nulls))
}

/// Writes rainfall in the fixed format: configure it, then call
/// `create_fdv_rainfall`, which returns the file's text.
pub struct FDVRainfallCreator {
    pub header_lines: Vec<String>,
    pub start_ts: Option<i64>,
    pub end_ts: Option<i64>,
    pub interval: Option<i64>,
    pub samples: Option<Vec<Option<i64>>>,
    pub null_readings: usize,
    pub output_buffer: Vec<i64>,
    pub emitted: Vec<i64>,
}

impl FDVRainfallCreator {
    pub open spec fn wf(&self) -> bool {
        bounded(self.output_buffer@) && self.output_buffer@.len() <= KEEP
    }

    /// A creator with the default header and nothing set.
    pub fn new() -> (r: FDVRainfallCreator)
        ensures
            line_texts(r.header_lines@) == rain_header(),
            r.start_ts is None,
            r.end_ts is None,
            r.interval is None,
            r.samples is None,
            r.null_readings == 0,
            r.output_buffer@.len() == 0,
            r.emitted@.len() == 0,
            r.wf(),
    {
        let mut h: Vec<String> = Vec::new();
        h.push(line("**DATA_FORMAT:           1,ASCII"));
        h.push(line("**IDENTIFIER:            1,SHUTTE"));
        h.push(line("**FIELD:                 1,INTENSITY"));
        h.push(line("**UNITS:                 1,MM/HR"));
        h.push(line("**FORMAT:                2,F15.1,[5]"));
        h.push(line("**RECORD_LENGTH:         I2,75"));
        h.push(line("**CONSTANTS:             35,LOCATION,0_ANT_RAIN,1_ANT_RAIN,2_ANT_RAIN,"));
        h.push(line("*+                       3_ANT_RAIN,4_ANT_RAIN,5_ANT_RAIN,6_ANT_RAIN,"));
        h.push(line("*+                       7_ANT_RAIN,8_ANT_RAIN,9_ANT_RAIN,10_ANT_RAIN,"));
        h.push(line("*+                       11_ANT_RAIN,12_ANT_RAIN,13_ANT_RAIN,14_ANT_RAIN,"));
        h.push(line("*+                       15_ANT_RAIN,16_ANT_RAIN,17_ANT_RAIN,18_ANT_RAIN,"));
        h.push(line("*+                       19_ANT_RAIN,20_ANT_RAIN,21_ANT_RAIN,22_ANT_RAIN,"));
        h.push(line("*+                       23_ANT_RAIN,24_ANT_RAIN,25_ANT_RAIN,26_ANT_RAIN,"));
        h.push(line("*+                       27_ANT_RAIN,28_ANT_RAIN,29_ANT_RAIN,30_ANT_RAIN,"));
        h.push(line("*+                       START,END,INTERVAL"));
        h.push(line("**C_UNITS:               35, ,MM,MM,MM,MM,MM,MM,MM,MM,MM,MM,"));
        h.push(line("**C_UNITS:               MM,MM,MM,MM,MM,MM,MM,MM,MM,MM,MM,"));
        h.push(line("**C_UNITS:               MM,MM,MM,MM,MM,MM,MM,MM,MM,MM,GMT,GMT,MIN"));
        h.push(line("**C_FORMAT:              8,A20,F7.2/15F5.1/15F5.1/D10,2X,D10,I4"));
        h.push(line("*CSTART"));
        h.push(line("UNKNOWN              -1.0 "));
        h.push(line("-1.0 -1.0 -1.0 -1.0 -1.0 -1.0 -1.0 -1.0 -1.0 -1.0 -1.0 -1.0 -1.0 -1.0 -1.0 "));
        h.push(line("-1.0 -1.0 -1.0 -1.0 -1.0 -1.0 -1.0 -1.0 -1.0 -1.0 -1.0 -1.0 -1.0 -1.0 -1.0 "));
        assert(line_texts(h@) =~= rain_header());
        FDVRainfallCreator {
            header_lines: h,
            start_ts: None,
            end_ts: None,
            interval: None,
            samples: None,
            null_readings: 0,
            output_buffer: Vec::new(),
            emitted: Vec::new(),
        }
    }

    /// Sets the rainfall samples, in whole micrometres; `None` marks a missing one.
    pub fn set_samples(&mut self, samples: Vec<Option<i64>>)
        ensures
            final(self).samples == Some(samples),
            final(self).header_lines == old(self).header_lines,
            final(self).start_ts == old(self).start_ts,
            final(self).end_ts == old(self).end_ts,
            final(self).interval == old(self).interval,
            final(self).output_buffer == old(self).output_buffer,
            final(self).emitted == old(self).emitted,
    {
        self.samples = Some(samples);
    }

    /// Names the site in the identifier line: cut to fifteen characters, in upper case.
    pub fn set_site_name(&mut self, site_name: &str)
        requires
            old(self).header_lines@.len() > 1,
        ensures
            line_texts(final(self).header_lines@) == line_texts(old(self).header_lines@).update(
                1,
                identifier_line(site_name@),
            ),
            final(self).start_ts == old(self).start_ts,
            final(self).end_ts == old(self).end_ts,
            final(self).interval == old(self).interval,
            final(self).samples == old(self).samples,
            final(self).output_buffer == old(self).output_buffer,
            final(self).emitted == old(self).emitted,
    {
        let id = identifier(site_name);
        self.header_lines.set(1, id);
        assert(line_texts(self.header_lines@) =~= line_texts(old(self).header_lines@).update(
            1,
            identifier_line(site_name@),
        ));
    }

    /// Sets the first instant from a text in the canonical format.
    pub fn set_starting_time(&mut self, starting_time: &str) -> (r: Result<
        (),
        FDVRainfallCreatorError,
    >)
        ensures
            match parsed_time(starting_time@, CANONICAL_FORMAT@) {
                Some(t) => r is Ok && final(self).start_ts == Some(t),
                None => r is Err && final(self).start_ts == old(self).start_ts,
            },
            final(self).header_lines == old(self).header_lines,
            final(self).end_ts == old(self).end_ts,
            final(self).interval == old(self).interval,
            final(self).samples == old(self).samples,
            final(self).output_buffer == old(self).output_buffer,
            final(self).emitted == old(self).emitted,
    {
        match parse_time(starting_time, CANONICAL_FORMAT) {
            Some(t) => {
                self.start_ts = Some(t);
                Ok(())
            },
            None => Err(FDVRainfallCreatorError::ParseError(line("unreadable starting time"))),
        }
    }

    /// Sets the last instant from a text in the canonical format.
    pub fn set_ending_time(&mut self, ending_time: &str) -> (r: Result<
        (),
        FDVRainfallCreatorError,
    >)
        ensures
            match parsed_time(ending_time@, CANONICAL_FORMAT@) {
                Some(t) => r is Ok && final(self).end_ts == Some(t),
                None => r is Err && final(self).end_ts == old(self).end_ts,
            },
            final(self).header_lines == old(self).header_lines,
            final(self).start_ts == old(self).start_ts,
            final(self).interval == old(self).interval,
            final(self).samples == old(self).samples,
            final(self).output_buffer == old(self).output_buffer,
            final(self).emitted == old(self).emitted,
    {
        match parse_time(ending_time, CANONICAL_FORMAT) {
            Some(t) => {
                self.end_ts = Some(t);
                Ok(())
            },
            None => Err(FDVRainfallCreatorError::ParseError(line("unreadable ending time"))),
        }
    }

    /// Sets the interval, in minutes.
    pub fn set_interval(&mut self, interval: i64)
        ensures
            final(self).interval == Some(interval),
            final(self).header_lines == old(self).header_lines,
            final(self).start_ts == old(self).start_ts,
            final(self).end_ts == old(self).end_ts,
            final(self).samples == old(self).samples,
            final(self).output_buffer == old(self).output_buffer,
            final(self).emitted == old(self).emitted,
    {
        self.interval = Some(interval);
    }

    /// Takes in one sample (micrometres) and emits what the smoother no longer holds.
    pub fn insert_value(&mut self, sample: i64)
        requires
            old(self).wf(),
            -MAX_SAMPLE_UM <= sample <= MAX_SAMPLE_UM,
        ensures
            final(self).wf(),
            (ints(final(self).output_buffer@), ints(final(self).emitted@)) == step(
                (ints(old(self).output_buffer@), ints(old(self).emitted@)),
                sample as int,
            ),
            final(self).header_lines == old(self).header_lines,
            final(self).samples == old(self).samples,
            final(self).start_ts == old(self).start_ts,
            final(self).end_ts == old(self).end_ts,
            final(self).interval == old(self).interval,
            final(self).null_readings == old(self).null_readings,
    {
        insert_sample(&mut self.output_buffer, &mut self.emitted, sample);
    }

    /// Emits every value the smoother still holds.
    pub fn drain_output_buffer(&mut self)
        ensures
            final(self).wf(),
            ints(final(self).emitted@) == ints(old(self).emitted@) + ints(old(self).output_buffer@),
            final(self).output_buffer@.len() == 0,
            final(self).header_lines == old(self).header_lines,
            final(self).samples == old(self).samples,
            final(self).start_ts == old(self).start_ts,
            final(self).end_ts == old(self).end_ts,
            final(self).interval == old(self).interval,
            final(self).null_readings == old(self).null_readings,
    {
        flush(&mut self.output_buffer, &mut self.emitted);
    }

    /// The number of missing samples found by the last `process_data`.
    pub fn get_null_readings(&self) -> (r: usize)
        ensures
            r == self.null_readings,
    {
        self.null_readings
    }

    /// Smooths every sample (a missing one counts as zero) and counts the missing ones.
    pub fn process_data(&mut self) -> (r: Result<(), FDVRainfallCreatorError>)
        ensures
            final(self).header_lines == old(self).header_lines,
            final(self).samples == old(self).samples,
            final(self).start_ts == old(self).start_ts,
            final(self).end_ts == old(self).end_ts,
            final(self).interval == old(self).interval,
            match old(self).samples {
                None => r is Err,
                Some(s) => {
                    if forall|i: int|
                        0 <= i < s@.len() ==> -MAX_SAMPLE_UM <= #[trigger] zero_filled(s@)[i]
                            <= MAX_SAMPLE_UM {
                        &&& r is Ok
                        &&& ints(final(self).emitted@) == smoothed(zero_filled(s@))
                        &&& final(self).output_buffer@.len() == 0
                        &&& bounded(final(self).emitted@)
                        &&& final(self).null_readings == missing(s@, s@.len() as int)
                    } else {
                        r is Err
                    }
                },
            },
    {
        if self.samples.is_none() {
            return Err(FDVRainfallCreatorError::InvalidParameter(line("DataFrame not set")));
        }
        let samples = self.samples.as_ref().unwrap();
        assert(old(self).samples == Some(*samples));
        let (values, nulls) = match zero_fill(samples) {
            Some(r) => r,
            None => {
                return Err(FDVRainfallCreatorError::InvalidParameter(line("rainfall sample out of range")));
            },
        };
        let buf: Vec<i64> = Vec::new();
        let smooth = crate::smoothing::smooth_rainfall(&values);
        self.emitted = smooth;
        self.output_buffer = buf;
        self.null_readings = nulls;
        Ok(())
    }

    /// Checks that the time range, the interval and a non-empty list of samples are set.
    pub fn validate_params(&self) -> (r: Result<(), String>)
        ensures
            r is Ok <==> (self.start_ts is Some && self.end_ts is Some && self.interval is Some
                && (self.samples matches Some(s) && s@.len() > 0)),
    {
        if self.start_ts.is_none() {
            return Err(line("Starting time is not set. Use set_starting_time() method."));
        }
        if self.end_ts.is_none() {
            return Err(line("Ending time is not set. Use set_ending_time() method."));
        }
        if self.interval.is_none() {
            return Err(line("Interval is not set. Use set_interval() method."));
        }
        match &self.samples {
            Some(s) => {
                if s.len() == 0 {
                    return Err(line("DataFrame is empty or not set."));
                }
            },
            None => {
                return Err(line("DataFrame is empty or not set."));
            },
        }
        Ok(())
    }
}

/// The text of a rainfall file whose values are `vals`.
pub fn rain_text(header_lines: &Vec<String>, meta: &String, vals: &Vec<i64>) -> (r: String)
    requires
        bounded(vals@),
    ensures
        r@ == rain_file(line_texts(header_lines@), meta@, ints(vals@)),
{
    let mut out: Vec<char> = Vec::new();
    push_lines(&mut out, header_lines);
    push_all(&mut out, &chars_of(meta.as_str()));
    out.push('\n');
    push_all(&mut out, &chars_of("*CEND\n"));
    let mut fields: Vec<Vec<char>> = Vec::new();
    let mut i: usize = 0;
    while i < vals.len()
        invariant
            i <= vals@.len(),
            bounded(vals@),
            fields@.len() == i,
            forall|k: int| 0 <= k < i ==> #[trigger] fields@[k]@ == rain_field(vals@[k] as int),
        decreases vals@.len() - i,
    {
        fields.push(rain_field_chars(vals[i]));
        i = i + 1;
    }
    let ghost before = out@;
    push_fields(&mut out, &fields);
    assert(fields@.map_values(|f: Vec<char>| f@) =~= rain_fields(ints(vals@)));
    if vals.len() % FIELDS_PER_LINE != 0 {
        out.push('\n');
    }
    push_all(&mut out, &chars_of("\n*END\n"));
    assert(out@ =~= rain_file(line_texts(header_lines@), meta@, ints(vals@)));
    string_of(&out)
}

impl FDVRainfallCreator {
    /// Writes the whole file: the header, the metadata record, the smoothed
    /// values and the tail. Fails where a parameter is missing, an instant cannot
    /// be written, or a sample is out of range.
    pub fn create_fdv_rainfall(&mut self) -> (r: Result<String, FDVRainfallCreatorError>)
        ensures
            !(old(self).start_ts is Some && old(self).end_ts is Some && old(self).interval is Some
                && (old(self).samples matches Some(s) && s@.len() > 0)) ==> (r matches Err(e)
                && e is InvalidParameter),
            r matches Ok(t) ==> {
                let s = old(self).samples->Some_0;
                let start = old(self).start_ts->Some_0;
                let end = old(self).end_ts->Some_0;
                &&& formatted_time(start, COMPACT_FORMAT@) is Some
                &&& formatted_time(end, COMPACT_FORMAT@) is Some
                &&& t@ == rain_file(
                    line_texts(old(self).header_lines@),
                    meta_line(
                        formatted_time(start, COMPACT_FORMAT@)->Some_0,
                        formatted_time(end, COMPACT_FORMAT@)->Some_0,
                        old(self).interval->Some_0,
                    ),
                    smoothed(zero_filled(s@)),
                )
                &&& final(self).null_readings == missing(s@, s@.len() as int)
            },
            (old(self).start_ts is Some && old(self).end_ts is Some && old(self).interval is Some
                && (old(self).samples matches Some(s) && s@.len() > 0 && forall|i: int|
                0 <= i < s@.len() ==> -MAX_SAMPLE_UM <= #[trigger] zero_filled(s@)[i]
                    <= MAX_SAMPLE_UM) && formatted_time(old(self).start_ts->Some_0, COMPACT_FORMAT@)
                is Some && formatted_time(old(self).end_ts->Some_0, COMPACT_FORMAT@) is Some) ==> r is Ok,
    {
        match self.validate_params() {
            Ok(()) => {},
            Err(m) => {
                return Err(FDVRainfallCreatorError::InvalidParameter(m));
            },
        }
        let start = self.start_ts.unwrap();
        let end = self.end_ts.unwrap();
        let interval = self.interval.unwrap();
        let meta = match metadata_line(start, end, interval) {
            Some(m) => m,
            None => {
                return Err(FDVRainfallCreatorError::InvalidParameter(line("time range cannot be written")));
            },
        };
        self.process_data()?;
        Ok(rain_text(&self.header_lines, &meta, &self.emitted))
    }

    /// Sets everything a rainfall file needs in one call.
    pub fn set_parameters(
        &mut self,
        samples: Vec<Option<i64>>,
        site_name: &str,
        starting_time: &str,
        ending_time: &str,
        interval: i64,
    ) -> (r: Result<(), FDVRainfallCreatorError>)
        requires
            old(self).header_lines@.len() > 1,
        ensures
            r is Ok <==> parsed_time(starting_time@, CANONICAL_FORMAT@) is Some && parsed_time(
                ending_time@,
                CANONICAL_FORMAT@,
            ) is Some,
            r is Ok ==> {
                &&& final(self).samples == Some(samples)
                &&& final(self).start_ts == parsed_time(starting_time@, CANONICAL_FORMAT@)
                &&& final(self).end_ts == parsed_time(ending_time@, CANONICAL_FORMAT@)
                &&& final(self).interval == Some(interval)
                &&& line_texts(final(self).header_lines@) == line_texts(
                    old(self).header_lines@,
                ).update(1, identifier_line(site_name@))
            },
    {
        self.set_samples(samples);
        self.set_site_name(site_name);
        self.set_starting_time(starting_time)?;
        self.set_ending_time(ending_time)?;
        self.set_interval(interval);
        Ok(())
    }
}

} // verus!
