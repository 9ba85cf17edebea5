//! Framing shared by the fixed-format flow and rainfall files: header lines, the
//! metadata record, fixed-width fields laid out five to a line, and the tail.

use crate::outside::{format_time, formatted_time, string_of, to_uppercase, upper_of};
use crate::text::{int_chars, int_text, push_all};
use crate::text::chars_of;
use vstd::prelude::*;

verus! {

/// The layout of the instants in the metadata record.
pub const COMPACT_FORMAT: &'static str = "%Y%m%d%H%M";

/// How many fields make one line.
pub const FIELDS_PER_LINE: usize = 5;

/// Site names are cut to this many characters in the identifier line.
pub const SITE_NAME_WIDTH: usize = 15;

/// Lines joined, each ended by a newline.
pub open spec fn lines_text(lines: Seq<Seq<char>>) -> Seq<char>
    decreases lines.len(),
{
    if lines.len() == 0 {
        seq![]
    } else {
        lines_text(lines.drop_last()) + lines.last() + seq!['\n']
    }
}

/// The first `n` fields, with a newline after every fifth.
pub open spec fn fields_text(fields: Seq<Seq<char>>, n: int) -> Seq<char>
    decreases n,
{
    if n <= 0 {
        seq![]
    } else {
        fields_text(fields, n - 1) + fields[n - 1] + if n % 5 == 0 {
            seq!['\n']
        } else {
            seq![]
        }
    }
}

/// The identifier line for a site: its name cut to fifteen characters, in
/// upper case.
pub open spec fn identifier_line(site_name: Seq<char>) -> Seq<char> {
    "**IDENTIFIER:            1,"@ + upper_of(
        if site_name.len() > SITE_NAME_WIDTH {
            site_name.subrange(0, SITE_NAME_WIDTH as int)
        } else {
            site_name
        },
    )
}

/// The metadata record: start, end and interval in minutes.
pub open spec fn meta_line(start: Seq<char>, end: Seq<char>, interval: i64) -> Seq<char> {
    start + seq![' '] + end + "   "@ + int_text(interval as int)
}

/// The texts of a list of lines.
pub open spec fn line_texts(lines: Seq<String>) -> Seq<Seq<char>> {
    lines.map_values(|s: String| s@)
}

/// Appends every line, each ended by a newline.
pub fn push_lines(out: &mut Vec<char>, lines: &Vec<String>)
    ensures
        final(out)@ == old(out)@ + lines_text(line_texts(lines@)),
{
    let mut i: usize = 0;
    while i < lines.len()
        invariant
            i <= lines@.len(),
            out@ == old(out)@ + lines_text(line_texts(lines@).subrange(0, i as int)),
        decreases lines@.len() - i,
    {
        let ghost before = out@;
        let l = chars_of(lines[i].as_str());
        push_all(out, &l);
        out.push('\n');
        i = i + 1;
        proof {
            let t = line_texts(lines@);
            assert(t.subrange(0, i as int).drop_last() =~= t.subrange(0, i - 1));
            assert(t.subrange(0, i as int).last() == lines@[i - 1]@);
            assert(out@ =~= old(out)@ + lines_text(t.subrange(0, i as int)));
        }
    }
    assert(line_texts(lines@).subrange(0, i as int) =~= line_texts(lines@));
}

/// The identifier line for a site.
pub fn identifier(site_name: &str) -> (r: String)
    ensures
        r@ == identifier_line(site_name@),
{
    let chars = chars_of(site_name);
    let cut: Vec<char> = if chars.len() > SITE_NAME_WIDTH {
        let mut c: Vec<char> = Vec::new();
        let mut i: usize = 0;
        while i < SITE_NAME_WIDTH
            invariant
                i <= SITE_NAME_WIDTH < chars@.len(),
                c@ == chars@.subrange(0, i as int),
            decreases SITE_NAME_WIDTH - i,
        {
            c.push(chars[i]);
            i = i + 1;
            proof {
                assert(c@ =~= chars@.subrange(0, i as int));
            }
        }
        c
    } else {
        chars
    };
    let upper = to_uppercase(string_of(&cut).as_str());
    let mut line = chars_of("**IDENTIFIER:            1,");
    push_all(&mut line, &chars_of(upper.as_str()));
    string_of(&line)
}

/// The metadata record for a time range and an interval in minutes; `None`
/// where an instant cannot be written.
pub fn metadata_line(start: i64, end: i64, interval: i64) -> (r: Option<String>)
    ensures
        match r {
            Some(s) => formatted_time(start, COMPACT_FORMAT@) is Some && formatted_time(
                end,
                COMPACT_FORMAT@,
            ) is Some && s@ == meta_line(
                formatted_time(start, COMPACT_FORMAT@)->Some_0,
                formatted_time(end, COMPACT_FORMAT@)->Some_0,
                interval,
            ),
            None => formatted_time(start, COMPACT_FORMAT@) is None || formatted_time(
                end,
                COMPACT_FORMAT@,
            ) is None,
        },
{
    let s = format_time(start, COMPACT_FORMAT)?;
    let e = format_time(end, COMPACT_FORMAT)?;
    let mut line = chars_of(s.as_str());
    line.push(' ');
    push_all(&mut line, &chars_of(e.as_str()));
    push_all(&mut line, &chars_of("   "));
    push_all(&mut line, &int_chars(interval));
    assert(line@ =~= meta_line(s@, e@, interval));
    Some(string_of(&line))
}

/// Appends the fields, with a newline after every fifth.
pub fn push_fields(out: &mut Vec<char>, fields: &Vec<Vec<char>>)
    ensures
        final(out)@ == old(out)@ + fields_text(
            fields@.map_values(|f: Vec<char>| f@),
            fields@.len() as int,
        ),
{
    let ghost fs = fields@.map_values(|f: Vec<char>| f@);
    let mut i: usize = 0;
    while i < fields.len()
        invariant
            i <= fields@.len(),
            fs == fields@.map_values(|f: Vec<char>| f@),
            out@ == old(out)@ + fields_text(fs, i as int),
        decreases fields@.len() - i,
    {
        push_all(out, &fields[i]);
        if (i + 1) % FIELDS_PER_LINE == 0 {
            out.push('\n');
        }
        i = i + 1;
        proof {
            assert(fs[i - 1] == fields@[i - 1]@);
            if i % 5 == 0 {
                assert(out@ =~= old(out)@ + fields_text(fs, i as int));
            } else {
                assert(out@ =~= old(out)@ + fields_text(fs, i as int));
            }
        }
    }
}

} // verus!
