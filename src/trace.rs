//! Logic-analyzer trace exports: the header signature of each protocol, the
//! value that each data row carries, and the run of values of a whole trace.

use vstd::prelude::*;
use crate::hex::{parse_hex, parse_hex_from};
use crate::text::{contains, contains_chars, split_chars, split_on, str_chars, views};

verus! {

/// Rows holding this text are sampling glitches of the analyzer and carry no value.
pub const KINGST_ERROR_STR: &'static str =
    "The initial (idle) state of the CLK line does not match the settings";

/// First-row signature of an SPI export.
pub const KINGST_SPI_FILE_FORMAT: &'static str = "Time [s],Packet ID,MOSI,MISO";

/// First-row signature of an IIS export.
pub const KINGST_IIS_FILE_FORMAT: &'static str = "Time [s],Channel,Value";

/// First-row signature of a UART export.
pub const KINGST_UART_FILE_FORMAT: &'static str = "Time [s],Value,Parity Error,Framing Error";

/// The protocols whose exports the decoders read.
#[derive(Clone, Copy, Debug, PartialEq, Eq, Structural)]
pub enum Protocal {
    SPI,
    IIS,
    UART,
}

pub open spec fn signature(p: Protocal) -> Seq<char> {
    match p {
        Protocal::SPI => KINGST_SPI_FILE_FORMAT@,
        Protocal::IIS => KINGST_IIS_FILE_FORMAT@,
        Protocal::UART => KINGST_UART_FILE_FORMAT@,
    }
}

impl Protocal {
    /// The text that the first row of this protocol's export holds.
    pub fn header_signature(&self) -> (r: &'static str)
        ensures
            r@ == signature(*self),
    {
        match self {
            Protocal::SPI => KINGST_SPI_FILE_FORMAT,
            Protocal::IIS => KINGST_IIS_FILE_FORMAT,
            Protocal::UART => KINGST_UART_FILE_FORMAT,
        }
    }
}

/// Whether a trace whose first row is `first` is an export of protocol `p`.
pub fn header_matches(first: &str, p: Protocal) -> (r: bool)
    ensures
        r == contains(first@, signature(p)),
{
    let row = str_chars(first);
    let sig = str_chars(p.header_signature());
    contains_chars(&row, &sig)
}

/// How wide the value of one row is.
#[derive(Clone, Copy, Debug, PartialEq, Eq, Structural)]
pub enum ValueWidth {
    U8,
    U16,
}

pub open spec fn width_max(w: ValueWidth) -> nat {
    match w {
        ValueWidth::U8 => 0xff,
        ValueWidth::U16 => 0xffff,
    }
}

/// What one data row yields.
#[derive(Clone, Copy, Debug, PartialEq, Eq, Structural)]
pub enum RowEvent {
    /// The row holds the glitch marker and is dropped.
    Skipped,
    /// The value that the row carries.
    Value(u16),
    /// The row has no readable base-16 value.
    Malformed,
}

pub open spec fn hex_marker() -> Seq<char> {
    seq!['0', 'x']
}

/// The fields that hold `0x`, joined in order.
pub open spec fn hex_fields_joined(fields: Seq<Seq<char>>) -> Seq<char>
    decreases fields.len(),
{
    if fields.len() == 0 {
        Seq::empty()
    } else {
        let kept = if contains(fields.last(), hex_marker()) {
            fields.last()
        } else {
            Seq::empty()
        };
        hex_fields_joined(fields.drop_last()) + kept
    }
}

/// `s` without one leading `0x`, where it has one.
pub open spec fn strip_hex_marker(s: Seq<char>) -> Seq<char> {
    if s.len() >= 2 && s[0] == '0' && s[1] == 'x' {
        s.subrange(2, s.len() as int)
    } else {
        s
    }
}

/// The digits that a row carries: its comma-separated fields that hold `0x`,
/// joined, with one leading `0x` taken off.
pub open spec fn row_payload(row: Seq<char>) -> Seq<char> {
    strip_hex_marker(hex_fields_joined(split_on(row, seq![','])))
}

pub open spec fn is_glitch_row(row: Seq<char>) -> bool {
    contains(row, KINGST_ERROR_STR@)
}

pub open spec fn row_event(row: Seq<char>, w: ValueWidth) -> RowEvent {
    if is_glitch_row(row) {
        RowEvent::Skipped
    } else {
        match parse_hex(row_payload(row), width_max(w)) {
            Some(v) => RowEvent::Value(v as u16),
            None => RowEvent::Malformed,
        }
    }
}

/// The event of one data row: dropped when it holds the glitch marker, else
/// the base-16 value of its `0x` fields, or `Malformed` where that is no
/// number of the given width.
pub fn extract_event(row: &str, w: ValueWidth) -> (r: RowEvent)
    ensures
        r == row_event(row@, w),
{
    let chars = str_chars(row);
    let marker = str_chars(KINGST_ERROR_STR);
    if contains_chars(&chars, &marker) {
        return RowEvent::Skipped;
    }
    let seps: Vec<char> = vec![','];
    let hex: Vec<char> = vec!['0', 'x'];
    assert(seps@ =~= seq![',']);
    assert(hex@ =~= hex_marker());
    let fields = split_chars(&chars, &seps);
    let mut joined: Vec<char> = Vec::new();
    let mut i: usize = 0;
    while i < fields.len()
        invariant
            i <= fields@.len(),
            hex@ == hex_marker(),
            joined@ == hex_fields_joined(views(fields@).subrange(0, i as int)),
        decreases fields@.len() - i,
    {
        let ghost before = joined@;
        assert(views(fields@).subrange(0, i + 1).drop_last() =~= views(fields@).subrange(
            0,
            i as int,
        ));
        assert(views(fields@).subrange(0, i + 1).last() == fields@[i as int]@);
        if contains_chars(&fields[i], &hex) {
            let mut part = fields[i].clone();
            joined.append(&mut part);
        } else {
            assert(before + Seq::<char>::empty() =~= before);
        }
        i = i + 1;
    }
    assert(views(fields@).subrange(0, fields@.len() as int) =~= views(fields@));
    let start: usize = if joined.len() >= 2 && joined[0] == '0' && joined[1] == 'x' {
        2
    } else {
        0
    };
    assert(joined@.subrange(start as int, joined@.len() as int) =~= strip_hex_marker(joined@));
    let max: u32 = match w {
        ValueWidth::U8 => 0xff,
        ValueWidth::U16 => 0xffff,
    };
    match parse_hex_from(&joined, start, max) {
        Some(v) => RowEvent::Value(v as u16),
        None => RowEvent::Malformed,
    }
}

/// The text of each line.
pub open spec fn line_views(lines: Seq<String>) -> Seq<Seq<char>> {
    lines.map_values(|l: String| l@)
}

/// The values of a run of data rows, in order, up to the first malformed row;
/// with the index of that row, where there is one.
pub open spec fn trace_values(rows: Seq<Seq<char>>, w: ValueWidth) -> (Seq<u16>, Option<int>)
    decreases rows.len(),
{
    if rows.len() == 0 {
        (Seq::empty(), None)
    } else {
        let prev = trace_values(rows.drop_last(), w);
        if prev.1 is Some {
            prev
        } else {
            match row_event(rows.last(), w) {
                RowEvent::Skipped => prev,
                RowEvent::Value(v) => (prev.0.push(v), None),
                RowEvent::Malformed => (prev.0, Some(rows.len() - 1)),
            }
        }
    }
}

/// The values of a trace file's lines, the first line being its header: with
/// the line index of the first malformed row, where there is one.
pub open spec fn file_values(lines: Seq<Seq<char>>, w: ValueWidth) -> (Seq<u16>, Option<int>) {
    let t = trace_values(lines.subrange(1, lines.len() as int), w);
    (t.0, if t.1 is Some { Some(t.1->0 + 1) } else { None })
}

pub open spec fn opt_int(o: Option<usize>) -> Option<int> {
    match o {
        Some(k) => Some(k as int),
        None => None,
    }
}

proof fn lemma_values_bounded(rows: Seq<Seq<char>>, w: ValueWidth)
    ensures
        trace_values(rows, w).0.len() <= rows.len(),
        forall|k: int|
            0 <= k < trace_values(rows, w).0.len() ==> trace_values(rows, w).0[k] as nat
                <= width_max(w),
        trace_values(rows, w).1 matches Some(k) ==> 0 <= k < rows.len(),
    decreases rows.len(),
{
    if rows.len() > 0 {
        lemma_values_bounded(rows.drop_last(), w);
    }
}

/// The values of the data rows of `lines` (every line after the first), up to
/// the first malformed one, whose line index comes second.
pub fn collect_values(lines: &Vec<String>, w: ValueWidth) -> (r: (Vec<u16>, Option<usize>))
    requires
        lines@.len() >= 1,
    ensures
        (r.0@, opt_int(r.1)) == file_values(line_views(lines@), w),
        forall|k: int| 0 <= k < r.0@.len() ==> r.0@[k] as nat <= width_max(w),
{
    let ghost all = line_views(lines@);
    let ghost data = all.subrange(1, all.len() as int);
    let mut values: Vec<u16> = Vec::new();
    let mut i: usize = 1;
    while i < lines.len()
        invariant
            1 <= i <= lines@.len(),
            all == line_views(lines@),
            data == all.subrange(1, all.len() as int),
            trace_values(data.subrange(0, i - 1), w) == (values@, None::<int>),
        decreases lines@.len() - i,
    {
        assert(data.subrange(0, i as int).drop_last() =~= data.subrange(0, i - 1));
        assert(data.subrange(0, i as int).last() == lines@[i as int]@);
        match extract_event(lines[i].as_str(), w) {
            RowEvent::Skipped => {},
            RowEvent::Value(v) => {
                values.push(v);
            },
            RowEvent::Malformed => {
                proof {
                    lemma_values_bounded(data.subrange(0, i as int), w);
                    lemma_tail_unchanged(data, i as int, w);
                }
                return (values, Some(i));
            },
        }
        i = i + 1;
    }
    assert(data.subrange(0, i - 1) =~= data);
    proof {
        lemma_values_bounded(data, w);
    }
    (values, None)
}

/// Once a prefix of the rows has a malformed row, longer prefixes keep its result.
proof fn lemma_tail_unchanged(rows: Seq<Seq<char>>, k: int, w: ValueWidth)
    requires
        1 <= k <= rows.len(),
        trace_values(rows.subrange(0, k), w).1 is Some,
    ensures
        trace_values(rows, w) == trace_values(rows.subrange(0, k), w),
    decreases rows.len() - k,
{
    if k < rows.len() {
        assert(rows.subrange(0, k + 1).drop_last() =~= rows.subrange(0, k));
        lemma_tail_unchanged(rows, k + 1, w);
    } else {
        assert(rows.subrange(0, k) =~= rows);
    }
}

} // verus!
