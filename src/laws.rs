//! Properties that relate the decoders' results to their inputs as a whole.

use vstd::prelude::*;
use crate::hardfault::{
    collect_token, complete, dump_snapshots, empty_slots, fill_absent, is_full_marker,
    is_watchdog_marker, line_step, lines_run, parser_start, skip_absent, text_lines, token_step,
    tokens_run, DumpMode, ParserModel, RegSlot, RegsView,
};
use crate::hex::{hex_byte_lower, lower_digit, parse_hex};
use crate::text::split_on;
use crate::logic::{
    decode_spec, hex_dump, le_pack, protocol_of, raw_bytes, trace_matches, DecoderKind,
    OutputName,
};
use crate::trace::{
    is_glitch_row, row_event, row_payload, trace_values, width_max, Protocal, ValueWidth,
};

verus! {

/// The data rows that do not hold the glitch marker, in order.
pub open spec fn valid_rows(rows: Seq<Seq<char>>) -> Seq<Seq<char>> {
    rows.filter(|r: Seq<char>| !is_glitch_row(r))
}

/// Every data row that is not a glitch carries one value of width `w`.
pub open spec fn rows_carry_values(rows: Seq<Seq<char>>, w: ValueWidth) -> bool {
    forall|i: int|
        0 <= i < rows.len() && !is_glitch_row(#[trigger] rows[i]) ==> parse_hex(
            row_payload(rows[i]),
            width_max(w),
        ) is Some
}

/// The value that a row carries.
pub open spec fn row_value(r: Seq<char>, w: ValueWidth) -> nat {
    parse_hex(row_payload(r), width_max(w))->0
}

/// The byte that each row carries.
pub open spec fn row_bytes(rows: Seq<Seq<char>>) -> Seq<u8> {
    rows.map_values(|r: Seq<char>| row_value(r, ValueWidth::U8) as u8)
}

proof fn lemma_values_of_valid_rows(rows: Seq<Seq<char>>, w: ValueWidth)
    requires
        rows_carry_values(rows, w),
    ensures
        trace_values(rows, w).1 is None,
        trace_values(rows, w).0.len() == valid_rows(rows).len(),
        forall|i: int|
            0 <= i < valid_rows(rows).len() ==> trace_values(rows, w).0[i] as nat == row_value(
                #[trigger] valid_rows(rows)[i],
                w,
            ) && row_value(valid_rows(rows)[i], w) <= width_max(w),
    decreases rows.len(),
{
    reveal(Seq::filter);
    if rows.len() > 0 {
        let prev = rows.drop_last();
        assert(rows_carry_values(prev, w)) by {
            assert forall|i: int| 0 <= i < prev.len() && !is_glitch_row(#[trigger] prev[i]) implies parse_hex(
                row_payload(prev[i]),
                width_max(w),
            ) is Some by {
                assert(prev[i] == rows[i]);
            }
        }
        lemma_values_of_valid_rows(prev, w);
        let last = rows.last();
        assert(rows[rows.len() - 1] == last);
        if !is_glitch_row(last) {
            assert(row_event(last, w) is Value);
            assert(row_value(last, w) <= width_max(w));
            assert(width_max(w) <= 0xffff);
        }
    }
}

/// A raw SPI decode of a matching trace whose non-glitch rows each carry one
/// byte writes exactly one byte per such row, in row order, and stops at no row.
pub proof fn lemma_raw_spi_one_byte_per_row(lines: Seq<Seq<char>>)
    requires
        trace_matches(lines, Protocal::SPI),
        rows_carry_values(lines.subrange(1, lines.len() as int), ValueWidth::U8),
    ensures
        ({
            let data = lines.subrange(1, lines.len() as int);
            let o = decode_spec(DecoderKind::RawSpi, lines)->0;
            &&& decode_spec(DecoderKind::RawSpi, lines) is Some
            &&& o.malformed_line is None
            &&& o.files == seq![(OutputName::Out, row_bytes(valid_rows(data)))]
            &&& o.files[0].1.len() == valid_rows(data).len()
            &&& forall|i: int|
                0 <= i < valid_rows(data).len() ==> o.files[0].1[i] as nat == row_value(
                    #[trigger] valid_rows(data)[i],
                    ValueWidth::U8,
                )
        }),
{
    let data = lines.subrange(1, lines.len() as int);
    lemma_row_bytes(data);
    let o = decode_spec(DecoderKind::RawSpi, lines)->0;
    assert(o.files =~= seq![(OutputName::Out, row_bytes(valid_rows(data)))]);
}

/// The byte values of a byte trace, seen through the decoders' `raw_bytes`.
proof fn lemma_row_bytes(data: Seq<Seq<char>>)
    requires
        rows_carry_values(data, ValueWidth::U8),
    ensures
        trace_values(data, ValueWidth::U8).1 is None,
        raw_bytes(trace_values(data, ValueWidth::U8).0) == row_bytes(valid_rows(data)),
        forall|i: int|
            0 <= i < valid_rows(data).len() ==> row_bytes(valid_rows(data))[i] as nat
                == row_value(#[trigger] valid_rows(data)[i], ValueWidth::U8),
{
    lemma_values_of_valid_rows(data, ValueWidth::U8);
    let t = trace_values(data, ValueWidth::U8);
    assert forall|i: int| 0 <= i < valid_rows(data).len() implies row_bytes(valid_rows(data))[i]
        as nat == row_value(#[trigger] valid_rows(data)[i], ValueWidth::U8) by {
        assert(row_value(valid_rows(data)[i], ValueWidth::U8) <= 0xff);
    }
    assert(raw_bytes(t.0) =~= row_bytes(valid_rows(data))) by {
        assert forall|i: int| 0 <= i < t.0.len() implies raw_bytes(t.0)[i] == row_bytes(
            valid_rows(data),
        )[i] by {
            assert(t.0[i] as nat == row_value(valid_rows(data)[i], ValueWidth::U8));
            assert(row_value(valid_rows(data)[i], ValueWidth::U8) <= 0xff);
        }
    }
}

/// A text decode (SPI or UART) of a matching trace whose non-glitch rows each
/// carry one byte writes one file: the hex dump of those bytes, in row order.
pub proof fn lemma_text_dump_of_rows(k: DecoderKind, lines: Seq<Seq<char>>)
    requires
        k == DecoderKind::TextSpi || k == DecoderKind::UartText,
        trace_matches(lines, protocol_of(k)),
        rows_carry_values(lines.subrange(1, lines.len() as int), ValueWidth::U8),
    ensures
        ({
            let data = lines.subrange(1, lines.len() as int);
            let o = decode_spec(k, lines)->0;
            &&& decode_spec(k, lines) is Some
            &&& o.malformed_line is None
            &&& o.files == seq![(OutputName::Txt, hex_dump(row_bytes(valid_rows(data))))]
        }),
{
    let data = lines.subrange(1, lines.len() as int);
    lemma_row_bytes(data);
    let o = decode_spec(k, lines)->0;
    assert(o.files =~= seq![(OutputName::Txt, hex_dump(row_bytes(valid_rows(data))))]);
}

proof fn lemma_le_pack_layout(values: Seq<u16>)
    ensures
        le_pack(values).len() == 2 * values.len(),
        forall|i: int|
            0 <= i < values.len() ==> le_pack(values)[2 * i] == (#[trigger] values[i] % 256) as u8
                && le_pack(values)[2 * i + 1] == (values[i] / 256) as u8,
    decreases values.len(),
{
    if values.len() > 0 {
        lemma_le_pack_layout(values.drop_last());
        let p = le_pack(values.drop_last());
        assert forall|i: int| 0 <= i < values.len() implies le_pack(values)[2 * i] == (
        #[trigger] values[i] % 256) as u8 && le_pack(values)[2 * i + 1] == (values[i] / 256) as u8 by {
            if i < values.len() - 1 {
                assert(values.drop_last()[i] == values[i]);
            }
        }
    }
}

/// An IIS decode of a matching trace whose non-glitch rows each carry one
/// 16-bit sample writes two bytes per such row, low byte first, in row order.
pub proof fn lemma_iis_two_bytes_per_row(lines: Seq<Seq<char>>)
    requires
        trace_matches(lines, Protocal::IIS),
        rows_carry_values(lines.subrange(1, lines.len() as int), ValueWidth::U16),
    ensures
        ({
            let data = lines.subrange(1, lines.len() as int);
            let o = decode_spec(DecoderKind::Iis, lines)->0;
            &&& decode_spec(DecoderKind::Iis, lines) is Some
            &&& o.malformed_line is None
            &&& o.files.len() == 1
            &&& o.files[0].0 == OutputName::Out
            &&& o.files[0].1.len() == 2 * valid_rows(data).len()
            &&& forall|i: int|
                0 <= i < valid_rows(data).len() ==> {
                    &&& o.files[0].1[2 * i] as nat == row_value(
                        #[trigger] valid_rows(data)[i],
                        ValueWidth::U16,
                    ) % 256
                    &&& o.files[0].1[2 * i + 1] as nat == row_value(
                        valid_rows(data)[i],
                        ValueWidth::U16,
                    ) / 256
                }
        }),
{
    let data = lines.subrange(1, lines.len() as int);
    lemma_values_of_valid_rows(data, ValueWidth::U16);
    let t = trace_values(data, ValueWidth::U16);
    lemma_le_pack_layout(t.0);
    assert forall|i: int| 0 <= i < valid_rows(data).len() implies {
        &&& le_pack(t.0)[2 * i] as nat == row_value(#[trigger] valid_rows(data)[i], ValueWidth::U16)
            % 256
        &&& le_pack(t.0)[2 * i + 1] as nat == row_value(valid_rows(data)[i], ValueWidth::U16) / 256
    } by {
        assert(t.0[i] as nat == row_value(valid_rows(data)[i], ValueWidth::U16));
        assert(le_pack(t.0)[2 * i] == (t.0[i] % 256) as u8);
        assert(le_pack(t.0)[2 * i + 1] == (t.0[i] / 256) as u8);
    }
}

/// Where byte `i` of `n` starts in the hex-dump text.
pub open spec fn dump_pos(i: int) -> int {
    3 * i + i / 16
}

/// Whether position `j` of a hex dump of `n` bytes is a line break.
pub open spec fn is_break_pos(j: int, n: int) -> bool {
    exists|i: int| 0 < i < n && i % 16 == 0 && j == #[trigger] dump_pos(i) - 1
}

proof fn lemma_lower_digit_not_break(d: nat)
    requires
        d < 16,
    ensures
        lower_digit(d) != 10u8,
        lower_digit(d) != 32u8,
{
}

/// The layout of a hex dump of `n` bytes: byte `i` is written as two lowercase
/// digits and a space at `3 * i + i / 16`; a line break stands before every
/// sixteenth byte but the first, and nowhere else, so that the text never
/// begins with a line break and has `ceil(n / 16)` lines.
pub proof fn lemma_hex_dump_layout(bytes: Seq<u8>)
    ensures
        hex_dump(bytes).len() == (if bytes.len() == 0 {
            0
        } else {
            3 * bytes.len() + (bytes.len() - 1) / 16
        }),
        forall|i: int|
            0 <= i < bytes.len() ==> {
                let p = #[trigger] dump_pos(i);
                &&& hex_dump(bytes)[p] == hex_byte_lower(bytes[i])[0]
                &&& hex_dump(bytes)[p + 1] == hex_byte_lower(bytes[i])[1]
                &&& hex_dump(bytes)[p + 2] == 32u8
            },
        forall|j: int|
            0 <= j < hex_dump(bytes).len() ==> (#[trigger] hex_dump(bytes)[j] == 10u8 <==> is_break_pos(
                j,
                bytes.len() as int,
            )),
    decreases bytes.len(),
{
    if bytes.len() > 0 {
        let prev = bytes.drop_last();
        lemma_hex_dump_layout(prev);
        let n = bytes.len() as int;
        let i = n - 1;
        let b = bytes.last();
        lemma_lower_digit_not_break(b as nat / 16);
        lemma_lower_digit_not_break(b as nat % 16);
        let brk: Seq<u8> = if i > 0 && i % 16 == 0 {
            seq![10u8]
        } else {
            Seq::empty()
        };
        let out = hex_dump(bytes);
        let pout = hex_dump(prev);
        assert(out == pout + brk + hex_byte_lower(b) + seq![32u8]);
        assert(pout.len() == (if i == 0 { 0 } else { 3 * i + (i - 1) / 16 }));
        assert(pout.len() + brk.len() == dump_pos(i)) by {
            if i > 0 {
                if i % 16 == 0 {
                    assert((i - 1) / 16 + 1 == i / 16) by (nonlinear_arith)
                        requires
                            i > 0,
                            i % 16 == 0,
                    ;
                } else {
                    assert((i - 1) / 16 == i / 16) by (nonlinear_arith)
                        requires
                            i > 0,
                            i % 16 != 0,
                    ;
                }
            }
        }
        assert(out.len() == (3 * n + (n - 1) / 16)) by {
            assert(dump_pos(i) + 3 == 3 * n + (n - 1) / 16);
        }
        assert forall|k: int| 0 <= k < n implies {
            let p = #[trigger] dump_pos(k);
            &&& out[p] == hex_byte_lower(bytes[k])[0]
            &&& out[p + 1] == hex_byte_lower(bytes[k])[1]
            &&& out[p + 2] == 32u8
        } by {
            if k < i {
                assert(prev[k] == bytes[k]);
                assert(dump_pos(k) + 2 < pout.len()) by {
                    assert(k / 16 <= (i - 1) / 16) by (nonlinear_arith)
                        requires
                            0 <= k <= i - 1,
                    ;
                }
            }
        }
        assert forall|j: int| 0 <= j < out.len() implies (#[trigger] out[j] == 10u8 <==> is_break_pos(
            j,
            n,
        )) by {
            if j < pout.len() {
                assert(out[j] == pout[j]);
                if is_break_pos(j, i) {
                    let w = choose|w: int| 0 < w < i && w % 16 == 0 && j == #[trigger] dump_pos(w) - 1;
                    assert(0 < w < n && w % 16 == 0 && j == dump_pos(w) - 1);
                }
                if is_break_pos(j, n) {
                    let w = choose|w: int| 0 < w < n && w % 16 == 0 && j == #[trigger] dump_pos(w) - 1;
                    if w == i {
                        assert(j == pout.len() + brk.len() - 1);
                        assert(false);
                    }
                    assert(is_break_pos(j, i));
                }
            } else if j < pout.len() + brk.len() {
                assert(out[j] == 10u8);
                assert(j == dump_pos(i) - 1);
                assert(is_break_pos(j, n));
            } else {
                assert(out[j] != 10u8);
                if is_break_pos(j, n) {
                    let w = choose|w: int| 0 < w < n && w % 16 == 0 && j == #[trigger] dump_pos(w) - 1;
                    assert(dump_pos(w) <= dump_pos(i)) by {
                        assert(w / 16 <= i / 16) by (nonlinear_arith)
                            requires
                                0 <= w <= i,
                        ;
                    }
                    assert(false);
                }
            }
        }
    }
}

/// The number of line breaks in `s`.
pub open spec fn count_breaks(s: Seq<u8>) -> nat
    decreases s.len(),
{
    if s.len() == 0 {
        0
    } else {
        count_breaks(s.drop_last()) + if s.last() == 10u8 {
            1nat
        } else {
            0nat
        }
    }
}

proof fn lemma_count_concat(a: Seq<u8>, b: Seq<u8>)
    ensures
        count_breaks(a + b) == count_breaks(a) + count_breaks(b),
    decreases b.len(),
{
    if b.len() == 0 {
        assert(a + b =~= a);
    } else {
        lemma_count_concat(a, b.drop_last());
        assert((a + b).drop_last() =~= a + b.drop_last());
    }
}

/// A hex dump of `n > 0` bytes holds `(n - 1) / 16` line breaks, so that it has
/// `ceil(n / 16)` lines; one of no bytes is empty.
pub proof fn lemma_hex_dump_line_breaks(bytes: Seq<u8>)
    ensures
        count_breaks(hex_dump(bytes)) == (if bytes.len() == 0 {
            0
        } else {
            (bytes.len() - 1) / 16
        }),
    decreases bytes.len(),
{
    if bytes.len() > 0 {
        let prev = bytes.drop_last();
        lemma_hex_dump_line_breaks(prev);
        let i = bytes.len() - 1;
        let b = bytes.last();
        lemma_lower_digit_not_break(b as nat / 16);
        lemma_lower_digit_not_break(b as nat % 16);
        let brk: Seq<u8> = if i > 0 && i % 16 == 0 {
            seq![10u8]
        } else {
            Seq::empty()
        };
        let hb = hex_byte_lower(b);
        lemma_count_concat(hex_dump(prev), brk);
        lemma_count_concat(hex_dump(prev) + brk, hb);
        lemma_count_concat(hex_dump(prev) + brk + hb, seq![32u8]);
        assert(count_breaks(hb) == 0) by {
            reveal_with_fuel(count_breaks, 3);
            assert(hb[0] != 10u8 && hb[1] != 10u8);
            assert(hb.drop_last() =~= seq![hb[0]]);
            assert(seq![hb[0]].drop_last() =~= Seq::<u8>::empty());
        }
        assert(count_breaks(seq![32u8]) == 0) by {
            reveal_with_fuel(count_breaks, 2);
            assert(seq![32u8].drop_last() =~= Seq::<u8>::empty());
        }
        assert(count_breaks(brk) == (if i > 0 && i % 16 == 0 { 1nat } else { 0nat })) by {
            reveal_with_fuel(count_breaks, 2);
            if i > 0 && i % 16 == 0 {
                assert(brk.drop_last() =~= Seq::<u8>::empty());
            }
        }
        if i > 0 {
            if i % 16 == 0 {
                assert((i - 1) / 16 + 1 == i / 16) by (nonlinear_arith)
                    requires
                        i > 0,
                        i % 16 == 0,
                ;
            } else {
                assert((i - 1) / 16 == i / 16) by (nonlinear_arith)
                    requires
                        i > 0,
                        i % 16 != 0,
                ;
            }
        }
    }
}

/// The value of one register token.
pub open spec fn token_value(t: Seq<char>) -> u32 {
    parse_hex(t, 0xffff_ffff)->0 as u32
}

/// Every token is a base-16 `u32`.
pub open spec fn tokens_parse(toks: Seq<Seq<char>>) -> bool {
    forall|i: int| 0 <= i < toks.len() ==> (#[trigger] parse_hex(toks[i], 0xffff_ffff)) is Some
}

pub open spec fn full_regs(toks: Seq<Seq<char>>, k: int) -> Seq<RegSlot> {
    Seq::new(32, |j: int| if j < k { RegSlot::Value(token_value(toks[j])) } else { RegSlot::Unset })
}

proof fn lemma_full_prefix(m0: ParserModel, toks: Seq<Seq<char>>, k: int)
    requires
        m0.mode == DumpMode::Full,
        m0.index == 0,
        m0.regs == empty_slots(),
        toks.len() == 32,
        tokens_parse(toks),
        0 <= k <= 32,
    ensures
        tokens_run(m0, toks.subrange(0, k)) == (ParserModel {
            mode: if k < 32 { DumpMode::Full } else { DumpMode::Idle },
            index: k as nat,
            regs: full_regs(toks, k),
            header: m0.header,
            snapshots: if k < 32 {
                m0.snapshots
            } else {
                m0.snapshots.push(RegsView { regs: full_regs(toks, 32), header: m0.header })
            },
        }),
    decreases k,
{
    if k == 0 {
        assert(toks.subrange(0, 0).len() == 0);
        assert(full_regs(toks, 0) =~= empty_slots());
    } else {
        lemma_full_prefix(m0, toks, k - 1);
        assert(toks.subrange(0, k).drop_last() =~= toks.subrange(0, k - 1));
        let t = toks[k - 1];
        assert(toks.subrange(0, k).last() == t);
        assert(parse_hex(t, 0xffff_ffff) is Some);
        assert(t.len() > 0);
        let m = tokens_run(m0, toks.subrange(0, k - 1));
        assert(m.regs.update(k - 1, RegSlot::Value(token_value(t))) =~= full_regs(toks, k));
    }
}

/// A full-dump marker line followed by a line of exactly 32 space-separated
/// base-16 tokens appends exactly one snapshot: the marker line as its header
/// and the 32 values, in order, as its registers. This holds whatever state the
/// parser was in before the marker line.
pub proof fn lemma_full_dump_snapshot(m: ParserModel, h: Seq<char>, t: Seq<char>)
    requires
        is_full_marker(h),
        split_on(t, seq![' ']).len() == 32,
        tokens_parse(split_on(t, seq![' '])),
    ensures
        line_step(line_step(m, h), t).snapshots == line_step(m, h).snapshots.push(
            RegsView {
                regs: Seq::new(
                    32,
                    |j: int| RegSlot::Value(token_value(split_on(t, seq![' '])[j])),
                ),
                header: h,
            },
        ),
{
    let toks = split_on(t, seq![' ']);
    let m2 = line_step(m, h);
    lemma_full_prefix(m2, toks, 32);
    assert(toks.subrange(0, 32) =~= toks);
    assert(full_regs(toks, 32) =~= Seq::new(
        32,
        |j: int| RegSlot::Value(token_value(split_on(t, seq![' '])[j])),
    ));
}

/// The slots of a watchdog dump after `k` of its tokens: the placeholder runs
/// that the index has passed, the values of the tokens so far (token 0 in slot
/// 1, tokens 1 to 14 in slots 4 to 17, token 15 in slot 28), the rest unwritten.
pub open spec fn watchdog_regs(toks: Seq<Seq<char>>, k: int) -> Seq<RegSlot> {
    Seq::new(
        32,
        |s: int|
            if (s == 0 && k >= 1) || ((s == 2 || s == 3) && k >= 2) || (18 <= s < 28 && k >= 16) {
                RegSlot::Absent
            } else if s == 1 && k >= 1 {
                RegSlot::Value(token_value(toks[0]))
            } else if 4 <= s < 18 && s - 3 < k {
                RegSlot::Value(token_value(toks[s - 3]))
            } else if s == 28 && k >= 16 {
                RegSlot::Value(token_value(toks[15]))
            } else {
                RegSlot::Unset
            },
    )
}

pub open spec fn watchdog_index(k: int) -> nat {
    if k == 0 {
        0
    } else if k == 1 {
        2
    } else if k <= 15 {
        (k + 3) as nat
    } else {
        29
    }
}

proof fn lemma_watchdog_prefix(m0: ParserModel, toks: Seq<Seq<char>>, k: int)
    requires
        m0.mode == DumpMode::Watchdog,
        m0.index == 0,
        m0.regs == empty_slots(),
        toks.len() == 16,
        tokens_parse(toks),
        0 <= k <= 16,
    ensures
        tokens_run(m0, toks.subrange(0, k)) == (ParserModel {
            mode: if k < 16 { DumpMode::Watchdog } else { DumpMode::Idle },
            index: watchdog_index(k),
            regs: watchdog_regs(toks, k),
            header: m0.header,
            snapshots: if k < 16 {
                m0.snapshots
            } else {
                m0.snapshots.push(RegsView { regs: watchdog_regs(toks, 16), header: m0.header })
            },
        }),
    decreases k,
{
    if k == 0 {
        assert(toks.subrange(0, 0).len() == 0);
        assert(watchdog_regs(toks, 0) =~= empty_slots());
    } else {
        lemma_watchdog_prefix(m0, toks, k - 1);
        assert(toks.subrange(0, k).drop_last() =~= toks.subrange(0, k - 1));
        let t = toks[k - 1];
        assert(toks.subrange(0, k).last() == t);
        assert(parse_hex(t, 0xffff_ffff) is Some);
        assert(t.len() > 0);
        let m = tokens_run(m0, toks.subrange(0, k - 1));
        let m1 = skip_absent(m);
        let v = RegSlot::Value(token_value(t));
        if k == 1 {
            assert(m1.regs.update(1, v) =~= watchdog_regs(toks, k));
        } else if k == 2 {
            assert(m1.regs.update(4, v) =~= watchdog_regs(toks, k));
        } else if k <= 15 {
            assert(m1.regs.update(k + 2, v) =~= watchdog_regs(toks, k));
        } else {
            assert(m1.regs.update(28, v) =~= watchdog_regs(toks, k));
        }
    }
}

/// A watchdog marker line (not also a full-dump marker) followed by a line of
/// exactly 16 space-separated base-16 tokens appends exactly one snapshot: the
/// marker line as its header; the placeholder in slots 0, 2, 3 and 18 to 27;
/// token 0 in slot 1, tokens 1 to 14 in slots 4 to 17, token 15 in slot 28;
/// and slots 29 to 31 unwritten. This holds whatever state the parser was in.
pub proof fn lemma_watchdog_dump_snapshot(m: ParserModel, h: Seq<char>, t: Seq<char>)
    requires
        is_watchdog_marker(h),
        !is_full_marker(h),
        split_on(t, seq![' ']).len() == 16,
        tokens_parse(split_on(t, seq![' '])),
    ensures
        line_step(line_step(m, h), t).snapshots == line_step(m, h).snapshots.push(
            RegsView { regs: watchdog_regs(split_on(t, seq![' ']), 16), header: h },
        ),
{
    let toks = split_on(t, seq![' ']);
    let m2 = line_step(m, h);
    lemma_watchdog_prefix(m2, toks, 16);
    assert(toks.subrange(0, 16) =~= toks);
}

/// A decode depends on nothing but its input lines: two runs on the same lines
/// give the same files, byte for byte.
pub proof fn lemma_decode_repeatable(k: DecoderKind, a: Seq<Seq<char>>, b: Seq<Seq<char>>)
    requires
        a == b,
    ensures
        decode_spec(k, a) == decode_spec(k, b),
{
}

/// The register parser depends on nothing but its input text.
pub proof fn lemma_dump_repeatable(a: Seq<char>, b: Seq<char>)
    requires
        a == b,
    ensures
        dump_snapshots(a) == dump_snapshots(b),
{
}

/// A trace whose first line lacks the protocol's signature gives no output
/// files and no error.
pub proof fn lemma_foreign_trace_no_output(k: DecoderKind, lines: Seq<Seq<char>>)
    requires
        !trace_matches(lines, protocol_of(k)),
    ensures
        decode_spec(k, lines) is None,
{
}

/// The slots of a watchdog snapshot: the placeholder at 0, 2, 3 and 18 to 27,
/// and 29 to 31 never written.
pub open spec fn watchdog_shape(regs: Seq<RegSlot>) -> bool {
    &&& regs.len() == 32
    &&& regs[0] == RegSlot::Absent
    &&& regs[2] == RegSlot::Absent
    &&& regs[3] == RegSlot::Absent
    &&& forall|j: int| 18 <= j < 28 ==> regs[j] == RegSlot::Absent
    &&& forall|j: int| 29 <= j < 32 ==> regs[j] == RegSlot::Unset
}

/// A snapshot begun by a full-dump marker, or one begun by a watchdog marker
/// that has the watchdog shape.
pub open spec fn snapshot_ok(v: RegsView) -> bool {
    ||| is_full_marker(v.header)
    ||| (is_watchdog_marker(v.header) && watchdog_shape(v.regs))
}

pub open spec fn snapshots_ok(s: Seq<RegsView>) -> bool {
    forall|i: int| 0 <= i < s.len() ==> #[trigger] snapshot_ok(s[i])
}

spec fn parser_inv(m: ParserModel) -> bool {
    &&& m.regs.len() == 32
    &&& snapshots_ok(m.snapshots)
    &&& m.mode == DumpMode::Full ==> is_full_marker(m.header) && m.index < 32
    &&& m.mode == DumpMode::Watchdog ==> {
        &&& is_watchdog_marker(m.header)
        &&& !is_full_marker(m.header)
        &&& m.index <= 18
        &&& m.index != 3
        &&& m.index >= 1 ==> m.regs[0] == RegSlot::Absent
        &&& m.index >= 4 ==> m.regs[2] == RegSlot::Absent && m.regs[3] == RegSlot::Absent
        &&& forall|j: int| 18 <= j < 32 ==> m.regs[j] == RegSlot::Unset
    }
}

proof fn lemma_push_ok(s: Seq<RegsView>, v: RegsView)
    requires
        snapshots_ok(s),
        snapshot_ok(v),
    ensures
        snapshots_ok(s.push(v)),
{
    assert forall|i: int| 0 <= i < s.push(v).len() implies #[trigger] snapshot_ok(s.push(v)[i]) by {
        if i < s.len() {
            assert(s.push(v)[i] == s[i]);
        }
    }
}

proof fn lemma_token_step_inv(m: ParserModel, t: Seq<char>)
    requires
        parser_inv(m),
    ensures
        parser_inv(token_step(m, t)),
{
    let limit: nat = if m.mode == DumpMode::Full { 32 } else { 19 };
    let m1 = if m.mode == DumpMode::Watchdog { skip_absent(m) } else { m };
    if m.mode == DumpMode::Idle {
        return;
    }
    assert(m1.regs.len() == 32);
    assert(m.mode == DumpMode::Watchdog && m.index == 18 ==> watchdog_shape(m1.regs));
    if m1.index >= limit {
        lemma_push_ok(m1.snapshots, RegsView { regs: m1.regs, header: m1.header });
    }
    if t.len() > 0 {
        match parse_hex(t, 0xffff_ffff) {
            Some(v) => {
                let regs2 = m1.regs.update(m1.index as int, RegSlot::Value(v as u32));
                if m1.index + 1 >= limit {
                    if m.mode == DumpMode::Watchdog {
                        assert(m1.index == 28);
                        assert(watchdog_shape(regs2));
                    }
                    lemma_push_ok(m1.snapshots, RegsView { regs: regs2, header: m1.header });
                } else if m.mode == DumpMode::Watchdog {
                    assert(m1.index <= 17);
                    assert(m1.index != 0 && m1.index != 2 && m1.index != 3);
                    assert(forall|j: int| 18 <= j < 32 ==> regs2[j] == m1.regs[j]);
                    assert(regs2[0] == m1.regs[0]);
                }
            },
            None => {
                if m1.index + 1 >= limit {
                    lemma_push_ok(m1.snapshots, RegsView { regs: m1.regs, header: m1.header });
                }
            },
        }
    }
}

proof fn lemma_tokens_run_inv(m: ParserModel, toks: Seq<Seq<char>>)
    requires
        parser_inv(m),
    ensures
        parser_inv(tokens_run(m, toks)),
    decreases toks.len(),
{
    if toks.len() > 0 {
        lemma_tokens_run_inv(m, toks.drop_last());
        lemma_token_step_inv(tokens_run(m, toks.drop_last()), toks.last());
    }
}

proof fn lemma_lines_run_inv(lines: Seq<Seq<char>>)
    ensures
        parser_inv(lines_run(parser_start(), lines)),
    decreases lines.len(),
{
    if lines.len() == 0 {
        assert(snapshots_ok(parser_start().snapshots));
    } else {
        lemma_lines_run_inv(lines.drop_last());
        let m = lines_run(parser_start(), lines.drop_last());
        let line = lines.last();
        lemma_tokens_run_inv(m, crate::text::split_on(line, seq![' ']));
        assert(empty_slots().len() == 32);
    }
}

/// Every snapshot of a crash dump was begun by a marker line. One begun by a
/// watchdog marker (and not by a full-dump marker) holds the placeholder in
/// slots 0, 2, 3 and 18 to 27, whatever the dump's tokens were there, and has
/// slots 29 to 31 as never written.
pub proof fn lemma_watchdog_snapshot_shape(text: Seq<char>, i: int)
    requires
        0 <= i < dump_snapshots(text).len(),
    ensures
        is_full_marker(dump_snapshots(text)[i].header) || is_watchdog_marker(
            dump_snapshots(text)[i].header,
        ),
        !is_full_marker(dump_snapshots(text)[i].header) ==> watchdog_shape(
            dump_snapshots(text)[i].regs,
        ),
{
    lemma_lines_run_inv(text_lines(text));
    assert(snapshot_ok(dump_snapshots(text)[i]));
}

} // verus!
