//! The trace decoders: raw bytes, hex-dump text, little-endian IIS samples and
//! the Bluetrum voice-dump framing, over the values of a trace export.

use vstd::prelude::*;
use crate::hex::{hex_byte_lower, lower_digit_exec};
use crate::text::contains;
use crate::trace::{
    collect_values, file_values, header_matches, line_views, opt_int, signature, width_max,
    Protocal, ValueWidth,
};

verus! {

/// The byte of each value (each is below 256 where the width is `U8`).
pub open spec fn raw_bytes(values: Seq<u16>) -> Seq<u8> {
    values.map_values(|v: u16| v as u8)
}

/// The hex-dump text of `bytes`, in ASCII: each byte as two lowercase digits
/// and a space, with a line break before every sixteenth byte but the first.
pub open spec fn hex_dump(bytes: Seq<u8>) -> Seq<u8>
    decreases bytes.len(),
{
    if bytes.len() == 0 {
        Seq::empty()
    } else {
        let i = bytes.len() - 1;
        let brk: Seq<u8> = if i > 0 && i % 16 == 0 {
            seq![10u8]
        } else {
            Seq::empty()
        };
        hex_dump(bytes.drop_last()) + brk + hex_byte_lower(bytes.last()) + seq![32u8]
    }
}

/// Each 16-bit value as two bytes, low byte first.
pub open spec fn le_pack(values: Seq<u16>) -> Seq<u8>
    decreases values.len(),
{
    if values.len() == 0 {
        Seq::empty()
    } else {
        let v = values.last();
        le_pack(values.drop_last()) + seq![(v % 256) as u8, (v / 256) as u8]
    }
}

/// The state of the voice-dump framing after some bytes, with what each of its
/// three streams has received. `body` holds the bytes of the frame in progress.
pub struct FramerModel {
    pub in_body: bool,
    pub cache: Seq<u8>,
    pub frame_type: u8,
    pub len: nat,
    pub body: Seq<u8>,
    pub out1: Seq<u8>,
    pub out2: Seq<u8>,
    pub out3: Seq<u8>,
}

pub open spec fn framer_start() -> FramerModel {
    FramerModel {
        in_body: false,
        cache: Seq::empty(),
        frame_type: 0,
        len: 0,
        body: Seq::empty(),
        out1: Seq::empty(),
        out2: Seq::empty(),
        out3: Seq::empty(),
    }
}

/// The payload length that header bytes 5 and 6 give: `(b5 << 8) | b6`.
pub open spec fn frame_len(b5: u8, b6: u8) -> nat {
    b5 as nat * 256 + b6 as nat
}

/// One byte through the framing: in the header, it is collected until eight
/// are there; in the body, it is held until `len` body bytes are there. Then
/// the whole body goes to the stream of the frame type (0, 2 or 4; others are
/// dropped), and the next header begins.
pub open spec fn framer_step(m: FramerModel, b: u8) -> FramerModel {
    if !m.in_body {
        let cache = m.cache.push(b);
        if cache.len() == 8 {
            FramerModel {
                in_body: true,
                cache,
                frame_type: cache[4],
                len: frame_len(cache[5], cache[6]),
                body: Seq::empty(),
                ..m
            }
        } else {
            FramerModel { cache, ..m }
        }
    } else {
        let body = m.body.push(b);
        if body.len() == m.len {
            FramerModel {
                in_body: false,
                cache: Seq::empty(),
                body: Seq::empty(),
                out1: if m.frame_type == 0 { m.out1 + body } else { m.out1 },
                out2: if m.frame_type == 2 { m.out2 + body } else { m.out2 },
                out3: if m.frame_type == 4 { m.out3 + body } else { m.out3 },
                ..m
            }
        } else {
            FramerModel { body, ..m }
        }
    }
}

pub open spec fn framer_run(bytes: Seq<u8>) -> FramerModel
    decreases bytes.len(),
{
    if bytes.len() == 0 {
        framer_start()
    } else {
        framer_step(framer_run(bytes.drop_last()), bytes.last())
    }
}

/// The fixed part of a voice-dump frame: eight bytes, read once per frame.
#[derive(Clone, Copy, Debug)]
pub struct VoiceDumpHeader {
    pub version: [u8; 4],
    pub frame_type: u8,
    pub len: u16,
    pub frame_num: u8,
}

impl VoiceDumpHeader {
    /// Reads a header from its eight bytes: version 0..4, frame type 4, payload
    /// length `(b5 << 8) | b6`, frame number 7.
    pub fn parse(c: &Vec<u8>) -> (h: VoiceDumpHeader)
        requires
            c@.len() == 8,
        ensures
            h.version@ == c@.subrange(0, 4),
            h.frame_type == c@[4],
            h.len as nat == frame_len(c@[5], c@[6]),
            h.frame_num == c@[7],
    {
        let b5 = c[5];
        let b6 = c[6];
        let len: u16 = (b5 as u16) << 8u16 | (b6 as u16);
        assert((b5 as u16) << 8u16 | (b6 as u16) == (b5 as u16) * 256 + (b6 as u16))
            by (bit_vector)
            requires
                b5 < 256,
                b6 < 256,
        ;
        let h = VoiceDumpHeader {
            version: [c[0], c[1], c[2], c[3]],
            frame_type: c[4],
            len,
            frame_num: c[7],
        };
        assert(h.version@ =~= c@.subrange(0, 4));
        h
    }
}

/// The three streams of a voice dump: frame types 0, 2 and 4.
pub struct VoiceDumpStreams {
    pub out1: Vec<u8>,
    pub out2: Vec<u8>,
    pub out3: Vec<u8>,
}

/// Runs the voice-dump framing over `bytes`. Only complete frames reach the
/// streams: a frame cut off by the end of the input writes nothing, and so
/// does a frame of length 0, which never completes.
pub fn frame_voice_dump(bytes: &Vec<u8>) -> (r: VoiceDumpStreams)
    ensures
        r.out1@ == framer_run(bytes@).out1,
        r.out2@ == framer_run(bytes@).out2,
        r.out3@ == framer_run(bytes@).out3,
{
    let mut out1: Vec<u8> = Vec::new();
    let mut out2: Vec<u8> = Vec::new();
    let mut out3: Vec<u8> = Vec::new();
    let mut cache: Vec<u8> = Vec::new();
    let mut body: Vec<u8> = Vec::new();
    let mut in_body = false;
    let mut frame_type: u8 = 0;
    let mut len: u16 = 0;
    let mut i: usize = 0;
    while i < bytes.len()
        invariant
            i <= bytes@.len(),
            body@.len() <= i,
            ({
                let m = framer_run(bytes@.subrange(0, i as int));
                &&& m.in_body == in_body
                &&& m.cache == cache@
                &&& m.frame_type == frame_type
                &&& m.len == len as nat
                &&& m.body == body@
                &&& m.out1 == out1@
                &&& m.out2 == out2@
                &&& m.out3 == out3@
                &&& !in_body ==> cache@.len() < 8
            }),
        decreases bytes@.len() - i,
    {
        let b = bytes[i];
        assert(bytes@.subrange(0, i + 1).drop_last() =~= bytes@.subrange(0, i as int));
        if !in_body {
            cache.push(b);
            if cache.len() == 8 {
                let h = VoiceDumpHeader::parse(&cache);
                in_body = true;
                frame_type = h.frame_type;
                len = h.len;
                body = Vec::new();
            }
        } else {
            body.push(b);
            if body.len() == len as usize {
                if frame_type == 0 {
                    out1.append(&mut body);
                } else if frame_type == 2 {
                    out2.append(&mut body);
                } else if frame_type == 4 {
                    out3.append(&mut body);
                }
                in_body = false;
                cache = Vec::new();
                body = Vec::new();
            }
        }
        i = i + 1;
    }
    assert(bytes@.subrange(0, bytes@.len() as int) =~= bytes@);
    VoiceDumpStreams { out1, out2, out3 }
}

/// The hex-dump text of `bytes`.
pub fn hex_dump_text(bytes: &Vec<u8>) -> (r: Vec<u8>)
    ensures
        r@ == hex_dump(bytes@),
{
    let mut out: Vec<u8> = Vec::new();
    let mut i: usize = 0;
    while i < bytes.len()
        invariant
            i <= bytes@.len(),
            out@ == hex_dump(bytes@.subrange(0, i as int)),
        decreases bytes@.len() - i,
    {
        let b = bytes[i];
        assert(bytes@.subrange(0, i + 1).drop_last() =~= bytes@.subrange(0, i as int));
        let ghost before = out@;
        if i > 0 && i % 16 == 0 {
            out.push(10u8);
        }
        out.push(lower_digit_exec(b / 16));
        out.push(lower_digit_exec(b % 16));
        out.push(32u8);
        assert(out@ =~= hex_dump(bytes@.subrange(0, i + 1)));
        i = i + 1;
    }
    assert(bytes@.subrange(0, bytes@.len() as int) =~= bytes@);
    out
}

/// Each sample as two bytes, low byte first.
pub fn pack_samples(values: &Vec<u16>) -> (r: Vec<u8>)
    ensures
        r@ == le_pack(values@),
{
    let mut out: Vec<u8> = Vec::new();
    let mut i: usize = 0;
    while i < values.len()
        invariant
            i <= values@.len(),
            out@ == le_pack(values@.subrange(0, i as int)),
        decreases values@.len() - i,
    {
        let v = values[i];
        assert(values@.subrange(0, i + 1).drop_last() =~= values@.subrange(0, i as int));
        out.push((v % 256) as u8);
        out.push((v / 256) as u8);
        assert(out@ =~= le_pack(values@.subrange(0, i + 1)));
        i = i + 1;
    }
    assert(values@.subrange(0, values@.len() as int) =~= values@);
    out
}

/// The low byte of each value.
pub fn to_bytes(values: &Vec<u16>) -> (r: Vec<u8>)
    ensures
        r@ == raw_bytes(values@),
{
    let mut out: Vec<u8> = Vec::new();
    let mut i: usize = 0;
    while i < values.len()
        invariant
            i <= values@.len(),
            out@ == raw_bytes(values@.subrange(0, i as int)),
        decreases values@.len() - i,
    {
        out.push(values[i] as u8);
        assert(out@ =~= raw_bytes(values@.subrange(0, i + 1)));
        i = i + 1;
    }
    assert(values@.subrange(0, values@.len() as int) =~= values@);
    out
}

/// The files that a decode writes, each named by the suffix added to the
/// input's path.
#[derive(Clone, Copy, Debug, PartialEq, Eq, Structural)]
pub enum OutputName {
    Out,
    Out1,
    Out2,
    Out3,
    Txt,
}

pub open spec fn suffix_of(n: OutputName) -> Seq<char> {
    match n {
        OutputName::Out => ".out"@,
        OutputName::Out1 => ".out1"@,
        OutputName::Out2 => ".out2"@,
        OutputName::Out3 => ".out3"@,
        OutputName::Txt => ".txt"@,
    }
}

impl OutputName {
    /// The suffix that names the file beside the input.
    pub fn suffix(&self) -> (r: &'static str)
        ensures
            r@ == suffix_of(*self),
    {
        match self {
            OutputName::Out => ".out",
            OutputName::Out1 => ".out1",
            OutputName::Out2 => ".out2",
            OutputName::Out3 => ".out3",
            OutputName::Txt => ".txt",
        }
    }
}

/// One output file and its whole content.
pub struct OutputFile {
    pub name: OutputName,
    pub data: Vec<u8>,
}

/// What a decode of a matching trace produces: its files, and the line index
/// of the malformed row that cut it short, where one did (the files then hold
/// what came before that row).
pub struct TraceOutput {
    pub files: Vec<OutputFile>,
    pub malformed_line: Option<usize>,
}

pub struct TraceOutputView {
    pub files: Seq<(OutputName, Seq<u8>)>,
    pub malformed_line: Option<int>,
}

impl View for TraceOutput {
    type V = TraceOutputView;

    open spec fn view(&self) -> TraceOutputView {
        TraceOutputView {
            files: self.files@.map_values(|f: OutputFile| (f.name, f.data@)),
            malformed_line: opt_int(self.malformed_line),
        }
    }
}

pub open spec fn opt_output(r: Option<TraceOutput>) -> Option<TraceOutputView> {
    match r {
        Some(o) => Some(o@),
        None => None,
    }
}

/// The five decoders.
#[derive(Clone, Copy, Debug, PartialEq, Eq, Structural)]
pub enum DecoderKind {
    RawSpi,
    TextSpi,
    BluetrumVoiceDump,
    Iis,
    UartText,
}

pub open spec fn protocol_of(k: DecoderKind) -> Protocal {
    match k {
        DecoderKind::RawSpi | DecoderKind::TextSpi | DecoderKind::BluetrumVoiceDump => Protocal::SPI,
        DecoderKind::Iis => Protocal::IIS,
        DecoderKind::UartText => Protocal::UART,
    }
}

pub open spec fn width_of(k: DecoderKind) -> ValueWidth {
    match k {
        DecoderKind::Iis => ValueWidth::U16,
        _ => ValueWidth::U8,
    }
}

/// The files of decoder `k` over the values of a trace.
pub open spec fn output_files(k: DecoderKind, values: Seq<u16>) -> Seq<(OutputName, Seq<u8>)> {
    match k {
        DecoderKind::RawSpi => seq![(OutputName::Out, raw_bytes(values))],
        DecoderKind::TextSpi | DecoderKind::UartText => seq![
            (OutputName::Txt, hex_dump(raw_bytes(values))),
        ],
        DecoderKind::Iis => seq![(OutputName::Out, le_pack(values))],
        DecoderKind::BluetrumVoiceDump => {
            let m = framer_run(raw_bytes(values));
            seq![(OutputName::Out1, m.out1), (OutputName::Out2, m.out2), (OutputName::Out3, m.out3)]
        },
    }
}

/// Whether the first line of `lines` carries the signature of `p`.
pub open spec fn trace_matches(lines: Seq<Seq<char>>, p: Protocal) -> bool {
    lines.len() >= 1 && contains(lines[0], signature(p))
}

/// What decoder `k` makes of a trace file's lines: nothing where the first
/// line lacks the protocol's signature; else its files over the values of the
/// data rows, and the malformed line, if any.
pub open spec fn decode_spec(k: DecoderKind, lines: Seq<Seq<char>>) -> Option<TraceOutputView> {
    if !trace_matches(lines, protocol_of(k)) {
        None
    } else {
        let t = file_values(lines, width_of(k));
        Some(TraceOutputView { files: output_files(k, t.0), malformed_line: t.1 })
    }
}

/// The values of the data rows, where the first line carries the signature.
fn logic_tool_preproc(lines: &Vec<String>, p: Protocal, w: ValueWidth) -> (r: Option<
    (Vec<u16>, Option<usize>),
>)
    ensures
        r is None <==> !trace_matches(line_views(lines@), p),
        r matches Some(t) ==> (t.0@, opt_int(t.1)) == file_values(line_views(lines@), w),
        r matches Some(t) ==> forall|k: int|
            0 <= k < t.0@.len() ==> t.0@[k] as nat <= width_max(w),
{
    if lines.len() == 0 {
        return None;
    }
    assert(line_views(lines@)[0] == lines@[0]@);
    if !header_matches(lines[0].as_str(), p) {
        return None;
    }
    Some(collect_values(lines, w))
}

fn single_file(name: OutputName, data: Vec<u8>, malformed_line: Option<usize>) -> (r: TraceOutput)
    ensures
        r@.files == seq![(name, data@)],
        r@.malformed_line == opt_int(malformed_line),
{
    let mut files: Vec<OutputFile> = Vec::new();
    files.push(OutputFile { name, data });
    let r = TraceOutput { files, malformed_line };
    assert(r@.files =~= seq![(name, r.files@[0].data@)]);
    r
}

/// IIS export to little-endian 16-bit samples (`.out`).
pub fn logic_tool_proc_iis(_args: &LogicIISArgs, lines: &Vec<String>) -> (r: Option<TraceOutput>)
    ensures
        opt_output(r) == decode_spec(DecoderKind::Iis, line_views(lines@)),
{
    match logic_tool_preproc(lines, Protocal::IIS, ValueWidth::U16) {
        None => None,
        Some((values, bad)) => Some(single_file(OutputName::Out, pack_samples(&values), bad)),
    }
}

/// SPI export to its raw bytes (`.out`).
pub fn logic_tool_proc_spi_raw(lines: &Vec<String>) -> (r: Option<TraceOutput>)
    ensures
        opt_output(r) == decode_spec(DecoderKind::RawSpi, line_views(lines@)),
{
    match logic_tool_preproc(lines, Protocal::SPI, ValueWidth::U8) {
        None => None,
        Some((values, bad)) => Some(single_file(OutputName::Out, to_bytes(&values), bad)),
    }
}

/// SPI export in the Bluetrum voice-dump framing to its three streams
/// (`.out1`, `.out2`, `.out3`).
pub fn logic_tool_proc_spi_bluetrum(lines: &Vec<String>) -> (r: Option<TraceOutput>)
    ensures
        opt_output(r) == decode_spec(DecoderKind::BluetrumVoiceDump, line_views(lines@)),
{
    match logic_tool_preproc(lines, Protocal::SPI, ValueWidth::U8) {
        None => None,
        Some((values, bad)) => {
            let bytes = to_bytes(&values);
            let s = frame_voice_dump(&bytes);
            let mut files: Vec<OutputFile> = Vec::new();
            files.push(OutputFile { name: OutputName::Out1, data: s.out1 });
            files.push(OutputFile { name: OutputName::Out2, data: s.out2 });
            files.push(OutputFile { name: OutputName::Out3, data: s.out3 });
            let r = TraceOutput { files, malformed_line: bad };
            assert(r@.files =~= output_files(DecoderKind::BluetrumVoiceDump, values@));
            Some(r)
        },
    }
}

/// SPI export to hex-dump text (`.txt`).
pub fn logic_tool_proc_spi_txt(lines: &Vec<String>) -> (r: Option<TraceOutput>)
    ensures
        opt_output(r) == decode_spec(DecoderKind::TextSpi, line_views(lines@)),
{
    match logic_tool_preproc(lines, Protocal::SPI, ValueWidth::U8) {
        None => None,
        Some((values, bad)) => Some(
            single_file(OutputName::Txt, hex_dump_text(&to_bytes(&values)), bad),
        ),
    }
}

/// UART export to hex-dump text (`.txt`).
pub fn logic_tool_proc_uart_txt(lines: &Vec<String>) -> (r: Option<TraceOutput>)
    ensures
        opt_output(r) == decode_spec(DecoderKind::UartText, line_views(lines@)),
{
    match logic_tool_preproc(lines, Protocal::UART, ValueWidth::U8) {
        None => None,
        Some((values, bad)) => Some(
            single_file(OutputName::Txt, hex_dump_text(&to_bytes(&values)), bad),
        ),
    }
}

/// How an SPI export is decoded.
#[derive(Clone, Copy, Debug, PartialEq, Eq, Structural)]
pub enum SpiConvType {
    RAW,
    BluetrumVoiceDump,
    TXT,
}

#[derive(Clone, Copy, Debug, PartialEq, Eq, Structural)]
pub struct LogicSpiArgs {
    pub conv_type: SpiConvType,
}

impl Default for LogicSpiArgs {
    fn default() -> (r: Self)
        ensures
            r.conv_type == SpiConvType::RAW,
    {
        LogicSpiArgs { conv_type: SpiConvType::RAW }
    }
}

#[derive(Clone, Copy, Debug, PartialEq, Eq, Structural)]
pub struct LogicIISArgs {}

impl Default for LogicIISArgs {
    fn default() -> (r: Self) {
        LogicIISArgs {}
    }
}

#[derive(Clone, Copy, Debug, PartialEq, Eq, Structural)]
pub struct LogicUARTArgs {}

impl Default for LogicUARTArgs {
    fn default() -> (r: Self) {
        LogicUARTArgs {}
    }
}

pub open spec fn spi_kind(t: SpiConvType) -> DecoderKind {
    match t {
        SpiConvType::RAW => DecoderKind::RawSpi,
        SpiConvType::BluetrumVoiceDump => DecoderKind::BluetrumVoiceDump,
        SpiConvType::TXT => DecoderKind::TextSpi,
    }
}

/// Decodes an SPI export the way `args` selects.
pub fn logic_tool_proc_spi(args: &LogicSpiArgs, lines: &Vec<String>) -> (r: Option<TraceOutput>)
    ensures
        opt_output(r) == decode_spec(spi_kind(args.conv_type), line_views(lines@)),
{
    match args.conv_type {
        SpiConvType::RAW => logic_tool_proc_spi_raw(lines),
        SpiConvType::BluetrumVoiceDump => logic_tool_proc_spi_bluetrum(lines),
        SpiConvType::TXT => logic_tool_proc_spi_txt(lines),
    }
}

/// Decodes a UART export; its one output is hex-dump text.
pub fn logic_tool_proc_uart(_args: &LogicUARTArgs, lines: &Vec<String>) -> (r: Option<TraceOutput>)
    ensures
        opt_output(r) == decode_spec(DecoderKind::UartText, line_views(lines@)),
{
    logic_tool_proc_uart_txt(lines)
}

/// Runs decoder `k` over a trace file's lines.
pub fn decode_trace(k: DecoderKind, lines: &Vec<String>) -> (r: Option<TraceOutput>)
    ensures
        opt_output(r) == decode_spec(k, line_views(lines@)),
{
    match k {
        DecoderKind::RawSpi => logic_tool_proc_spi_raw(lines),
        DecoderKind::TextSpi => logic_tool_proc_spi_txt(lines),
        DecoderKind::BluetrumVoiceDump => logic_tool_proc_spi_bluetrum(lines),
        DecoderKind::Iis => logic_tool_proc_iis(&LogicIISArgs {}, lines),
        DecoderKind::UartText => logic_tool_proc_uart_txt(lines),
    }
}

} // verus!
