use worktool::logic::{
    decode_trace, frame_voice_dump, hex_dump_text, logic_tool_proc_iis, logic_tool_proc_spi,
    logic_tool_proc_spi_bluetrum, logic_tool_proc_spi_raw, logic_tool_proc_spi_txt,
    logic_tool_proc_uart, pack_samples, DecoderKind, LogicIISArgs, LogicSpiArgs, LogicUARTArgs,
    OutputName, SpiConvType, TraceOutput, VoiceDumpHeader,
};
use worktool::trace::{extract_event, header_matches, Protocal, RowEvent, ValueWidth};

const SPI_HEAD: &str = "Time [s],Packet ID,MOSI,MISO";
const IIS_HEAD: &str = "Time [s],Channel,Value";
const UART_HEAD: &str = "Time [s],Value,Parity Error,Framing Error";
const GLITCH: &str =
    "0.5,3,The initial (idle) state of the CLK line does not match the settings,";

fn spi_lines(bytes: &[u8]) -> Vec<String> {
    let mut v = vec![SPI_HEAD.to_string()];
    for (i, b) in bytes.iter().enumerate() {
        v.push(format!("{}.0,{},0x{:02X},", i, i, b));
    }
    v
}

fn only_file(o: &TraceOutput) -> (OutputName, Vec<u8>) {
    assert_eq!(o.files.len(), 1);
    (o.files[0].name, o.files[0].data.clone())
}

#[test]
fn spi_raw_one_byte_per_valid_row() {
    let mut lines = spi_lines(&[0x12, 0xab]);
    lines.insert(2, GLITCH.to_string());
    lines.push("9.0,9,0xFF,".to_string());
    let o = logic_tool_proc_spi_raw(&lines).expect("signature matches");
    assert_eq!(o.malformed_line, None);
    assert_eq!(only_file(&o), (OutputName::Out, vec![0x12, 0xab, 0xff]));
}

#[test]
fn spi_raw_stops_at_malformed_row() {
    let mut lines = spi_lines(&[1, 2]);
    lines.push("3.0,3,no value here,".to_string());
    lines.push("4.0,4,0x05,".to_string());
    let o = logic_tool_proc_spi_raw(&lines).unwrap();
    assert_eq!(o.malformed_line, Some(3));
    assert_eq!(only_file(&o).1, vec![1, 2]);
}

#[test]
fn spi_raw_rejects_value_too_wide_for_a_byte() {
    let lines = vec![SPI_HEAD.to_string(), "0.1,0,0x1FF,".to_string()];
    let o = logic_tool_proc_spi_raw(&lines).unwrap();
    assert_eq!(o.malformed_line, Some(1));
    assert!(only_file(&o).1.is_empty());
}

#[test]
fn foreign_header_gives_no_output() {
    let lines = vec!["Time [s],Something,Else".to_string(), "0.1,0,0x12,".to_string()];
    assert!(logic_tool_proc_spi_raw(&lines).is_none());
    assert!(logic_tool_proc_spi_txt(&lines).is_none());
    assert!(logic_tool_proc_spi_bluetrum(&lines).is_none());
    assert!(logic_tool_proc_iis(&LogicIISArgs {}, &lines).is_none());
    assert!(logic_tool_proc_uart(&LogicUARTArgs {}, &lines).is_none());
    assert!(logic_tool_proc_spi_raw(&Vec::new()).is_none());
}

#[test]
fn header_only_trace_gives_empty_file() {
    let lines = vec![SPI_HEAD.to_string()];
    let o = logic_tool_proc_spi_raw(&lines).unwrap();
    assert_eq!(only_file(&o), (OutputName::Out, vec![]));
}

#[test]
fn hex_dump_breaks_every_sixteen_bytes() {
    let bytes: Vec<u8> = (0u8..17).collect();
    let text = String::from_utf8(hex_dump_text(&bytes)).unwrap();
    assert_eq!(
        text,
        "00 01 02 03 04 05 06 07 08 09 0a 0b 0c 0d 0e 0f \n10 "
    );
    let sixteen: Vec<u8> = vec![0xAB; 16];
    let t16 = String::from_utf8(hex_dump_text(&sixteen)).unwrap();
    assert!(!t16.contains('\n'));
    assert_eq!(t16.len(), 48);
    let many: Vec<u8> = vec![7; 33];
    let tm = String::from_utf8(hex_dump_text(&many)).unwrap();
    assert_eq!(tm.lines().count(), 3);
    assert!(!tm.starts_with('\n'));
    assert!(hex_dump_text(&Vec::new()).is_empty());
}

#[test]
fn spi_text_and_uart_text() {
    let lines = spi_lines(&[0x00, 0x7f, 0xc3]);
    let o = logic_tool_proc_spi_txt(&lines).unwrap();
    assert_eq!(only_file(&o), (OutputName::Txt, b"00 7f c3 ".to_vec()));
    let uart = vec![
        UART_HEAD.to_string(),
        "0.1,0x41,,".to_string(),
        "0.2,0x0A,,".to_string(),
    ];
    let u = logic_tool_proc_uart(&LogicUARTArgs {}, &uart).unwrap();
    assert_eq!(only_file(&u), (OutputName::Txt, b"41 0a ".to_vec()));
}

#[test]
fn iis_packs_little_endian() {
    let lines = vec![
        IIS_HEAD.to_string(),
        "0.1,0,0x1234".to_string(),
        "0.2,1,0xABCD".to_string(),
    ];
    let o = logic_tool_proc_iis(&LogicIISArgs::default(), &lines).unwrap();
    assert_eq!(only_file(&o), (OutputName::Out, vec![0x34, 0x12, 0xCD, 0xAB]));
    assert_eq!(pack_samples(&vec![0x0102, 0xff00]), vec![0x02, 0x01, 0x00, 0xff]);
}

#[test]
fn bluetrum_routes_frame_body_by_type() {
    let bytes = [1, 0, 0, 0, 0, 0, 2, 5, 0xAA, 0xBB];
    let s = frame_voice_dump(&bytes.to_vec());
    assert_eq!(s.out1, vec![0xAA, 0xBB]);
    assert!(s.out2.is_empty());
    assert!(s.out3.is_empty());
}

#[test]
fn bluetrum_returns_to_header_after_body() {
    let bytes = vec![
        1, 0, 0, 0, 0, 0, 2, 5, 0xAA, 0xBB, // type 0, two bytes
        1, 0, 0, 0, 2, 0, 1, 6, 0xCC, // type 2, one byte
        1, 0, 0, 0, 4, 0, 3, 7, 0x01, 0x02, 0x03, // type 4, three bytes
        1, 0, 0, 0, 9, 0, 1, 8, 0xEE, // unknown type: dropped
        1, 0, 0, 0, 0, 0, 5, 9, 0x11, // cut off by the end of the input
    ];
    let lines = spi_lines(&bytes);
    let o = logic_tool_proc_spi(&LogicSpiArgs { conv_type: SpiConvType::BluetrumVoiceDump }, &lines)
        .unwrap();
    assert_eq!(o.malformed_line, None);
    assert_eq!(o.files.len(), 3);
    assert_eq!(o.files[0].name, OutputName::Out1);
    assert_eq!(o.files[0].data, vec![0xAA, 0xBB]);
    assert_eq!(o.files[1].name, OutputName::Out2);
    assert_eq!(o.files[1].data, vec![0xCC]);
    assert_eq!(o.files[2].name, OutputName::Out3);
    assert_eq!(o.files[2].data, vec![0x01, 0x02, 0x03]);
}

#[test]
fn bluetrum_length_combines_two_bytes() {
    let h = VoiceDumpHeader::parse(&vec![1, 2, 3, 4, 2, 0x01, 0x02, 9]);
    assert_eq!(h.version, [1, 2, 3, 4]);
    assert_eq!(h.frame_type, 2);
    assert_eq!(h.len, 0x0102);
    assert_eq!(h.frame_num, 9);
    let mut bytes = vec![0, 0, 0, 0, 0, 0x01, 0x00, 0];
    bytes.extend(std::iter::repeat(0x5A).take(256));
    bytes.extend([0, 0, 0, 0, 2, 0, 1, 1, 0x77]);
    let s = frame_voice_dump(&bytes);
    assert_eq!(s.out1.len(), 256);
    assert_eq!(s.out2, vec![0x77]);
}

#[test]
fn bluetrum_zero_length_frame_writes_nothing() {
    let bytes = vec![0, 0, 0, 0, 4, 0, 0, 0, 1, 2, 3, 4, 5, 6, 7, 8, 9];
    let s = frame_voice_dump(&bytes);
    assert!(s.out1.is_empty());
    assert!(s.out2.is_empty());
    assert!(s.out3.is_empty());
}

#[test]
fn bluetrum_cut_off_frame_writes_nothing() {
    let bytes = vec![1, 0, 0, 0, 0, 0, 2, 5, 0xAA, 0xBB, 1, 0, 0, 0, 2, 0, 3, 6, 0x01, 0x02];
    let s = frame_voice_dump(&bytes);
    assert_eq!(s.out1, vec![0xAA, 0xBB]);
    assert!(s.out2.is_empty());
    let only_cut = vec![1, 0, 0, 0, 0, 0, 2, 5, 0xAA];
    assert!(frame_voice_dump(&only_cut).out1.is_empty());
}

#[test]
fn spi_dispatch_follows_conversion_type() {
    let lines = spi_lines(&[0x10, 0x20]);
    let raw = logic_tool_proc_spi(&LogicSpiArgs::default(), &lines).unwrap();
    assert_eq!(only_file(&raw), (OutputName::Out, vec![0x10, 0x20]));
    let txt = logic_tool_proc_spi(&LogicSpiArgs { conv_type: SpiConvType::TXT }, &lines).unwrap();
    assert_eq!(only_file(&txt), (OutputName::Txt, b"10 20 ".to_vec()));
    assert_eq!(OutputName::Out1.suffix(), ".out1");
    assert_eq!(OutputName::Txt.suffix(), ".txt");
}

#[test]
fn decoding_twice_gives_identical_output() {
    let mut lines = spi_lines(&[3, 1, 4, 1, 5, 9, 2, 6]);
    lines.insert(4, GLITCH.to_string());
    for k in [
        DecoderKind::RawSpi,
        DecoderKind::TextSpi,
        DecoderKind::BluetrumVoiceDump,
    ] {
        let a = decode_trace(k, &lines).unwrap();
        let b = decode_trace(k, &lines).unwrap();
        assert_eq!(a.files.len(), b.files.len());
        for (x, y) in a.files.iter().zip(b.files.iter()) {
            assert_eq!(x.name, y.name);
            assert_eq!(x.data, y.data);
        }
        assert_eq!(a.malformed_line, b.malformed_line);
    }
}

#[test]
fn row_extraction_details() {
    assert_eq!(extract_event("1,2,0x7F,", ValueWidth::U8), RowEvent::Value(0x7f));
    assert_eq!(extract_event("1,0xab", ValueWidth::U8), RowEvent::Value(0xab));
    assert_eq!(extract_event("1,0x+f", ValueWidth::U8), RowEvent::Value(0xf));
    assert_eq!(extract_event("1,0x0012", ValueWidth::U8), RowEvent::Value(0x12));
    assert_eq!(extract_event("1,0x,", ValueWidth::U8), RowEvent::Malformed);
    assert_eq!(extract_event("1,0x12,0x34", ValueWidth::U8), RowEvent::Malformed);
    assert_eq!(extract_event("1,2,3", ValueWidth::U8), RowEvent::Malformed);
    assert_eq!(extract_event("1,0xFFFF", ValueWidth::U16), RowEvent::Value(0xffff));
    assert_eq!(extract_event("1,0x10000", ValueWidth::U16), RowEvent::Malformed);
    assert_eq!(extract_event(GLITCH, ValueWidth::U8), RowEvent::Skipped);
    assert!(header_matches("Time [s],Packet ID,MOSI,MISO", Protocal::SPI));
    assert!(header_matches("\u{feff}Time [s],Channel,Value,extra", Protocal::IIS));
    assert!(!header_matches("Time [s],Channel,Value", Protocal::UART));
}
