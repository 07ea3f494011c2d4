use worktool::hardfault::{hardfault_tool, DumpParser, RegSlot, REG_COUNT};

fn full_values() -> Vec<u32> {
    (0..32u32).map(|i| i * 0x1111 + 0xA0000000).collect()
}

fn tokens(vals: &[u32]) -> String {
    vals.iter().map(|v| format!("{:x}", v)).collect::<Vec<_>>().join(" ")
}

#[test]
fn full_dump_fills_all_slots() {
    let vals = full_values();
    let text = format!("boot\nxxx ERR: yyy EPC: zzz\n{}\nafter\n", tokens(&vals));
    let snaps = hardfault_tool(&text);
    assert_eq!(snaps.len(), 1);
    let s = &snaps[0];
    assert_eq!(s.header(), "xxx ERR: yyy EPC: zzz");
    for i in 0..REG_COUNT {
        assert_eq!(s.reg(i), RegSlot::Value(vals[i]));
        assert_eq!(s.reg_text(i), format!("0x{:08X}", vals[i]));
    }
    assert_eq!(s.reg_text(1), "0xA0001111");
}

#[test]
fn full_dump_over_several_lines_with_crlf() {
    let vals = full_values();
    let text = format!(
        "ERR: 1 EPC: 2\r\n{}\r\n{}\r\n",
        tokens(&vals[..16]),
        tokens(&vals[16..])
    );
    let snaps = hardfault_tool(&text);
    assert_eq!(snaps.len(), 1);
    assert_eq!(snaps[0].reg(31), RegSlot::Value(vals[31]));
}

#[test]
fn incomplete_full_dump_is_dropped() {
    let vals = full_values();
    let text = format!("ERR: EPC:\n{}\n", tokens(&vals[..20]));
    assert!(hardfault_tool(&text).is_empty());
    let bad = format!("ERR: EPC:\n{} zz {}\n", tokens(&vals[..5]), tokens(&vals[6..]));
    assert!(hardfault_tool(&bad).is_empty());
}

#[test]
fn failing_last_token_still_completes() {
    let vals = full_values();
    let text = format!("ERR: EPC:\n{} nothex\n", tokens(&vals[..31]));
    let snaps = hardfault_tool(&text);
    assert_eq!(snaps.len(), 1);
    assert_eq!(snaps[0].reg(31), RegSlot::Unset);
    assert_eq!(snaps[0].reg_text(31), "");
}

#[test]
fn watchdog_dump_fills_placeholders() {
    let vals: Vec<u32> = (1..=16u32).map(|i| i * 0x10).collect();
    let text = format!("WDT_RST: 0x1\n{}\n", tokens(&vals));
    let snaps = hardfault_tool(&text);
    assert_eq!(snaps.len(), 1);
    let s = &snaps[0];
    assert_eq!(s.header(), "WDT_RST: 0x1");
    for i in [0usize, 2, 3, 18, 19, 20, 21, 22, 23, 24, 25, 26, 27] {
        assert_eq!(s.reg(i), RegSlot::Absent);
        assert_eq!(s.reg_text(i), "0xXXXXXXXX");
    }
    assert_eq!(s.reg(1), RegSlot::Value(0x10));
    for (k, i) in (4..18).enumerate() {
        assert_eq!(s.reg(i), RegSlot::Value(vals[k + 1]));
    }
    assert_eq!(s.reg(28), RegSlot::Value(vals[15]));
    for i in 29..32 {
        assert_eq!(s.reg(i), RegSlot::Unset);
    }
}

#[test]
fn two_snapshots_in_order() {
    let vals = full_values();
    let wdt: Vec<u32> = (1..=16u32).collect();
    let text = format!(
        "WDT_RST:\n{}\nnoise\nERR: a EPC: b\n{}\n",
        tokens(&wdt),
        tokens(&vals)
    );
    let snaps = hardfault_tool(&text);
    assert_eq!(snaps.len(), 2);
    assert_eq!(snaps[0].header(), "WDT_RST:");
    assert_eq!(snaps[1].header(), "ERR: a EPC: b");
}

#[test]
fn no_markers_no_snapshots() {
    assert!(hardfault_tool("").is_empty());
    assert!(hardfault_tool("hello\nworld 1 2 3\n").is_empty());
}

#[test]
fn streaming_parser_matches_whole_text() {
    let vals = full_values();
    let mut p = DumpParser::new();
    p.feed_line("ERR: EPC:");
    p.feed_line(&tokens(&vals));
    let snaps = p.into_snapshots();
    assert_eq!(snaps.len(), 1);
    assert_eq!(snaps[0].reg(0), RegSlot::Value(vals[0]));
}

#[test]
fn display_lists_registers_four_to_a_line() {
    let vals = full_values();
    let text = format!("ERR: EPC:\n{}\n", tokens(&vals));
    let snaps = hardfault_tool(&text);
    let shown = snaps[0].display();
    let lines: Vec<&str> = shown.split('\n').collect();
    assert_eq!(lines.len(), 9);
    assert_eq!(lines[0], "ERR: EPC:");
    assert_eq!(
        lines[1],
        "zero: 0xA0000000, ra: 0xA0001111, sp: 0xA0002222, gp: 0xA0003333, "
    );
    assert!(lines[8].starts_with("t3: "));
    assert!(lines[8].ends_with(&format!("t6: 0x{:08X}, ", vals[31])));
}

#[test]
fn register_values_at_the_edges_of_u32() {
    let mut vals = vec![0u32; 32];
    vals[0] = u32::MAX;
    let text = format!("ERR: EPC:\n{}\n", tokens(&vals));
    let snaps = hardfault_tool(&text);
    assert_eq!(snaps[0].reg_text(0), "0xFFFFFFFF");
    assert_eq!(snaps[0].reg_text(1), "0x00000000");
    let over = format!("ERR: EPC:\n100000000 {}\n", tokens(&vals[1..]));
    assert!(hardfault_tool(&over).is_empty());
}

#[test]
fn parsing_twice_gives_identical_snapshots() {
    let vals = full_values();
    let text = format!("ERR: EPC:\n{}\nWDT_RST:\n{}\n", tokens(&vals), tokens(&vals[..16]));
    let a = hardfault_tool(&text);
    let b = hardfault_tool(&text);
    assert_eq!(a.len(), 2);
    assert_eq!(a.len(), b.len());
    for (x, y) in a.iter().zip(b.iter()) {
        assert_eq!(x.display(), y.display());
    }
}

#[test]
fn marker_line_with_both_kinds_starts_a_full_dump() {
    let vals = full_values();
    let text = format!("ERR: EPC: WDT_RST:\n{}\n", tokens(&vals[..19]));
    assert!(hardfault_tool(&text).is_empty());
    let full = format!("ERR: EPC: WDT_RST:\n{}\n", tokens(&vals));
    assert_eq!(hardfault_tool(&full).len(), 1);
}
