use worktool::analyze::{
    filter_messages, parse_type_list, process_logic_data, validate_message_type, LogDataError,
};

fn strings(v: &[&str]) -> Vec<String> {
    v.iter().map(|s| s.to_string()).collect()
}

fn headers() -> Vec<String> {
    strings(&["Time [s]", "Packet ID", "MOSI", "MISO"])
}

fn rec(t: &str, mosi: &str) -> Vec<String> {
    strings(&[t, "0", mosi, ""])
}

#[test]
fn messages_assemble_at_line_feeds() {
    let records = vec![
        rec("0.10", "A"),
        rec("0.11", "T"),
        rec("0.12", ":"),
        rec("0.13", "NUL"),
        rec("0.14", "o"),
        rec("0.15", "k"),
        rec("0.16", "LF "),
        rec("0.20", "n"),
        rec("0.21", "o"),
        rec("0.22", "LF "),
        rec("0.30", "B"),
        rec("0.31", ":"),
        rec("0.32", "x"),
        rec("0.33", "NUL"),
        rec("0.34", "LF "),
    ];
    let msgs = process_logic_data(&headers(), &records).unwrap();
    assert_eq!(msgs.len(), 2);
    assert_eq!(msgs[0].record, 0);
    assert_eq!(msgs[0].content, "AT: ok");
    // "no" holds no colon, so its start carries over to the next message
    assert_eq!(msgs[1].record, 7);
    assert_eq!(msgs[1].content, "B:x");
}

#[test]
fn missing_columns_and_fields() {
    let h = strings(&["Time [s]", "MISO"]);
    assert_eq!(process_logic_data(&h, &vec![]).unwrap_err(), LogDataError::MissingMosiColumn);
    let h2 = strings(&["MOSI"]);
    assert_eq!(process_logic_data(&h2, &vec![]).unwrap_err(), LogDataError::MissingTimeColumn);
    let records = vec![rec("0.1", "A"), strings(&["0.2", "1"])];
    assert_eq!(
        process_logic_data(&headers(), &records).unwrap_err(),
        LogDataError::MissingMosiField(1)
    );
    let h3 = strings(&["MOSI", "x", "Time [s]"]);
    let records3 = vec![strings(&["A", "y"])];
    assert_eq!(
        process_logic_data(&h3, &records3).unwrap_err(),
        LogDataError::MissingTimeField(0)
    );
}

#[test]
fn type_list_and_validation() {
    let types = parse_type_list(" AT , BT,");
    assert_eq!(types, strings(&["AT", "BT", ""]));
    assert!(validate_message_type("AT: ok", &types));
    assert!(validate_message_type("BT:", &types));
    assert!(!validate_message_type("CT: x", &types));
    assert!(validate_message_type("", &types));
    assert!(!validate_message_type(" AT: x", &types));
}

#[test]
fn filtering_keeps_order() {
    let records = vec![
        rec("1", "B"), rec("1", ":"), rec("1", "1"), rec("1", "LF "),
        rec("2", "A"), rec("2", ":"), rec("2", "2"), rec("2", "LF "),
        rec("3", "B"), rec("3", ":"), rec("3", "3"), rec("3", "LF "),
    ];
    let msgs = process_logic_data(&headers(), &records).unwrap();
    let kept = filter_messages(&msgs, &parse_type_list("B"));
    let texts: Vec<&str> = kept.iter().map(|m| m.content.as_str()).collect();
    assert_eq!(texts, vec!["B:1", "B:3"]);
    assert_eq!(kept[1].record, 8);
}
