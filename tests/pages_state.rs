use worktool::hardfault::hardfault_tool;
use worktool::logic::SpiConvType;
use worktool::pages::{
    file_encoding_proc, ActiveInterface, AnalyzeToolPage, EncodingPlan, FileEncoding,
    HardfaultToolPage, HciToolPage, HciToolSave, LogicJob, LogicToolPage,
};
use worktool::trace::Protocal;

#[test]
fn interface_titles() {
    assert_eq!(ActiveInterface::Home.as_str(), "Home");
    assert_eq!(ActiveInterface::LogicTool.as_str(), "Logic Tool");
    assert_eq!(ActiveInterface::HardfaultTool.as_str(), "Hardfault Tool");
    assert_eq!(ActiveInterface::HciTool.as_str(), "Hci Tool");
    assert_eq!(ActiveInterface::AnalyzeTool.as_str(), "Analyze Tool");
}

#[test]
fn encoding_plans() {
    assert!(matches!(file_encoding_proc(&FileEncoding::UTF8), EncodingPlan::Keep));
    assert!(matches!(file_encoding_proc(&FileEncoding::Other), EncodingPlan::Detect));
    match file_encoding_proc(&FileEncoding::GBK) {
        EncodingPlan::Convert(l) => assert_eq!(l, "GBK"),
        _ => panic!("GBK converts"),
    }
    match file_encoding_proc(&FileEncoding::UTF16) {
        EncodingPlan::Convert(l) => assert_eq!(l, "UTF16"),
        _ => panic!("UTF16 converts"),
    }
}

#[test]
fn logic_page_starts_only_with_a_path() {
    let mut page = LogicToolPage::new(true);
    assert!(page.start().is_none());
    page.target.hover("/tmp/trace.csv".to_string());
    page.target.pointer_seen(false);
    assert!(page.target.path.is_empty());
    page.target.hover("/tmp/trace.csv".to_string());
    page.target.pointer_seen(true);
    assert_eq!(page.target.path, "/tmp/trace.csv");
    page.spi.conv_type = SpiConvType::TXT;
    match page.start() {
        Some(LogicJob::Spi(a, p)) => {
            assert_eq!(a.conv_type, SpiConvType::TXT);
            assert_eq!(p, "/tmp/trace.csv");
        },
        _ => panic!("an SPI job"),
    }
    assert!(page.doing);
    assert!(page.start().is_none());
    page.receive(false);
    page.protocal = Protocal::IIS;
    assert!(matches!(page.start(), Some(LogicJob::Iis(_, _))));
}

#[test]
fn hardfault_page_shows_selected_snapshot() {
    let mut page = HardfaultToolPage::new(true);
    assert!(page.shown().is_none());
    page.target.path = "dump.log".to_string();
    assert_eq!(page.start(), Some("dump.log".to_string()));
    assert!(page.start().is_none());
    let text = format!(
        "ERR: EPC:\n{}\nERR: EPC: second\n{}\n",
        vec!["1"; 32].join(" "),
        vec!["2"; 32].join(" ")
    );
    page.receive(hardfault_tool(&text));
    assert!(!page.doing);
    assert!(page.shown().unwrap().starts_with("ERR: EPC:\nzero: 0x00000001"));
    page.select(1);
    assert!(page.shown().unwrap().starts_with("ERR: EPC: second\nzero: 0x00000002"));
    page.select(5);
    assert_eq!(page.selected, 1);
}

#[test]
fn hci_page_needs_program_and_path() {
    let mut page = HciToolPage::new(HciToolSave::default());
    page.target.path = "hci.log".to_string();
    assert!(page.start().is_none());
    page.save.program = "log2cfa.exe".to_string();
    let job = page.start().unwrap();
    assert_eq!(job.program, "log2cfa.exe");
    assert_eq!(job.path, "hci.log");
    assert_eq!(job.encoding, FileEncoding::UTF8);
    page.receive(false);
    assert!(!page.doing);
    assert_eq!(page.file_encoding, FileEncoding::Other);
}

#[test]
fn analyze_page_output_path() {
    let mut page = AnalyzeToolPage::new("A,B".to_string());
    page.target.path = "in.csv".to_string();
    let job = page.start().unwrap();
    assert_eq!(job.output, "in.csv.out.txt");
    assert_eq!(job.input, "in.csv");
    assert_eq!(job.types, "A,B");
    page.receive();
    assert!(!page.doing);
}
