//! The state of each tool page, kept apart from any windowing toolkit: what a
//! page holds, when its "process" action is enabled, what job that action hands
//! to a worker, and what the worker's reply changes.

use vstd::prelude::*;
use crate::hardfault::{display_text, snapshot_views, CPURegs, RegsView};
use crate::logic::{LogicIISArgs, LogicSpiArgs, LogicUARTArgs, SpiConvType};
use crate::text::push_str;
use crate::trace::Protocal;

verus! {

/// The pages of the tool.
#[derive(Clone, Copy, Debug, PartialEq, Eq, Structural)]
pub enum ActiveInterface {
    Home,
    LogicTool,
    HardfaultTool,
    HciTool,
    AnalyzeTool,
}

pub open spec fn interface_title(a: ActiveInterface) -> Seq<char> {
    match a {
        ActiveInterface::Home => "Home"@,
        ActiveInterface::HardfaultTool => "Hardfault Tool"@,
        ActiveInterface::HciTool => "Hci Tool"@,
        ActiveInterface::LogicTool => "Logic Tool"@,
        ActiveInterface::AnalyzeTool => "Analyze Tool"@,
    }
}

impl ActiveInterface {
    /// The title of the page.
    pub fn as_str(&self) -> (r: &'static str)
        ensures
            r@ == interface_title(*self),
    {
        match self {
            ActiveInterface::Home => "Home",
            ActiveInterface::HardfaultTool => "Hardfault Tool",
            ActiveInterface::HciTool => "Hci Tool",
            ActiveInterface::LogicTool => "Logic Tool",
            ActiveInterface::AnalyzeTool => "Analyze Tool",
        }
    }
}

/// A page with nothing to process.
#[derive(Clone, Copy, Debug)]
pub struct HomePage {}

/// The encodings that a user can pick for an input file.
#[derive(Clone, Copy, Debug, PartialEq, Eq, Structural)]
pub enum FileEncoding {
    UTF8,
    UTF16,
    UTF32,
    GBK,
    Other,
}

/// What to do to an input file before it is read as UTF-8.
#[derive(Debug)]
pub enum EncodingPlan {
    /// It is UTF-8 already.
    Keep,
    /// Convert it from the encoding of this label.
    Convert(String),
    /// Detect its encoding, then convert it from that one.
    Detect,
}

pub open spec fn plan_label(e: FileEncoding) -> Seq<char> {
    match e {
        FileEncoding::UTF16 => "UTF16"@,
        FileEncoding::UTF32 => "UTF32"@,
        _ => "GBK"@,
    }
}

/// The conversion that the picked encoding asks for: none for UTF-8, its label
/// for UTF-16, UTF-32 and GBK, detection for any other.
pub fn file_encoding_proc(encode: &FileEncoding) -> (r: EncodingPlan)
    ensures
        *encode == FileEncoding::UTF8 <==> r is Keep,
        *encode == FileEncoding::Other <==> r is Detect,
        r matches EncodingPlan::Convert(l) ==> l@ == plan_label(*encode),
{
    match encode {
        FileEncoding::UTF8 => EncodingPlan::Keep,
        FileEncoding::UTF16 => EncodingPlan::Convert(String::from_str("UTF16")),
        FileEncoding::UTF32 => EncodingPlan::Convert(String::from_str("UTF32")),
        FileEncoding::GBK => EncodingPlan::Convert(String::from_str("GBK")),
        FileEncoding::Other => EncodingPlan::Detect,
    }
}

/// The input path of a page, and a path that is being dragged over the window.
#[derive(Debug)]
pub struct DropTarget {
    pub path: String,
    pub history: Option<String>,
}

pub open spec fn opt_view(o: Option<String>) -> Option<Seq<char>> {
    match o {
        Some(s) => Some(s@),
        None => None,
    }
}

impl DropTarget {
    pub fn new() -> (r: DropTarget)
        ensures
            r.path@ == Seq::<char>::empty(),
            r.history is None,
    {
        DropTarget { path: String::new(), history: None }
    }

    /// Files are being dragged over the window.
    pub fn hover(&mut self, path: String)
        ensures
            final(self).path == old(self).path,
            opt_view(final(self).history) == Some(path@),
    {
        self.history = Some(path);
    }

    /// The pointer was seen after a drag: where it is inside this page, the
    /// dragged path becomes the input path. The drag is over either way.
    pub fn pointer_seen(&mut self, inside: bool)
        ensures
            final(self).history is None,
            final(self).path@ == (if inside && old(self).history is Some {
                old(self).history->0@
            } else {
                old(self).path@
            }),
    {
        let h = self.history.take();
        match h {
            Some(p) => {
                if inside {
                    self.path = p;
                }
            },
            None => {},
        }
    }

    pub fn has_path(&self) -> (r: bool)
        ensures
            r == (self.path@.len() > 0),
    {
        !self.path.as_str().is_empty()
    }
}

/// A decode that the logic page hands to a worker.
#[derive(Debug)]
pub enum LogicJob {
    Spi(LogicSpiArgs, String),
    Iis(LogicIISArgs, String),
    Uart(LogicUARTArgs, String),
}

/// The logic-analyzer page.
#[derive(Debug)]
pub struct LogicToolPage {
    pub visable: bool,
    pub protocal: Protocal,
    pub target: DropTarget,
    pub doing: bool,
    pub spi: LogicSpiArgs,
    pub iis: LogicIISArgs,
    pub uart: LogicUARTArgs,
}

impl LogicToolPage {
    pub fn new(visable: bool) -> (r: LogicToolPage)
        ensures
            r.visable == visable,
            r.protocal == Protocal::SPI,
            r.target.path@ == Seq::<char>::empty(),
            r.target.history is None,
            !r.doing,
            r.spi.conv_type == SpiConvType::RAW,
    {
        LogicToolPage {
            visable,
            protocal: Protocal::SPI,
            target: DropTarget::new(),
            doing: false,
            spi: LogicSpiArgs { conv_type: SpiConvType::RAW },
            iis: LogicIISArgs {},
            uart: LogicUARTArgs {},
        }
    }

    /// The process action is enabled: nothing runs and a path is given.
    pub fn can_start(&self) -> (r: bool)
        ensures
            r == (!self.doing && self.target.path@.len() > 0),
    {
        !self.doing && self.target.has_path()
    }

    /// The process action: where it is enabled, the page is busy from now on
    /// and the job decodes the path with the selected protocol's arguments.
    pub fn start(&mut self) -> (r: Option<LogicJob>)
        ensures
            r is Some <==> (!old(self).doing && old(self).target.path@.len() > 0),
            r is Some ==> final(self).doing,
            r is None ==> final(self).doing == old(self).doing,
            final(self).protocal == old(self).protocal,
            final(self).target.path@ == old(self).target.path@,
            final(self).spi == old(self).spi,
            r matches Some(LogicJob::Spi(a, p)) ==> old(self).protocal == Protocal::SPI
                && a == old(self).spi && p@ == old(self).target.path@,
            r matches Some(LogicJob::Iis(_, p)) ==> old(self).protocal == Protocal::IIS
                && p@ == old(self).target.path@,
            r matches Some(LogicJob::Uart(_, p)) ==> old(self).protocal == Protocal::UART
                && p@ == old(self).target.path@,
    {
        if !self.can_start() {
            return None;
        }
        self.doing = true;
        let path = self.target.path.clone();
        match self.protocal {
            Protocal::SPI => Some(LogicJob::Spi(self.spi, path)),
            Protocal::IIS => Some(LogicJob::Iis(self.iis, path)),
            Protocal::UART => Some(LogicJob::Uart(self.uart, path)),
        }
    }

    /// The worker's reply: the busy flag it sends.
    pub fn receive(&mut self, doing: bool)
        ensures
            final(self).doing == doing,
            final(self).protocal == old(self).protocal,
            final(self).spi == old(self).spi,
    {
        self.doing = doing;
    }
}

/// The crash-dump page.
#[derive(Debug)]
pub struct HardfaultToolPage {
    pub visable: bool,
    pub target: DropTarget,
    pub doing: bool,
    pub regs: Vec<CPURegs>,
    pub selected: usize,
}

impl HardfaultToolPage {
    /// A snapshot is shown whenever there is one: the selection is in range.
    pub open spec fn wf(&self) -> bool {
        self.regs@.len() == 0 || self.selected < self.regs@.len()
    }

    pub open spec fn snapshots(&self) -> Seq<RegsView> {
        snapshot_views(self.regs@)
    }

    pub open spec fn selection(&self) -> nat {
        self.selected as nat
    }

    pub open spec fn busy(&self) -> bool {
        self.doing
    }

    pub fn new(visable: bool) -> (r: HardfaultToolPage)
        ensures
            r.wf(),
            r.visable == visable,
            r.target.path@ == Seq::<char>::empty(),
            !r.busy(),
            r.snapshots().len() == 0,
    {
        let r = HardfaultToolPage {
            visable,
            target: DropTarget::new(),
            doing: false,
            regs: Vec::new(),
            selected: 0,
        };
        assert(r.snapshots() =~= Seq::<RegsView>::empty());
        r
    }

    pub fn doing(&self) -> (r: bool)
        ensures
            r == self.busy(),
    {
        self.doing
    }

    /// The process action: where nothing runs and a path is given, the page is
    /// busy from now on and the job parses the file at that path.
    pub fn start(&mut self) -> (r: Option<String>)
        requires
            old(self).wf(),
        ensures
            final(self).wf(),
            r is Some <==> (!old(self).busy() && old(self).target.path@.len() > 0),
            r matches Some(p) ==> p@ == old(self).target.path@ && final(self).busy(),
            r is None ==> final(self).busy() == old(self).busy(),
            final(self).snapshots() == old(self).snapshots(),
            final(self).selection() == old(self).selection(),
    {
        if self.doing || !self.target.has_path() {
            return None;
        }
        self.doing = true;
        Some(self.target.path.clone())
    }

    /// The worker's reply: the snapshots of the file, the first one selected.
    pub fn receive(&mut self, regs: Vec<CPURegs>)
        ensures
            final(self).wf(),
            !final(self).busy(),
            final(self).snapshots() == snapshot_views(regs@),
            final(self).selection() == 0,
    {
        self.doing = false;
        self.regs = regs;
        self.selected = 0;
    }

    /// Picks the snapshot to show; an index out of range changes nothing.
    pub fn select(&mut self, i: usize)
        requires
            old(self).wf(),
        ensures
            final(self).wf(),
            final(self).snapshots() == old(self).snapshots(),
            final(self).selection() == (if i < old(self).snapshots().len() {
                i as nat
            } else {
                old(self).selection()
            }),
    {
        if i < self.regs.len() {
            self.selected = i;
        }
    }

    /// The text of the selected snapshot, where there is one.
    pub fn shown(&self) -> (r: Option<String>)
        requires
            self.wf(),
        ensures
            r is None <==> self.snapshots().len() == 0,
            r matches Some(t) ==> t@ == display_text(self.snapshots()[self.selection() as int]),
    {
        if self.regs.len() == 0 {
            None
        } else {
            Some(self.regs[self.selected].display())
        }
    }
}

/// What the HCI page keeps between runs.
#[derive(Debug)]
pub struct HciToolSave {
    pub visable: bool,
    pub program: String,
}

impl Default for HciToolSave {
    fn default() -> (r: Self)
        ensures
            !r.visable,
            r.program@ == Seq::<char>::empty(),
    {
        HciToolSave { visable: false, program: String::new() }
    }
}

/// A log conversion that the HCI page hands to a worker.
#[derive(Debug)]
pub struct HciJob {
    pub program: String,
    pub path: String,
    pub encoding: FileEncoding,
}

/// The HCI log page.
#[derive(Debug)]
pub struct HciToolPage {
    pub save: HciToolSave,
    pub doing: bool,
    pub target: DropTarget,
    pub file_encoding: FileEncoding,
}

impl HciToolPage {
    pub fn new(save: HciToolSave) -> (r: HciToolPage)
        ensures
            r.save == save,
            !r.doing,
            r.target.path@ == Seq::<char>::empty(),
            r.file_encoding == FileEncoding::UTF8,
    {
        HciToolPage {
            save,
            doing: false,
            target: DropTarget::new(),
            file_encoding: FileEncoding::UTF8,
        }
    }

    /// The process action: enabled where nothing runs and both the converter
    /// program and the log path are given.
    pub fn start(&mut self) -> (r: Option<HciJob>)
        ensures
            r is Some <==> (!old(self).doing && old(self).target.path@.len() > 0
                && old(self).save.program@.len() > 0),
            r is Some ==> final(self).doing,
            r is None ==> final(self).doing == old(self).doing,
            r matches Some(j) ==> j.program@ == old(self).save.program@ && j.path@
                == old(self).target.path@ && j.encoding == old(self).file_encoding,
            final(self).file_encoding == old(self).file_encoding,
    {
        if self.doing || !self.target.has_path() || self.save.program.as_str().is_empty() {
            return None;
        }
        self.doing = true;
        Some(
            HciJob {
                program: self.save.program.clone(),
                path: self.target.path.clone(),
                encoding: self.file_encoding,
            },
        )
    }

    /// The worker's reply: whether the log could be read. Where it could not,
    /// the encoding choice falls back to detection.
    pub fn receive(&mut self, status: bool)
        ensures
            !final(self).doing,
            final(self).file_encoding == (if status {
                old(self).file_encoding
            } else {
                FileEncoding::Other
            }),
    {
        self.doing = false;
        if !status {
            self.file_encoding = FileEncoding::Other;
        }
    }
}

/// A message extraction that the analyze page hands to a worker.
#[derive(Debug)]
pub struct AnalyzeJob {
    pub types: String,
    pub input: String,
    pub output: String,
}

/// The message-analysis page.
#[derive(Debug)]
pub struct AnalyzeToolPage {
    pub types: String,
    pub target: DropTarget,
    pub doing: bool,
}

impl AnalyzeToolPage {
    pub fn new(types: String) -> (r: AnalyzeToolPage)
        ensures
            r.types == types,
            !r.doing,
            r.target.path@ == Seq::<char>::empty(),
    {
        AnalyzeToolPage { types, target: DropTarget::new(), doing: false }
    }

    /// The process action: where nothing runs and a path is given, the job
    /// reads that path and writes beside it, with `.out.txt` added.
    pub fn start(&mut self) -> (r: Option<AnalyzeJob>)
        ensures
            r is Some <==> (!old(self).doing && old(self).target.path@.len() > 0),
            r is Some ==> final(self).doing,
            r is None ==> final(self).doing == old(self).doing,
            r matches Some(j) ==> j.types@ == old(self).types@ && j.input@
                == old(self).target.path@ && j.output@ == old(self).target.path@
                + ".out.txt"@,
    {
        if self.doing || !self.target.has_path() {
            return None;
        }
        self.doing = true;
        let mut output = self.target.path.clone();
        push_str(&mut output, ".out.txt");
        Some(
            AnalyzeJob {
                types: self.types.clone(),
                input: self.target.path.clone(),
                output,
            },
        )
    }

    /// The worker has finished.
    pub fn receive(&mut self)
        ensures
            !final(self).doing,
            final(self).types == old(self).types,
    {
        self.doing = false;
    }
}

/// Saving and restoring a page's persisted settings.
pub trait InterfaceSave: Sized {
    fn set_value(&mut self);

    fn get_value(&self) -> Self;
}

} // verus!
