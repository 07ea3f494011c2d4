//! Crash-dump register listings: a line-oriented state machine that finds the
//! marker lines of a full register dump or of a watchdog dump and collects the
//! register values that follow them into snapshots.

use vstd::prelude::*;
use crate::hex::{hex_u32_upper, parse_hex, parse_hex_from, pow16, upper_digit_exec};
use crate::text::{contains, contains_chars, push_str, split_chars, split_on, str_chars, string_of, views};

verus! {

/// One register slot of a snapshot.
#[derive(Clone, Copy, Debug, PartialEq, Eq, Structural)]
pub enum RegSlot {
    /// Not written while the snapshot was collected.
    Unset,
    /// A register that this kind of dump does not report.
    Absent,
    /// A captured value.
    Value(u32),
}

/// Number of register slots in a snapshot.
pub const REG_COUNT: usize = 32;

/// Slots that a full register dump collects.
pub const FULL_DUMP_SLOTS: usize = 32;

/// Slot index at which a watchdog dump is complete.
pub const WATCHDOG_DUMP_SLOTS: usize = 19;

/// A register snapshot: 32 slots and the marker line that began it.
#[derive(Debug)]
pub struct CPURegs {
    regs: Vec<RegSlot>,
    header: String,
}

impl CPURegs {
    #[verifier::type_invariant]
    spec fn slots_complete(&self) -> bool {
        self.regs@.len() == REG_COUNT
    }
}

pub struct RegsView {
    pub regs: Seq<RegSlot>,
    pub header: Seq<char>,
}

impl View for CPURegs {
    type V = RegsView;

    closed spec fn view(&self) -> RegsView {
        RegsView { regs: self.regs@, header: self.header@ }
    }
}

/// The slot text that a snapshot shows: nothing, the placeholder
/// `0xXXXXXXXX`, or `0x` and eight uppercase digits.
pub open spec fn slot_text(s: RegSlot) -> Seq<char> {
    match s {
        RegSlot::Unset => Seq::empty(),
        RegSlot::Absent => seq!['0', 'x', 'X', 'X', 'X', 'X', 'X', 'X', 'X', 'X'],
        RegSlot::Value(v) => seq!['0', 'x'] + hex_u32_upper(v),
    }
}

pub open spec fn empty_slots() -> Seq<RegSlot> {
    Seq::new(REG_COUNT as nat, |i: int| RegSlot::Unset)
}

/// Which kind of dump is being collected.
#[derive(Clone, Copy, Debug, PartialEq, Eq, Structural)]
pub enum DumpMode {
    Idle,
    Full,
    Watchdog,
}

pub struct ParserModel {
    pub mode: DumpMode,
    pub index: nat,
    pub regs: Seq<RegSlot>,
    pub header: Seq<char>,
    pub snapshots: Seq<RegsView>,
}

pub open spec fn parser_start() -> ParserModel {
    ParserModel {
        mode: DumpMode::Idle,
        index: 0,
        regs: empty_slots(),
        header: Seq::empty(),
        snapshots: Seq::empty(),
    }
}

/// Once `limit` slots are consumed, the snapshot is appended and collection stops.
pub open spec fn complete(m: ParserModel, limit: nat) -> ParserModel {
    if m.index >= limit {
        ParserModel {
            mode: DumpMode::Idle,
            snapshots: m.snapshots.push(RegsView { regs: m.regs, header: m.header }),
            ..m
        }
    } else {
        m
    }
}

pub open spec fn fill_absent(regs: Seq<RegSlot>, from: int, to: int) -> Seq<RegSlot> {
    Seq::new(regs.len(), |i: int| if from <= i < to { RegSlot::Absent } else { regs[i] })
}

/// The slots that a watchdog dump never reports: 0, 2 to 3, and 18 to 27. When
/// the index comes to one of these runs, the run is filled with the placeholder
/// and the index moves past it.
pub open spec fn skip_absent(m: ParserModel) -> ParserModel {
    if m.index == 0 {
        ParserModel { regs: fill_absent(m.regs, 0, 1), index: 1, ..m }
    } else if m.index == 2 {
        ParserModel { regs: fill_absent(m.regs, 2, 4), index: 4, ..m }
    } else if m.index == 18 {
        ParserModel { regs: fill_absent(m.regs, 18, 28), index: 28, ..m }
    } else {
        m
    }
}

/// One space-separated token while collecting: empty tokens store nothing; a
/// base-16 `u32` goes to the current slot; anything else uses up the slot and
/// ends the collection.
pub open spec fn collect_token(m: ParserModel, t: Seq<char>, limit: nat) -> ParserModel {
    if t.len() == 0 {
        complete(m, limit)
    } else {
        match parse_hex(t, 0xffff_ffff) {
            Some(v) => complete(
                ParserModel {
                    regs: m.regs.update(m.index as int, RegSlot::Value(v as u32)),
                    index: m.index + 1,
                    ..m
                },
                limit,
            ),
            None => {
                let used = ParserModel { index: m.index + 1, ..m };
                if used.index >= limit {
                    complete(used, limit)
                } else {
                    ParserModel { mode: DumpMode::Idle, ..used }
                }
            },
        }
    }
}

pub open spec fn token_step(m: ParserModel, t: Seq<char>) -> ParserModel {
    match m.mode {
        DumpMode::Idle => m,
        DumpMode::Full => collect_token(m, t, FULL_DUMP_SLOTS as nat),
        DumpMode::Watchdog => collect_token(skip_absent(m), t, WATCHDOG_DUMP_SLOTS as nat),
    }
}

pub open spec fn tokens_run(m: ParserModel, toks: Seq<Seq<char>>) -> ParserModel
    decreases toks.len(),
{
    if toks.len() == 0 {
        m
    } else {
        token_step(tokens_run(m, toks.drop_last()), toks.last())
    }
}

pub open spec fn is_full_marker(line: Seq<char>) -> bool {
    contains(line, "ERR:"@) && contains(line, "EPC:"@)
}

pub open spec fn is_watchdog_marker(line: Seq<char>) -> bool {
    contains(line, "WDT_RST:"@)
}

/// One line: its tokens go to the collection in progress first; then a marker
/// line starts a new snapshot with the line as its header.
pub open spec fn line_step(m: ParserModel, line: Seq<char>) -> ParserModel {
    let m1 = tokens_run(m, split_on(line, seq![' ']));
    if is_full_marker(line) {
        ParserModel { mode: DumpMode::Full, index: 0, regs: empty_slots(), header: line, ..m1 }
    } else if is_watchdog_marker(line) {
        ParserModel {
            mode: DumpMode::Watchdog,
            index: 0,
            regs: empty_slots(),
            header: line,
            ..m1
        }
    } else {
        m1
    }
}

pub open spec fn lines_run(m: ParserModel, lines: Seq<Seq<char>>) -> ParserModel
    decreases lines.len(),
{
    if lines.len() == 0 {
        m
    } else {
        line_step(lines_run(m, lines.drop_last()), lines.last())
    }
}

/// The lines of a text: split at every `\r` and every `\n`.
pub open spec fn text_lines(text: Seq<char>) -> Seq<Seq<char>> {
    split_on(text, seq!['\r', '\n'])
}

/// The snapshots that a crash-dump text yields, in the order they completed.
pub open spec fn dump_snapshots(text: Seq<char>) -> Seq<RegsView> {
    lines_run(parser_start(), text_lines(text)).snapshots
}

fn copy_slots(regs: &Vec<RegSlot>) -> (r: Vec<RegSlot>)
    ensures
        r@ == regs@,
{
    let mut r: Vec<RegSlot> = Vec::new();
    let mut i: usize = 0;
    while i < regs.len()
        invariant
            i <= regs@.len(),
            r@ == regs@.subrange(0, i as int),
        decreases regs@.len() - i,
    {
        r.push(regs[i]);
        assert(r@ =~= regs@.subrange(0, i + 1));
        i = i + 1;
    }
    assert(r@ =~= regs@);
    r
}

fn unset_slots() -> (r: Vec<RegSlot>)
    ensures
        r@ == empty_slots(),
{
    let mut r: Vec<RegSlot> = Vec::new();
    let mut i: usize = 0;
    while i < REG_COUNT
        invariant
            i <= REG_COUNT,
            r@ == Seq::new(i as nat, |k: int| RegSlot::Unset),
        decreases REG_COUNT - i,
    {
        r.push(RegSlot::Unset);
        assert(r@ =~= Seq::new((i + 1) as nat, |k: int| RegSlot::Unset));
        i = i + 1;
    }
    r
}

/// The crash-dump state machine, fed one line at a time.
pub struct DumpParser {
    mode: DumpMode,
    index: usize,
    regs: Vec<RegSlot>,
    header: String,
    snapshots: Vec<CPURegs>,
}

pub open spec fn snapshot_views(v: Seq<CPURegs>) -> Seq<RegsView> {
    v.map_values(|c: CPURegs| c@)
}

impl View for DumpParser {
    type V = ParserModel;

    closed spec fn view(&self) -> ParserModel {
        ParserModel {
            mode: self.mode,
            index: self.index as nat,
            regs: self.regs@,
            header: self.header@,
            snapshots: snapshot_views(self.snapshots@),
        }
    }
}

impl DumpParser {
    /// What holds between lines: 32 slots, and an index below the end of the
    /// dump being collected.
    pub closed spec fn wf(&self) -> bool {
        &&& self.regs@.len() == REG_COUNT
        &&& self.index <= FULL_DUMP_SLOTS
        &&& self.mode == DumpMode::Full ==> self.index < FULL_DUMP_SLOTS
        &&& self.mode == DumpMode::Watchdog ==> self.index < WATCHDOG_DUMP_SLOTS
    }

    /// A parser that has seen no line.
    pub fn new() -> (r: DumpParser)
        ensures
            r.wf(),
            r@ == parser_start(),
    {
        let r = DumpParser {
            mode: DumpMode::Idle,
            index: 0,
            regs: unset_slots(),
            header: String::new(),
            snapshots: Vec::new(),
        };
        assert(snapshot_views(r.snapshots@) =~= Seq::<RegsView>::empty());
        r
    }

    fn complete(&mut self, limit: usize)
        requires
            old(self).regs@.len() == REG_COUNT,
            old(self).index <= FULL_DUMP_SLOTS,
        ensures
            final(self)@ == complete(old(self)@, limit as nat),
            final(self).regs@.len() == REG_COUNT,
            final(self).index == old(self).index,
            final(self).mode == old(self).mode || final(self).mode == DumpMode::Idle,
            final(self).index >= limit ==> final(self).mode == DumpMode::Idle,
    {
        if self.index >= limit {
            let snap = CPURegs { regs: copy_slots(&self.regs), header: self.header.clone() };
            let ghost before = self.snapshots@;
            self.snapshots.push(snap);
            assert(snapshot_views(self.snapshots@) =~= snapshot_views(before).push(snap@));
            self.mode = DumpMode::Idle;
        }
    }

    fn fill_absent(&mut self, from: usize, to: usize)
        requires
            from <= to <= REG_COUNT,
            old(self).regs@.len() == REG_COUNT,
        ensures
            final(self).regs@ == fill_absent(old(self).regs@, from as int, to as int),
            final(self).mode == old(self).mode,
            final(self).index == old(self).index,
            final(self).header == old(self).header,
            final(self).snapshots == old(self).snapshots,
    {
        let ghost start = self.regs@;
        let mut i: usize = from;
        while i < to
            invariant
                from <= i <= to <= REG_COUNT,
                self.regs@.len() == REG_COUNT,
                start.len() == REG_COUNT,
                self.mode == old(self).mode,
                self.index == old(self).index,
                self.header == old(self).header,
                self.snapshots == old(self).snapshots,
                self.regs@ == fill_absent(start, from as int, i as int),
            decreases to - i,
        {
            self.regs.set(i, RegSlot::Absent);
            assert(self.regs@ =~= fill_absent(start, from as int, i + 1));
            i = i + 1;
        }
    }

    fn skip_absent(&mut self)
        requires
            old(self).wf(),
            old(self).mode == DumpMode::Watchdog,
        ensures
            final(self)@ == skip_absent(old(self)@),
            final(self).regs@.len() == REG_COUNT,
            final(self).mode == DumpMode::Watchdog,
            final(self).index <= 28,
    {
        if self.index == 0 {
            self.fill_absent(0, 1);
            self.index = 1;
        } else if self.index == 2 {
            self.fill_absent(2, 4);
            self.index = 4;
        } else if self.index == 18 {
            self.fill_absent(18, 28);
            self.index = 28;
        }
    }

    fn collect_token(&mut self, t: &Vec<char>, limit: usize)
        requires
            old(self).regs@.len() == REG_COUNT,
            old(self).mode != DumpMode::Idle,
            limit == FULL_DUMP_SLOTS || limit == WATCHDOG_DUMP_SLOTS,
            old(self).index < FULL_DUMP_SLOTS,
            old(self).index < limit || limit == WATCHDOG_DUMP_SLOTS,
            limit == WATCHDOG_DUMP_SLOTS ==> old(self).index <= 28,
        ensures
            final(self)@ == collect_token(old(self)@, t@, limit as nat),
            final(self).regs@.len() == REG_COUNT,
            final(self).index <= FULL_DUMP_SLOTS,
            final(self).mode == old(self).mode || final(self).mode == DumpMode::Idle,
            final(self).index >= limit ==> final(self).mode == DumpMode::Idle,
    {
        if t.len() == 0 {
            self.complete(limit);
            return;
        }
        match parse_hex_from(t, 0, 0xffff_ffff) {
            Some(v) => {
                assert(t@.subrange(0, t@.len() as int) =~= t@);
                self.regs.set(self.index, RegSlot::Value(v));
                self.index = self.index + 1;
                self.complete(limit);
            },
            None => {
                assert(t@.subrange(0, t@.len() as int) =~= t@);
                self.index = self.index + 1;
                if self.index >= limit {
                    self.complete(limit);
                } else {
                    self.mode = DumpMode::Idle;
                }
            },
        }
    }

    fn token_step(&mut self, t: &Vec<char>)
        requires
            old(self).wf(),
        ensures
            final(self).wf(),
            final(self)@ == token_step(old(self)@, t@),
    {
        match self.mode {
            DumpMode::Idle => {},
            DumpMode::Full => {
                self.collect_token(t, FULL_DUMP_SLOTS);
            },
            DumpMode::Watchdog => {
                self.skip_absent();
                self.collect_token(t, WATCHDOG_DUMP_SLOTS);
            },
        }
    }

    fn feed_chars(&mut self, line: &Vec<char>)
        requires
            old(self).wf(),
        ensures
            final(self).wf(),
            final(self)@ == line_step(old(self)@, line@),
    {
        let spaces: Vec<char> = vec![' '];
        assert(spaces@ =~= seq![' ']);
        let toks = split_chars(line, &spaces);
        let ghost tv = views(toks@);
        let ghost start = self@;
        let mut i: usize = 0;
        while i < toks.len()
            invariant
                i <= toks@.len(),
                tv == views(toks@),
                self.wf(),
                self@ == tokens_run(start, tv.subrange(0, i as int)),
            decreases toks@.len() - i,
        {
            assert(tv.subrange(0, i + 1).drop_last() =~= tv.subrange(0, i as int));
            assert(tv.subrange(0, i + 1).last() == toks@[i as int]@);
            self.token_step(&toks[i]);
            i = i + 1;
        }
        assert(tv.subrange(0, toks@.len() as int) =~= tv);
        let err = str_chars("ERR:");
        let epc = str_chars("EPC:");
        let wdt = str_chars("WDT_RST:");
        if contains_chars(line, &err) && contains_chars(line, &epc) {
            self.header = string_of(line);
            self.mode = DumpMode::Full;
            self.index = 0;
            self.regs = unset_slots();
        } else if contains_chars(line, &wdt) {
            self.header = string_of(line);
            self.mode = DumpMode::Watchdog;
            self.index = 0;
            self.regs = unset_slots();
        }
    }

    /// Takes one line (without its line break).
    pub fn feed_line(&mut self, line: &str)
        requires
            old(self).wf(),
        ensures
            final(self).wf(),
            final(self)@ == line_step(old(self)@, line@),
    {
        let chars = str_chars(line);
        self.feed_chars(&chars);
    }

    /// The snapshots completed so far, in order.
    pub fn into_snapshots(self) -> (r: Vec<CPURegs>)
        ensures
            snapshot_views(r@) == self@.snapshots,
    {
        self.snapshots
    }
}

/// The register snapshots of a crash-dump text, in the order they completed.
pub fn hardfault_tool(text: &str) -> (r: Vec<CPURegs>)
    ensures
        snapshot_views(r@) == dump_snapshots(text@),
{
    let chars = str_chars(text);
    let breaks: Vec<char> = vec!['\r', '\n'];
    assert(breaks@ =~= seq!['\r', '\n']);
    let lines = split_chars(&chars, &breaks);
    let ghost lv = views(lines@);
    let mut p = DumpParser::new();
    let mut i: usize = 0;
    while i < lines.len()
        invariant
            i <= lines@.len(),
            lv == views(lines@),
            lv == text_lines(text@),
            p.wf(),
            p@ == lines_run(parser_start(), lv.subrange(0, i as int)),
        decreases lines@.len() - i,
    {
        assert(lv.subrange(0, i + 1).drop_last() =~= lv.subrange(0, i as int));
        assert(lv.subrange(0, i + 1).last() == lines@[i as int]@);
        p.feed_chars(&lines[i]);
        i = i + 1;
    }
    assert(lv.subrange(0, lines@.len() as int) =~= lv);
    p.into_snapshots()
}

/// The ABI names of the 32 RISC-V integer registers, in slot order.
pub open spec fn reg_names() -> Seq<Seq<char>> {
    seq![
        "zero"@,
        "ra"@,
        "sp"@,
        "gp"@,
        "tp"@,
        "t0"@,
        "t1"@,
        "t2"@,
        "s0"@,
        "s1"@,
        "a0"@,
        "a1"@,
        "a2"@,
        "a3"@,
        "a4"@,
        "a5"@,
        "a6"@,
        "a7"@,
        "s2"@,
        "s3"@,
        "s4"@,
        "s5"@,
        "s6"@,
        "s7"@,
        "s8"@,
        "s9"@,
        "s10"@,
        "s11"@,
        "t3"@,
        "t4"@,
        "t5"@,
        "t6"@,
    ]
}

/// The ABI name of register `i`.
pub fn reg_name(i: usize) -> (r: &'static str)
    requires
        i < REG_COUNT,
    ensures
        r@ == reg_names()[i as int],
{
    match i {
        0 => "zero",
        1 => "ra",
        2 => "sp",
        3 => "gp",
        4 => "tp",
        5 => "t0",
        6 => "t1",
        7 => "t2",
        8 => "s0",
        9 => "s1",
        10 => "a0",
        11 => "a1",
        12 => "a2",
        13 => "a3",
        14 => "a4",
        15 => "a5",
        16 => "a6",
        17 => "a7",
        18 => "s2",
        19 => "s3",
        20 => "s4",
        21 => "s5",
        22 => "s6",
        23 => "s7",
        24 => "s8",
        25 => "s9",
        26 => "s10",
        27 => "s11",
        28 => "t3",
        29 => "t4",
        30 => "t5",
        _ => "t6",
    }
}

/// The lines that show a snapshot: its header line, then `name: value, ` for
/// each register, four to a line.
pub open spec fn regs_text(regs: Seq<RegSlot>) -> Seq<char>
    decreases regs.len(),
{
    if regs.len() == 0 {
        Seq::empty()
    } else {
        let i = regs.len() - 1;
        let brk: Seq<char> = if i > 0 && i % 4 == 0 {
            seq!['\n']
        } else {
            Seq::empty()
        };
        regs_text(regs.drop_last()) + brk + reg_names()[i] + seq![':', ' '] + slot_text(regs.last())
            + seq![',', ' ']
    }
}

pub open spec fn display_text(v: RegsView) -> Seq<char> {
    v.header + seq!['\n'] + regs_text(v.regs)
}

proof fn lemma_pow16_pos(e: int)
    ensures
        pow16(e) >= 1,
    decreases e,
{
    if e > 0 {
        lemma_pow16_pos(e - 1);
    }
}

proof fn lemma_pow16_step(e: int)
    requires
        e >= 1,
    ensures
        pow16(e) / 16 == pow16(e - 1),
{
    assert(pow16(e) == 16 * pow16(e - 1));
}

/// Appends `0x` and the eight uppercase digits of `v`.
fn push_hex_u32(s: &mut String, v: u32)
    ensures
        final(s)@ == old(s)@ + seq!['0', 'x'] + hex_u32_upper(v),
{
    let ghost start = old(s)@ + seq!['0', 'x'];
    s.push('0');
    s.push('x');
    let mut div: u32 = 0x1000_0000;
    proof {
        reveal_with_fuel(pow16, 8);
    }
    let mut i: usize = 0;
    while i < 8
        invariant
            i <= 8,
            div as nat == pow16(7 - i),
            s@ == start + hex_u32_upper(v).subrange(0, i as int),
        decreases 8 - i,
    {
        proof {
            lemma_pow16_pos(7 - i);
        }
        let d: u32 = (v / div) % 16;
        s.push(upper_digit_exec(d));
        assert(s@ =~= start + hex_u32_upper(v).subrange(0, i + 1));
        if i < 7 {
            proof {
                lemma_pow16_step(7 - i);
            }
            div = div / 16;
        }
        i = i + 1;
    }
    assert(hex_u32_upper(v).subrange(0, 8) =~= hex_u32_upper(v));
}

fn push_slot(s: &mut String, slot: RegSlot)
    ensures
        final(s)@ == old(s)@ + slot_text(slot),
{
    match slot {
        RegSlot::Unset => {
            assert(old(s)@ + slot_text(slot) =~= old(s)@);
        },
        RegSlot::Absent => {
            let ghost start = old(s)@;
            s.push('0');
            s.push('x');
            let mut k: usize = 0;
            while k < 8
                invariant
                    k <= 8,
                    s@ == start + seq!['0', 'x'] + Seq::new(k as nat, |j: int| 'X'),
                decreases 8 - k,
            {
                s.push('X');
                assert(s@ =~= start + seq!['0', 'x'] + Seq::new((k + 1) as nat, |j: int| 'X'));
                k = k + 1;
            }
            assert(start + slot_text(slot) =~= start + seq!['0', 'x'] + Seq::new(8, |j: int| 'X'));
        },
        RegSlot::Value(v) => {
            push_hex_u32(s, v);
            assert(old(s)@ + seq!['0', 'x'] + hex_u32_upper(v) =~= old(s)@ + slot_text(slot));
        },
    }
}

impl CPURegs {
    /// The line that began this snapshot.
    pub fn header(&self) -> (r: &String)
        ensures
            r@ == self@.header,
    {
        &self.header
    }

    /// The slot of register `i`.
    pub fn reg(&self, i: usize) -> (r: RegSlot)
        requires
            i < REG_COUNT,
        ensures
            self@.regs.len() == REG_COUNT,
            r == self@.regs[i as int],
    {
        proof {
            use_type_invariant(self);
        }
        self.regs[i]
    }

    /// The text of register `i`'s slot.
    pub fn reg_text(&self, i: usize) -> (r: String)
        requires
            i < REG_COUNT,
        ensures
            r@ == slot_text(self@.regs[i as int]),
    {
        let mut r = String::new();
        push_slot(&mut r, self.reg(i));
        assert(r@ =~= slot_text(self@.regs[i as int]));
        r
    }

    /// The snapshot as text: the header line, then the registers by name.
    pub fn display(&self) -> (r: String)
        ensures
            r@ == display_text(self@),
    {
        proof {
            use_type_invariant(self);
        }
        let mut r = self.header.clone();
        r.push('\n');
        let ghost start = r@;
        let mut i: usize = 0;
        while i < REG_COUNT
            invariant
                i <= REG_COUNT,
                self.regs@.len() == REG_COUNT,
                start == self@.header + seq!['\n'],
                r@ == start + regs_text(self.regs@.subrange(0, i as int)),
            decreases REG_COUNT - i,
        {
            let ghost before = r@;
            assert(self.regs@.subrange(0, i + 1).drop_last() =~= self.regs@.subrange(0, i as int));
            if i > 0 && i % 4 == 0 {
                r.push('\n');
            }
            push_str(&mut r, reg_name(i));
            r.push(':');
            r.push(' ');
            push_slot(&mut r, self.regs[i]);
            r.push(',');
            r.push(' ');
            assert(r@ =~= start + regs_text(self.regs@.subrange(0, i + 1)));
            i = i + 1;
        }
        assert(self.regs@.subrange(0, REG_COUNT as int) =~= self.regs@);
        r
    }
}

} // verus!
