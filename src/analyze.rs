//! Log messages sent over SPI: characters from the MOSI column of an export are
//! assembled into messages at each line feed, and messages are kept by type.

use vstd::prelude::*;
use crate::text::{contains, contains_chars, push_str, split_chars, split_on, str_chars, string_of, views};

verus! {

/// The characters that Unicode gives the `White_Space` property.
pub open spec fn is_white_space(c: char) -> bool {
    let u = c as u32;
    (0x9 <= u <= 0xd) || u == 0x20 || u == 0x85 || u == 0xa0 || u == 0x1680 || (0x2000 <= u
        <= 0x200a) || u == 0x2028 || u == 0x2029 || u == 0x202f || u == 0x205f || u == 0x3000
}

pub open spec fn trim_start_ws(s: Seq<char>) -> Seq<char>
    decreases s.len(),
{
    if s.len() > 0 && is_white_space(s[0]) {
        trim_start_ws(s.subrange(1, s.len() as int))
    } else {
        s
    }
}

pub open spec fn trim_end_ws(s: Seq<char>) -> Seq<char>
    decreases s.len(),
{
    if s.len() > 0 && is_white_space(s.last()) {
        trim_end_ws(s.drop_last())
    } else {
        s
    }
}

/// `s` without its leading and trailing white space.
pub open spec fn trim_ws(s: Seq<char>) -> Seq<char> {
    trim_end_ws(trim_start_ws(s))
}

/// Relies on `str::trim`, which removes leading and trailing characters that
/// have the Unicode `White_Space` property.
#[verifier::external_body]
fn trim(s: &str) -> (r: &str)
    ensures
        r@ == trim_ws(s@),
{
    s.trim()
}

fn trimmed(s: &str) -> (r: String)
    ensures
        r@ == trim_ws(s@),
{
    trim(s).to_owned()
}

/// The message type: what comes before the first `:`, or the whole message.
pub open spec fn message_type(m: Seq<char>) -> Seq<char> {
    split_on(m, seq![':'])[0]
}

pub open spec fn type_list(types: Seq<char>) -> Seq<Seq<char>> {
    split_on(types, seq![',']).map_values(|t: Seq<char>| trim_ws(t))
}

/// The types that a comma-separated list names, each without surrounding white
/// space.
pub fn parse_type_list(types: &str) -> (r: Vec<String>)
    ensures
        r@.map_values(|s: String| s@) == type_list(types@),
{
    let chars = str_chars(types);
    let commas: Vec<char> = vec![','];
    assert(commas@ =~= seq![',']);
    let parts = split_chars(&chars, &commas);
    let ghost pv = views(parts@);
    let mut out: Vec<String> = Vec::new();
    let mut i: usize = 0;
    while i < parts.len()
        invariant
            i <= parts@.len(),
            pv == views(parts@),
            pv == split_on(types@, seq![',']),
            out@.map_values(|s: String| s@) == pv.subrange(0, i as int).map_values(
                |t: Seq<char>| trim_ws(t),
            ),
        decreases parts@.len() - i,
    {
        let s = string_of(&parts[i]);
        let t = trimmed(s.as_str());
        assert(pv[i as int] == parts@[i as int]@);
        assert(t@ == trim_ws(pv[i as int]));
        let ghost before = out@;
        out.push(t);
        assert(out@.map_values(|s: String| s@) =~= before.map_values(|s: String| s@).push(t@));
        assert(out@.map_values(|s: String| s@) =~= pv.subrange(0, i + 1).map_values(
            |t: Seq<char>| trim_ws(t),
        ));
        i = i + 1;
    }
    assert(pv.subrange(0, parts@.len() as int) =~= pv);
    out
}

fn prefix_before_colon(m: &Vec<char>) -> (r: Vec<char>)
    ensures
        r@ == message_type(m@),
{
    let colon: Vec<char> = vec![':'];
    assert(colon@ =~= seq![':']);
    let parts = split_chars(m, &colon);
    proof {
        crate::text::lemma_split_nonempty(m@, seq![':']);
    }
    let first = parts[0].clone();
    assert(first@ == views(parts@)[0]);
    first
}

/// Whether the message's type is one of `types`.
pub fn validate_message_type(message: &str, types: &Vec<String>) -> (r: bool)
    ensures
        r == exists|i: int| 0 <= i < types@.len() && types@[i]@ == message_type(message@),
{
    let chars = str_chars(message);
    let ty = string_of(&prefix_before_colon(&chars));
    let mut i: usize = 0;
    while i < types.len()
        invariant
            i <= types@.len(),
            ty@ == message_type(message@),
            forall|k: int| 0 <= k < i ==> types@[k]@ != ty@,
        decreases types@.len() - i,
    {
        if types[i] == ty {
            return true;
        }
        i = i + 1;
    }
    false
}

/// A message and the record at which its first character came.
#[derive(Debug)]
pub struct LogMessage {
    pub record: usize,
    pub content: String,
}

/// Why the records cannot be read as messages.
#[derive(Clone, Copy, Debug, PartialEq, Eq, Structural)]
pub enum LogDataError {
    /// No header is `Time [s]`.
    MissingTimeColumn,
    /// No header is `MOSI`.
    MissingMosiColumn,
    /// This record is too short to have a time field.
    MissingTimeField(usize),
    /// This record is too short to have a MOSI field.
    MissingMosiField(usize),
}

/// The index of the first entry equal to `name`.
pub open spec fn first_index(v: Seq<Seq<char>>, name: Seq<char>) -> Option<int> {
    if exists|i: int| 0 <= i < v.len() && v[i] == name {
        Some(choose|i: int| 0 <= i < v.len() && v[i] == name && forall|j: int| 0 <= j < i ==> v[j] != name)
    } else {
        None
    }
}

pub struct AssemblyModel {
    pub current: Seq<char>,
    pub start: Option<int>,
    pub messages: Seq<(int, Seq<char>)>,
}

/// One MOSI field: `NUL` adds a space; `LF ` ends the text so far, which
/// becomes a message, trimmed, if it holds a `:`; any other text is added.
/// A message is dated by the record where its text began.
pub open spec fn assembly_step(m: AssemblyModel, k: int, mosi: Seq<char>) -> AssemblyModel {
    let start = if m.start is None { Some(k) } else { m.start };
    if mosi == "NUL"@ {
        AssemblyModel { current: m.current.push(' '), start, ..m }
    } else if mosi == "LF "@ {
        if m.current.len() > 0 && contains(trim_ws(m.current), seq![':']) {
            AssemblyModel {
                current: Seq::empty(),
                start: None,
                messages: m.messages.push((start->0, trim_ws(m.current))),
            }
        } else {
            AssemblyModel { current: Seq::empty(), start, ..m }
        }
    } else {
        AssemblyModel { current: m.current + mosi, start, ..m }
    }
}

pub open spec fn assembly_start() -> AssemblyModel {
    AssemblyModel { current: Seq::empty(), start: None, messages: Seq::empty() }
}

/// The messages of the records, or the first record that lacks a field.
pub open spec fn assemble(records: Seq<Seq<Seq<char>>>, ti: int, mi: int) -> Result<
    AssemblyModel,
    LogDataError,
>
    decreases records.len(),
{
    if records.len() == 0 {
        Ok(assembly_start())
    } else {
        let k = records.len() - 1;
        let rec = records.last();
        match assemble(records.drop_last(), ti, mi) {
            Err(e) => Err(e),
            Ok(m) => if ti >= rec.len() {
                Err(LogDataError::MissingTimeField(k as usize))
            } else if mi >= rec.len() {
                Err(LogDataError::MissingMosiField(k as usize))
            } else {
                Ok(assembly_step(m, k, rec[mi]))
            },
        }
    }
}

pub open spec fn record_views(records: Seq<Vec<String>>) -> Seq<Seq<Seq<char>>> {
    records.map_values(|r: Vec<String>| r@.map_values(|f: String| f@))
}

pub open spec fn header_views(headers: Seq<String>) -> Seq<Seq<char>> {
    headers.map_values(|h: String| h@)
}

pub open spec fn message_views(v: Seq<LogMessage>) -> Seq<(int, Seq<char>)> {
    v.map_values(|m: LogMessage| (m.record as int, m.content@))
}

/// What the records of an export with these headers yield: the columns
/// `Time [s]` and `MOSI` must be there, and every record must reach both.
pub open spec fn logic_data(headers: Seq<Seq<char>>, records: Seq<Seq<Seq<char>>>) -> Result<
    Seq<(int, Seq<char>)>,
    LogDataError,
> {
    match (first_index(headers, "Time [s]"@), first_index(headers, "MOSI"@)) {
        (None, _) => Err(LogDataError::MissingTimeColumn),
        (Some(_), None) => Err(LogDataError::MissingMosiColumn),
        (Some(ti), Some(mi)) => match assemble(records, ti, mi) {
            Ok(m) => Ok(m.messages),
            Err(e) => Err(e),
        },
    }
}

/// The index of the first header equal to `name`.
pub fn find_column(headers: &Vec<String>, name: &str) -> (r: Option<usize>)
    ensures
        opt_index(r) == first_index(header_views(headers@), name@),
{
    let target = name.to_owned();
    let ghost hv = header_views(headers@);
    let mut i: usize = 0;
    while i < headers.len()
        invariant
            i <= headers@.len(),
            hv == header_views(headers@),
            target@ == name@,
            forall|j: int| 0 <= j < i ==> hv[j] != name@,
        decreases headers@.len() - i,
    {
        if headers[i] == target {
            assert(hv[i as int] == name@);
            return Some(i);
        }
        i = i + 1;
    }
    None
}

pub open spec fn opt_index(o: Option<usize>) -> Option<int> {
    match o {
        Some(i) => Some(i as int),
        None => None,
    }
}

struct Assembler {
    current: String,
    start: Option<usize>,
    messages: Vec<LogMessage>,
}

impl Assembler {
    spec fn model(&self) -> AssemblyModel {
        AssemblyModel {
            current: self.current@,
            start: opt_index(self.start),
            messages: message_views(self.messages@),
        }
    }

    fn step(&mut self, k: usize, mosi: &String, nul: &String, lf: &String)
        requires
            nul@ == "NUL"@,
            lf@ == "LF "@,
        ensures
            final(self).model() == assembly_step(old(self).model(), k as int, mosi@),
    {
        if self.start.is_none() {
            self.start = Some(k);
        }
        if *mosi == *nul {
            self.current.push(' ');
        } else if *mosi == *lf {
            if !self.current.as_str().is_empty() {
                let message = trimmed(self.current.as_str());
                let mchars = str_chars(message.as_str());
                let colon: Vec<char> = vec![':'];
                assert(colon@ =~= seq![':']);
                if contains_chars(&mchars, &colon) {
                    let at = match self.start {
                        Some(s) => s,
                        None => k,
                    };
                    let ghost before = self.messages@;
                    self.messages.push(LogMessage { record: at, content: message });
                    assert(message_views(self.messages@) =~= message_views(before).push(
                        (at as int, trim_ws(self.current@)),
                    ));
                    self.start = None;
                }
            }
            self.current = String::new();
        } else {
            push_str(&mut self.current, mosi.as_str());
        }
    }
}

/// The messages that the MOSI column of the records spells, each with the
/// record where it began; the timestamps stay with the caller, who reads the
/// time column of those records.
pub fn process_logic_data(headers: &Vec<String>, records: &Vec<Vec<String>>) -> (r: Result<
    Vec<LogMessage>,
    LogDataError,
>)
    ensures
        match r {
            Ok(v) => logic_data(header_views(headers@), record_views(records@)) == Ok::<
                Seq<(int, Seq<char>)>,
                LogDataError,
            >(message_views(v@)),
            Err(e) => logic_data(header_views(headers@), record_views(records@)) == Err::<
                Seq<(int, Seq<char>)>,
                LogDataError,
            >(e),
        },
{
    let ti = match find_column(headers, "Time [s]") {
        Some(i) => i,
        None => return Err(LogDataError::MissingTimeColumn),
    };
    let mi = match find_column(headers, "MOSI") {
        Some(i) => i,
        None => return Err(LogDataError::MissingMosiColumn),
    };
    match assemble_records(records, ti, mi) {
        Ok(a) => Ok(a.messages),
        Err(e) => Err(e),
    }
}

fn assemble_records(records: &Vec<Vec<String>>, ti: usize, mi: usize) -> (r: Result<
    Assembler,
    LogDataError,
>)
    ensures
        match r {
            Ok(a) => assemble(record_views(records@), ti as int, mi as int) == Ok::<
                AssemblyModel,
                LogDataError,
            >(a.model()),
            Err(e) => assemble(record_views(records@), ti as int, mi as int) == Err::<
                AssemblyModel,
                LogDataError,
            >(e),
        },
{
    let ghost rv = record_views(records@);
    let nul = String::from_str("NUL");
    let lf = String::from_str("LF ");
    let mut a = Assembler { current: String::new(), start: None, messages: Vec::new() };
    assert(message_views(a.messages@) =~= Seq::<(int, Seq<char>)>::empty());
    assert(a.model() == assembly_start());
    let mut k: usize = 0;
    while k < records.len()
        invariant
            k <= records@.len(),
            rv == record_views(records@),
            nul@ == "NUL"@,
            lf@ == "LF "@,
            assemble(rv.subrange(0, k as int), ti as int, mi as int) == Ok::<
                AssemblyModel,
                LogDataError,
            >(a.model()),
        decreases records@.len() - k,
    {
        let ghost prev = rv.subrange(0, k as int);
        assert(rv.subrange(0, k + 1).drop_last() =~= prev);
        assert(rv.subrange(0, k + 1).last() == rv[k as int]);
        let rec = &records[k];
        assert(rv[k as int] == rec@.map_values(|f: String| f@));
        if ti >= rec.len() {
            proof {
                lemma_assemble_err_stays(rv, k as int + 1, ti as int, mi as int);
            }
            return Err(LogDataError::MissingTimeField(k));
        }
        if mi >= rec.len() {
            proof {
                lemma_assemble_err_stays(rv, k as int + 1, ti as int, mi as int);
            }
            return Err(LogDataError::MissingMosiField(k));
        }
        let mosi = &rec[mi];
        assert(rv[k as int][mi as int] == mosi@);
        a.step(k, mosi, &nul, &lf);
        k = k + 1;
    }
    assert(rv.subrange(0, records@.len() as int) =~= rv);
    Ok(a)
}

proof fn lemma_assemble_err_stays(rv: Seq<Seq<Seq<char>>>, k: int, ti: int, mi: int)
    requires
        1 <= k <= rv.len(),
        assemble(rv.subrange(0, k), ti, mi) is Err,
    ensures
        assemble(rv, ti, mi) == assemble(rv.subrange(0, k), ti, mi),
    decreases rv.len() - k,
{
    if k < rv.len() {
        assert(rv.subrange(0, k + 1).drop_last() =~= rv.subrange(0, k));
        lemma_assemble_err_stays(rv, k + 1, ti, mi);
    } else {
        assert(rv.subrange(0, k) =~= rv);
    }
}

pub open spec fn type_listed(types: Seq<String>, m: Seq<char>) -> bool {
    exists|i: int| 0 <= i < types.len() && types[i]@ == message_type(m)
}

/// The messages whose type is one of `types`, in order.
pub fn filter_messages(messages: &Vec<LogMessage>, types: &Vec<String>) -> (r: Vec<LogMessage>)
    ensures
        message_views(r@) == message_views(messages@).filter(
            |m: (int, Seq<char>)| type_listed(types@, m.1),
        ),
{
    let ghost mv = message_views(messages@);
    let ghost keep = |m: (int, Seq<char>)| type_listed(types@, m.1);
    let mut out: Vec<LogMessage> = Vec::new();
    let mut i: usize = 0;
    while i < messages.len()
        invariant
            i <= messages@.len(),
            mv == message_views(messages@),
            keep == (|m: (int, Seq<char>)| type_listed(types@, m.1)),
            message_views(out@) == mv.subrange(0, i as int).filter(keep),
        decreases messages@.len() - i,
    {
        reveal(Seq::filter);
        let m = &messages[i];
        assert(mv.subrange(0, i + 1).drop_last() =~= mv.subrange(0, i as int));
        assert(mv.subrange(0, i + 1).last() == (m.record as int, m.content@));
        if validate_message_type(m.content.as_str(), types) {
            let ghost before = out@;
            out.push(LogMessage { record: m.record, content: m.content.clone() });
            assert(message_views(out@) =~= message_views(before).push((m.record as int, m.content@)));
        }
        i = i + 1;
    }
    assert(mv.subrange(0, messages@.len() as int) =~= mv);
    out
}

} // verus!
