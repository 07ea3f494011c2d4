//! HCI log clean-up before conversion: timestamps in parentheses are removed,
//! bracketed timestamps start a new line where the line records HCI traffic
//! and are removed elsewhere, empty lines are dropped and only ASCII is kept.

use vstd::prelude::*;
use crate::text::{contains, contains_chars, push_str, split_chars, split_on, str_chars, string_of, views};

verus! {

#[verifier::external_type_specification]
#[verifier::external_body]
pub struct ExRegex(regex::Regex);

#[verifier::external_type_specification]
#[verifier::external_body]
pub struct ExRegexError(regex::Error);

/// Whether the regular expression `pattern` matches somewhere in `haystack`.
pub uninterp spec fn regex_is_match(pattern: Seq<char>, haystack: Seq<char>) -> bool;

/// `haystack` with every non-overlapping match of `pattern` replaced by `rep`,
/// where `$0` in `rep` stands for the match.
pub uninterp spec fn regex_replace_all(pattern: Seq<char>, haystack: Seq<char>, rep: Seq<char>) -> Seq<char>;

/// Whether `regex::Regex::new` compiles `pattern` (with the default limits).
pub uninterp spec fn regex_compiles(pattern: Seq<char>) -> bool;

/// Relies on `regex::Regex::new`: compiles a pattern, or reports why it cannot;
/// which of the two depends on the pattern alone.
#[verifier::external_body]
fn regex_new(pattern: &str) -> (r: Result<regex::Regex, regex::Error>)
    ensures
        r is Ok <==> regex_compiles(pattern@),
{
    regex::Regex::new(pattern)
}

/// A compiled regular expression together with its source text.
pub struct Pattern {
    re: regex::Regex,
    src: String,
}

/// Why a log cannot be cleaned.
#[derive(Clone, Copy, Debug, PartialEq, Eq, Structural)]
pub enum HciError {
    /// A timestamp pattern did not compile.
    BadPattern,
}

impl Pattern {
    pub closed spec fn source(&self) -> Seq<char> {
        self.src@
    }

    /// Compiles `pattern`.
    pub fn new(pattern: &str) -> (r: Result<Pattern, HciError>)
        ensures
            r is Ok <==> regex_compiles(pattern@),
            r matches Ok(p) ==> p.source() == pattern@,
    {
        match regex_new(pattern) {
            Ok(re) => Ok(Pattern { re, src: pattern.to_owned() }),
            Err(_) => Err(HciError::BadPattern),
        }
    }
}

/// Relies on `regex::Regex::is_match`: whether the pattern matches anywhere in `text`.
#[verifier::external_body]
fn is_match(p: &Pattern, text: &str) -> (r: bool)
    ensures
        r == regex_is_match(p.source(), text@),
{
    p.re.is_match(text)
}

/// Relies on `regex::Regex::replace_all`: every match replaced by `rep`, with
/// `$0` expanded to the match; a text without a match comes back unchanged.
#[verifier::external_body]
fn replace_all(p: &Pattern, text: &str, rep: &str) -> (r: String)
    ensures
        r@ == regex_replace_all(p.source(), text@, rep@),
        !regex_is_match(p.source(), text@) ==> r@ == text@,
{
    p.re.replace_all(text, rep).into_owned()
}

/// A timestamp in parentheses, such as `(12:34:56.789)`.
pub const PAREN_STAMP: &'static str = "\\(\\d{2}:\\d{2}:\\d{2}\\.\\d{3}\\)";

/// A timestamp in brackets, such as `[12:34:56.789]`.
pub const BRACKET_STAMP: &'static str = "\\[\\d{2}:\\d{2}:\\d{2}\\.\\d{3}\\]";

/// A line that records HCI traffic: a command, event or ACL packet with a
/// direction arrow `=>` or `<=`, or a message with `->` or `<-`.
pub open spec fn is_traffic_line(l: Seq<char>) -> bool {
    ((contains(l, "CMD "@) || contains(l, "EVT "@) || contains(l, "ACL "@)) && (contains(
        l,
        " => "@,
    ) || contains(l, " <= "@))) || (contains(l, "MSG "@) && (contains(l, " -> "@) || contains(
        l,
        " <- "@,
    )))
}

fn has(l: &Vec<char>, pat: &str) -> (r: bool)
    ensures
        r == contains(l@, pat@),
{
    let p = str_chars(pat);
    contains_chars(l, &p)
}

/// Whether `line` records HCI traffic.
pub fn classify_line(line: &str) -> (r: bool)
    ensures
        r == is_traffic_line(line@),
{
    let l = str_chars(line);
    ((has(&l, "CMD ") || has(&l, "EVT ") || has(&l, "ACL ")) && (has(&l, " => ") || has(
        &l,
        " <= ",
    ))) || (has(&l, "MSG ") && (has(&l, " -> ") || has(&l, " <- ")))
}

/// `l` without one trailing carriage return.
pub open spec fn strip_cr(l: Seq<char>) -> Seq<char> {
    if l.len() > 0 && l.last() == '\r' {
        l.drop_last()
    } else {
        l
    }
}

/// The lines of `s` as `str::lines` yields them: split at `\n`, a `\r` before
/// the `\n` removed, and no empty line after a final line break.
pub open spec fn std_lines(s: Seq<char>) -> Seq<Seq<char>> {
    let parts = split_on(s, seq!['\n']);
    let body = parts.drop_last().map_values(|l: Seq<char>| strip_cr(l));
    if parts.last().len() == 0 {
        body
    } else {
        body.push(parts.last())
    }
}

pub open spec fn nonempty(lines: Seq<Seq<char>>) -> Seq<Seq<char>> {
    lines.filter(|l: Seq<char>| l.len() > 0)
}

/// The non-empty lines of `s`.
pub fn nonempty_lines(s: &str) -> (r: Vec<String>)
    ensures
        r@.map_values(|x: String| x@) == nonempty(std_lines(s@)),
{
    let chars = str_chars(s);
    let nl: Vec<char> = vec!['\n'];
    assert(nl@ =~= seq!['\n']);
    let parts = split_chars(&chars, &nl);
    let ghost pv = views(parts@);
    proof {
        crate::text::lemma_split_nonempty(s@, seq!['\n']);
    }
    let ghost lines = std_lines(s@);
    let ghost body = pv.drop_last().map_values(|l: Seq<char>| strip_cr(l));
    assert(lines.len() >= body.len());
    assert(forall|k: int| 0 <= k < body.len() ==> lines[k] == body[k]);
    let mut out: Vec<String> = Vec::new();
    let n = parts.len();
    let mut i: usize = 0;
    while i < n
        invariant
            n == parts@.len(),
            n >= 1,
            i <= n,
            pv == views(parts@),
            pv == split_on(s@, seq!['\n']),
            lines == std_lines(s@),
            lines.len() == (if pv.last().len() == 0 { n - 1 } else { n as int }),
            forall|k: int| 0 <= k < n - 1 ==> lines[k] == strip_cr(pv[k]),
            pv.last().len() > 0 ==> lines[n - 1] == pv.last(),
            out@.map_values(|x: String| x@) == nonempty(lines.subrange(0, if i as int <= lines.len() { i as int } else { lines.len() as int })),
        decreases n - i,
    {
        reveal(Seq::filter);
        let part = &parts[i];
        let mut line = part.clone();
        assert(line@ == pv[i as int]);
        if i + 1 < n && line.len() > 0 && line[line.len() - 1] == '\r' {
            line.pop();
        }
        let ghost before = out@;
        if line.len() > 0 {
            assert(i < lines.len());
            assert(line@ == lines[i as int]);
            assert(lines.subrange(0, i + 1).drop_last() =~= lines.subrange(0, i as int));
            out.push(string_of(&line));
            assert(out@.map_values(|x: String| x@) =~= before.map_values(|x: String| x@).push(line@));
        } else {
            proof {
                if i < lines.len() {
                    assert(lines.subrange(0, i + 1).drop_last() =~= lines.subrange(0, i as int));
                    assert(lines[i as int].len() == 0);
                }
            }
        }
        i = i + 1;
    }
    assert(lines.subrange(0, lines.len() as int) =~= lines);
    out
}

pub open spec fn is_ascii_char(c: char) -> bool {
    (c as u32) < 128
}

/// The ASCII characters of `s`, in order.
pub fn ascii_only(s: &str) -> (r: String)
    ensures
        r@ == s@.filter(|c: char| is_ascii_char(c)),
{
    let mut r = String::new();
    let chars = str_chars(s);
    let mut i: usize = 0;
    while i < chars.len()
        invariant
            i <= chars@.len(),
            chars@ == s@,
            r@ == s@.subrange(0, i as int).filter(|c: char| is_ascii_char(c)),
        decreases chars@.len() - i,
    {
        reveal(Seq::filter);
        assert(s@.subrange(0, i + 1).drop_last() =~= s@.subrange(0, i as int));
        let c = chars[i];
        if (c as u32) < 128 {
            r.push(c);
        }
        i = i + 1;
    }
    assert(s@.subrange(0, chars@.len() as int) =~= s@);
    r
}

/// One line after clean-up: where it holds a bracketed timestamp, the stamp
/// starts a new line if the line records traffic and is removed otherwise.
pub open spec fn rewrite_line(l: Seq<char>) -> Seq<char> {
    if regex_is_match(BRACKET_STAMP@, l) {
        if is_traffic_line(l) {
            regex_replace_all(BRACKET_STAMP@, l, "\n$0"@)
        } else {
            regex_replace_all(BRACKET_STAMP@, l, ""@)
        }
    } else {
        l
    }
}

/// Each line rewritten and followed by a line break.
pub open spec fn rewrite_lines(lines: Seq<Seq<char>>) -> Seq<char>
    decreases lines.len(),
{
    if lines.len() == 0 {
        Seq::empty()
    } else {
        rewrite_lines(lines.drop_last()) + rewrite_line(lines.last()) + seq!['\n']
    }
}

/// The cleaned log: timestamps in parentheses removed, then each non-empty
/// line rewritten, then every character outside ASCII dropped.
pub open spec fn hci_clean(content: Seq<char>) -> Seq<char> {
    let stripped = regex_replace_all(PAREN_STAMP@, content, ""@);
    rewrite_lines(nonempty(std_lines(stripped))).filter(|c: char| is_ascii_char(c))
}

/// Both timestamp patterns compile.
pub open spec fn stamps_compile() -> bool {
    regex_compiles(PAREN_STAMP@) && regex_compiles(BRACKET_STAMP@)
}

/// Cleans an HCI log for the converter. It fails only where a timestamp
/// pattern does not compile.
pub fn hci_file_preproc(content: &str) -> (r: Result<String, HciError>)
    ensures
        r is Ok <==> stamps_compile(),
        r matches Ok(t) ==> t@ == hci_clean(content@),
        r matches Err(e) ==> e == HciError::BadPattern,
{
    let paren = match Pattern::new(PAREN_STAMP) {
        Ok(p) => p,
        Err(e) => return Err(e),
    };
    let bracket = match Pattern::new(BRACKET_STAMP) {
        Ok(p) => p,
        Err(e) => return Err(e),
    };
    let stripped = replace_all(&paren, content, "");
    let lines = nonempty_lines(stripped.as_str());
    let ghost lv = lines@.map_values(|x: String| x@);
    let mut result = String::new();
    let mut i: usize = 0;
    while i < lines.len()
        invariant
            i <= lines@.len(),
            lv == lines@.map_values(|x: String| x@),
            bracket.source() == BRACKET_STAMP@,
            result@ == rewrite_lines(lv.subrange(0, i as int)),
        decreases lines@.len() - i,
    {
        let line = lines[i].as_str();
        assert(lv.subrange(0, i + 1).drop_last() =~= lv.subrange(0, i as int));
        assert(lv.subrange(0, i + 1).last() == line@);
        if is_match(&bracket, line) {
            if classify_line(line) {
                let t = replace_all(&bracket, line, "\n$0");
                push_str(&mut result, t.as_str());
            } else {
                let t = replace_all(&bracket, line, "");
                push_str(&mut result, t.as_str());
            }
        } else {
            push_str(&mut result, line);
        }
        result.push('\n');
        i = i + 1;
    }
    assert(lv.subrange(0, lines@.len() as int) =~= lv);
    Ok(ascii_only(result.as_str()))
}

} // verus!
