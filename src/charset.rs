//! Decoding a file's bytes to text in a named character encoding, before the
//! parsers read it as UTF-8.

use vstd::prelude::*;

verus! {

#[verifier::external_type_specification]
#[verifier::external_body]
pub struct ExEncoding(encoding_rs::Encoding);

/// The canonical name of the encoding that a WHATWG label names, if any.
pub uninterp spec fn label_encoding_name(label: Seq<u8>) -> Option<Seq<char>>;

/// The text of `bytes` in the encoding with this name (a byte-order mark at the
/// start overrides it), malformed sequences replaced; and whether there were any.
pub uninterp spec fn decoded_with(name: Seq<char>, bytes: Seq<u8>) -> (Seq<char>, bool);

/// A character encoding together with its canonical name.
pub struct Charset {
    enc: &'static encoding_rs::Encoding,
    name: String,
}

impl Charset {
    pub closed spec fn name(&self) -> Seq<char> {
        self.name@
    }
}

/// Relies on `encoding_rs::Encoding::for_label`, the encoding that a label
/// names, and `Encoding::name`, its canonical name.
#[verifier::external_body]
fn charset_for_label(label: &[u8]) -> (r: Option<Charset>)
    ensures
        match r {
            Some(c) => label_encoding_name(label@) == Some(c.name()),
            None => label_encoding_name(label@) is None,
        },
{
    match encoding_rs::Encoding::for_label(label) {
        Some(e) => Some(Charset { enc: e, name: e.name().to_owned() }),
        None => None,
    }
}

/// Relies on `encoding_rs::UTF_8`, whose name is `UTF-8`.
#[verifier::external_body]
fn utf8_charset() -> (r: Charset)
    ensures
        r.name() == "UTF-8"@,
{
    Charset { enc: encoding_rs::UTF_8, name: encoding_rs::UTF_8.name().to_owned() }
}

/// Relies on `encoding_rs::Encoding::decode`: the text of the whole input, with
/// byte-order-mark sniffing and replacement of malformed sequences, and whether
/// any were replaced. It panics only where the output size overflows `usize`.
#[verifier::external_body]
fn decode(c: &Charset, bytes: &[u8]) -> (r: (String, bool))
    requires
        bytes@.len() <= usize::MAX / 8,
    ensures
        (r.0@, r.1) == decoded_with(c.name(), bytes@),
{
    let (text, _, had_errors) = c.enc.decode(bytes);
    (text.into_owned(), had_errors)
}

/// The encoding that a conversion uses: the one the label names, else UTF-8.
pub open spec fn charset_name_for(label: Seq<u8>) -> Seq<char> {
    match label_encoding_name(label) {
        Some(n) => n,
        None => "UTF-8"@,
    }
}

/// Decodes `bytes` in the encoding that `label` names, or in UTF-8 where the
/// label names none; with whether malformed sequences were replaced.
pub fn decode_to_utf8(label: &[u8], bytes: &[u8]) -> (r: (String, bool))
    requires
        bytes@.len() <= usize::MAX / 8,
    ensures
        (r.0@, r.1) == decoded_with(charset_name_for(label@), bytes@),
{
    let c = match charset_for_label(label) {
        Some(c) => c,
        None => utf8_charset(),
    };
    decode(&c, bytes)
}

} // verus!
