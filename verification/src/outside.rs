//! Declarations and wrappers for the outside crates this library calls.
//! Each item's contract states what the called crate's source or
//! documentation promises, no more; results that would take pages to state
//! are given a name instead, and the names are pure functions of the
//! arguments alone.

use vstd::prelude::*;

use base64::Engine;

use crate::addresses::AddrV;
use crate::addresses::EmlAddr;
use crate::addresses::Mailbox;
use crate::mime::MimePart;

verus! {

/// Relies on alloc's String::push: appends one character to the string.
pub assume_specification[ String::push ](s: &mut String, ch: char)
    ensures
        final(s)@ == old(s)@.push(ch),
;

#[verifier::external_type_specification]
#[verifier::external_body]
pub struct ExMailParseError(mailparse::MailParseError);

#[verifier::external_type_specification]
#[verifier::external_body]
pub struct ExParsedMail<'a>(mailparse::ParsedMail<'a>);

/// Relies on mailparse::MailParseError's Display impl: one line naming what
/// could not be parsed.
#[verifier::external_body]
pub fn mail_err_reason(e: &mailparse::MailParseError) -> String {
    format!("{}", e)
}

/// What mailparse::addrparse yields on a given address-list text: the
/// parsed slots, or nothing when the grammar is violated. A function of the
/// text alone.
pub uninterp spec fn wire_addrs(s: Seq<char>) -> Option<Seq<AddrV>>;

/// Relies on mailparse::addrparse: parses a comma-separated address list
/// into single mailboxes and named groups; a missing display name becomes
/// the empty string.
#[verifier::external_body]
pub fn addrparse_wire(raw: &str) -> (r: Result<Vec<EmlAddr>, mailparse::MailParseError>)
    ensures
        (r is Ok) == (wire_addrs(raw@) is Some),
        r matches Ok(v) ==> Some(v.deep_view()) == wire_addrs(raw@),
{
    let conv = |s: &mailparse::SingleInfo| Mailbox {
        name: s.display_name.clone().unwrap_or_default(), address: s.addr.clone(),
    };
    Ok(mailparse::addrparse(raw)?.iter().map(|a| match a {
        mailparse::MailAddr::Single(s) => EmlAddr::Single(conv(s)),
        mailparse::MailAddr::Group(g) => EmlAddr::Group {
            name: g.group_name.clone(), members: g.addrs.iter().map(conv).collect(),
        },
    }).collect())
}

/// Relies on mailparse's ParsedMail accessors: copies a parsed tree into
/// plain values, decoding each part's body and keeping the undecoded text
/// of base64-encoded parts. The recursive helper `read_mime_tree` rests on.
#[verifier::external_body]
fn convert_tree(p: &mailparse::ParsedMail) -> Result<MimePart, mailparse::MailParseError> {
    let mut children: Vec<MimePart> = Vec::new();
    for sp in &p.subparts { children.push(convert_tree(sp)?); }
    let d = p.get_content_disposition();
    let base64 = match p.get_body_encoded() {
        mailparse::body::Body::Base64(b) => String::from_utf8(b.get_raw().to_vec()).ok(),
        _ => None,
    };
    Ok(MimePart {
        mimetype: p.ctype.mimetype.clone(), text: p.get_body()?, raw: p.get_body_raw()?,
        base64, disposition: format!("{:?}", d.disposition),
        filename: d.params.get("filename").cloned(), size: d.params.get("size").cloned(),
        children,
    })
}

/// What parsing raw message bytes into plain parts yields: the converted
/// tree, or nothing when the parse or a body decode fails. A function of
/// the bytes alone.
pub uninterp spec fn mime_tree(raw: Seq<u8>) -> Option<MimePart>;

/// Relies on mailparse::parse_mail, which parses raw message bytes into a
/// tree of MIME parts, errors rather than panics, and depends on the bytes
/// alone; the tree is then copied into plain values by `convert_tree`.
#[verifier::external_body]
pub fn read_mime_tree(raw: &[u8]) -> (r: Result<MimePart, mailparse::MailParseError>)
    ensures
        (r is Ok) == (mime_tree(raw@) is Some),
        r matches Ok(t) ==> Some(t) == mime_tree(raw@),
{
    convert_tree(&mailparse::parse_mail(raw)?)
}

/// What textwrap::fill yields on a given text and width. A function of the
/// two arguments alone.
pub uninterp spec fn wrapped(s: Seq<char>, width: int) -> Seq<char>;

/// Relies on textwrap::fill: wraps each line of the text to the given
/// width, breaking words longer than a whole line.
#[verifier::external_body]
pub fn fill_text(s: &str, width: usize) -> (r: String)
    ensures
        r@ == wrapped(s@, width as int),
{
    textwrap::fill(s, width)
}

/// What the HTML sanitizer yields on a given document. A function of the
/// text alone.
pub uninterp spec fn sanitized_html(s: Seq<char>) -> Seq<char>;

/// Relies on ammonia's Builder: cleans untrusted HTML, forcing anchors to
/// open in a new context and stripping image sources.
#[verifier::external_body]
pub fn clean_html(s: &str) -> (r: String)
    ensures
        r@ == sanitized_html(s@),
{
    ammonia::Builder::default()
        .set_tag_attribute_value("a", "target", "_blank")
        .rm_tag_attributes("img", &["src"])
        .clean(s)
        .to_string()
}

/// What the regex engine captures for a given pattern and text: the first
/// match's first capture group, or nothing when the pattern does not match
/// or is itself invalid. A function of the two arguments alone.
pub uninterp spec fn regex_capture(pat: Seq<char>, text: Seq<char>) -> Option<Seq<char>>;

/// Relies on regex::Regex: compiles the pattern and returns the first
/// capture group of the leftmost match.
#[verifier::external_body]
pub fn regex_first_capture(pat: &str, text: &str) -> (r: Option<String>)
    ensures
        (r is Some) == (regex_capture(pat@, text@) is Some),
        r matches Some(s) ==> regex_capture(pat@, text@) == Some(s@),
{
    let re = match regex::Regex::new(pat) { Ok(re) => re, Err(_) => return None };
    re.captures(text).and_then(|c| c.get(1)).map(|m| m.as_str().to_string())
}

/// The RFC2822 rendering of a timestamp, at offset +0000. A function of the
/// timestamp alone; a timestamp outside the years 0 to 9999, which RFC2822
/// cannot represent, renders empty.
pub uninterp spec fn rfc2822_of(ts: int) -> Seq<char>;

/// Relies on chrono's DateTime::to_rfc2822 over a UTC timestamp. The call
/// panics on years outside 0 to 9999, so those timestamps are kept away
/// from it and render empty instead.
#[verifier::external_body]
pub fn rfc2822_utc(ts: i64) -> (r: String)
    ensures
        r@ == rfc2822_of(ts as int),
        (ts < -62167219200 || ts > 253402300799) ==> r@ == Seq::<char>::empty(),
{
    if !(-62167219200..=253402300799).contains(&ts) {
        return String::new();
    }
    match chrono::DateTime::<chrono::Utc>::from_timestamp(ts, 0) {
        Some(d) => d.to_rfc2822(),
        None => String::new(),
    }
}

/// The timestamp an RFC2822 date text denotes, or nothing when it does not
/// parse. A function of the text alone.
pub uninterp spec fn rfc2822_ts(s: Seq<char>) -> Option<int>;

/// Relies on chrono's DateTime::parse_from_rfc2822.
#[verifier::external_body]
pub fn rfc2822_parse_ts(s: &str) -> (r: Option<i64>)
    ensures
        (r is Some) == (rfc2822_ts(s@) is Some),
        r matches Some(t) ==> rfc2822_ts(s@) == Some(t as int),
{
    chrono::DateTime::parse_from_rfc2822(s).ok().map(|d| d.timestamp())
}

/// Relies on chrono's Utc::now. Nothing is promised of the clock.
#[verifier::external_body]
pub fn now_timestamp() -> i64 {
    chrono::Utc::now().timestamp()
}

/// The MIME type guessed from a file name, octet-stream when unknown. A
/// function of the name alone.
pub uninterp spec fn guessed_mime(path: Seq<char>) -> Seq<char>;

/// Relies on mime_guess::from_path: guesses a type from the file
/// extension, defaulting to application/octet-stream.
#[verifier::external_body]
pub fn mime_from_path(path: &str) -> (r: String)
    ensures
        r@ == guessed_mime(path@),
{
    mime_guess::from_path(path).first_or_octet_stream().essence_str().to_string()
}

/// The standard base64 encoding of the given bytes. A function of the bytes
/// alone.
pub uninterp spec fn base64_of(b: Seq<u8>) -> Seq<char>;

/// Relies on base64's standard-alphabet engine: encodes bytes with padding
/// and no line breaks.
#[verifier::external_body]
pub fn base64_string(b: &[u8]) -> (r: String)
    ensures
        r@ == base64_of(b@),
{
    base64::engine::general_purpose::STANDARD.encode(b)
}

} // verus!
