//! Regular expressions (the `regex` crate) and the other text engines the
//! tools call: HTML entity decoding, URL encoding and HTML documents.
//!
//! What a regular expression matches takes pages to state, so the results
//! of the `regex` calls are named here and not stated; each name is a
//! function of the pattern and the text alone.

use vstd::prelude::*;

use crate::text::{hex_digit_char, spec_decimal};

verus! {

/// `regex::Regex::new(pattern)` succeeds.
pub uninterp spec fn spec_regex_valid(pattern: Seq<char>) -> bool;

/// `regex::Regex::is_match` of the compiled `pattern` on `text`.
pub uninterp spec fn spec_regex_is_match(pattern: Seq<char>, text: Seq<char>) -> bool;

/// Compiles `pattern` (`regex::Regex::new`) and tests it on `text`
/// (`Regex::is_match`); `None` when the pattern does not compile.
#[verifier::external_body]
pub(crate) fn regex_is_match(pattern: &str, text: &str) -> (res: Option<bool>)
    ensures
        res is Some <==> spec_regex_valid(pattern@),
        res matches Some(b) ==> b == spec_regex_is_match(pattern@, text@),
{
    match regex::Regex::new(pattern) {
        Ok(re) => Some(re.is_match(text)),
        Err(_) => None,
    }
}

/// The texts of the matches of the compiled `pattern` in `text`
/// (`Regex::find_iter`), in order.
pub uninterp spec fn spec_regex_matches(pattern: Seq<char>, text: Seq<char>) -> Seq<Seq<char>>;

/// Compiles `pattern` and collects its matches in `text` (`Regex::find_iter`);
/// `None` when the pattern does not compile.
#[verifier::external_body]
pub(crate) fn regex_find_all(pattern: &str, text: &str) -> (res: Option<Vec<String>>)
    ensures
        res is Some <==> spec_regex_valid(pattern@),
        res matches Some(v) ==> v@.map_values(|s: String| s@) == spec_regex_matches(pattern@, text@),
{
    match regex::Regex::new(pattern) {
        Ok(re) => Some(re.find_iter(text).map(|m| m.as_str().to_string()).collect()),
        Err(_) => None,
    }
}

/// `regex::Regex::replace_all` of the compiled `pattern` on `text`, with the
/// replacement string `rep`.
pub uninterp spec fn spec_regex_replace_all(pattern: Seq<char>, text: Seq<char>, rep: Seq<char>) -> Seq<
    char,
>;

/// Compiles `pattern` and replaces all its matches in `text` by `rep`
/// (`Regex::replace_all`); `None` when the pattern does not compile.
#[verifier::external_body]
pub(crate) fn regex_replace_all(pattern: &str, text: &str, rep: &str) -> (res: Option<String>)
    ensures
        res is Some <==> spec_regex_valid(pattern@),
        res matches Some(r) ==> r@ == spec_regex_replace_all(pattern@, text@, rep@),
{
    match regex::Regex::new(pattern) {
        Ok(re) => Some(re.replace_all(text, rep).into_owned()),
        Err(_) => None,
    }
}

/// The matches of the compiled `pattern` in `text` (`Regex::captures_iter`):
/// for each, the text between it and the previous match, and its capture
/// groups 1.. (`None` for a group that did not take part).
pub uninterp spec fn spec_regex_pieces(pattern: Seq<char>, text: Seq<char>) -> Seq<
    (Seq<char>, Seq<Option<Seq<char>>>),
>;

/// The text after the last match of the compiled `pattern` in `text`.
pub uninterp spec fn spec_regex_tail(pattern: Seq<char>, text: Seq<char>) -> Seq<char>;

/// Compiles `pattern` and walks its matches in `text` (`Regex::captures_iter`),
/// handing back each match's preceding text and capture groups, and the text
/// after the last match; `None` when the pattern does not compile.
#[verifier::external_body]
pub(crate) fn regex_captures(pattern: &str, text: &str) -> (res: Option<
    (Vec<(String, Vec<Option<String>>)>, String),
>)
    ensures
        res is Some <==> spec_regex_valid(pattern@),
        res matches Some((pieces, tail)) ==> {
            &&& pieces@.len() == spec_regex_pieces(pattern@, text@).len()
            &&& forall|i: int|
                0 <= i < pieces@.len() ==> {
                    let (pre, groups) = #[trigger] pieces@[i];
                    let (spre, sgroups) = spec_regex_pieces(pattern@, text@)[i];
                    &&& pre@ == spre
                    &&& groups@.len() == sgroups.len()
                    &&& forall|j: int|
                        0 <= j < groups@.len() ==> (#[trigger] groups@[j]).is_some()
                            == sgroups[j].is_some() && (groups@[j] matches Some(g) ==> sgroups[j]
                            == Some(g@))
                }
            &&& tail@ == spec_regex_tail(pattern@, text@)
        },
{
    let re = match regex::Regex::new(pattern) {
        Ok(re) => re,
        Err(_) => return None,
    };
    let mut pieces = Vec::new();
    let mut last: usize = 0;
    for caps in re.captures_iter(text) {
        let m = caps.get(0).unwrap();
        let groups = (1..caps.len()).map(|i| caps.get(i).map(|g| g.as_str().to_string())).collect();
        pieces.push((text[last..m.start()].to_string(), groups));
        last = m.end();
    }
    Some((pieces, text[last..].to_string()))
}

/// The text `html_escape::decode_html_entities` makes of `text`.
pub uninterp spec fn spec_decode_html_entities(text: Seq<char>) -> Seq<char>;

/// Calls `html_escape::decode_html_entities`.
#[verifier::external_body]
pub(crate) fn decode_html_entities(text: &str) -> (res: String)
    ensures
        res@ == spec_decode_html_entities(text@),
{
    html_escape::decode_html_entities(text).into_owned()
}

/// The bytes `urlencoding::encode` leaves as they are: ASCII letters,
/// digits and `-`, `.`, `_`, `~`.
pub open spec fn url_unreserved(b: u8) -> bool {
    ||| 48 <= b <= 57
    ||| 65 <= b <= 90
    ||| 97 <= b <= 122
    ||| b == 45 || b == 46 || b == 95 || b == 126
}

/// The upper-case hexadecimal digit for `d < 16`.
pub open spec fn hex_digit(d: u8) -> char {
    if d < 10 {
        (48 + d) as char
    } else {
        (55 + d) as char
    }
}

/// How `urlencoding::encode` writes one byte: as it is, or `%` and two
/// upper-case hexadecimal digits.
pub open spec fn url_encode_byte(b: u8) -> Seq<char> {
    if url_unreserved(b) {
        seq![b as char]
    } else {
        seq!['%', hex_digit(b / 16), hex_digit(b % 16)]
    }
}

/// The text `urlencoding::encode` makes of `text`: each byte of its UTF-8
/// encoding written by `url_encode_byte`.
pub open spec fn spec_url_encode(text: Seq<char>) -> Seq<char> {
    vstd::utf8::encode_utf8(text).map_values(|b: u8| url_encode_byte(b)).flatten()
}

/// Calls `urlencoding::encode`.
#[verifier::external_body]
pub(crate) fn url_encode(text: &str) -> (res: String)
    ensures
        res@ == spec_url_encode(text@),
{
    urlencoding::encode(text).into_owned()
}

/// `scraper::Selector::parse(selector)` succeeds.
pub uninterp spec fn spec_selector_valid(selector: Seq<char>) -> bool;

/// The text of the first element matching `selector` in the document parsed
/// from `html` (`scraper`), if any.
pub uninterp spec fn spec_first_text(html: Seq<char>, selector: Seq<char>) -> Option<Seq<char>>;

/// The inner HTML of the first element matching `selector` in the document
/// parsed from `html` (`scraper`), if any.
pub uninterp spec fn spec_first_inner_html(html: Seq<char>, selector: Seq<char>) -> Option<Seq<char>>;

/// The HTML of the whole document parsed from `html` (`scraper::Html::html`).
pub uninterp spec fn spec_document_html(html: Seq<char>) -> Seq<char>;

/// Parses `html` (`scraper::Html::parse_document`) and collects the text of
/// the first element matching `selector` (`Selector::parse`, `Html::select`,
/// `ElementRef::text`); `None` when the selector does not parse.
#[verifier::external_body]
pub(crate) fn html_first_text(html: &str, selector: &str) -> (res: Option<Option<String>>)
    ensures
        res is Some <==> spec_selector_valid(selector@),
        res matches Some(found) ==> found.is_some() == spec_first_text(html@, selector@).is_some()
            && (found matches Some(t) ==> spec_first_text(html@, selector@) == Some(t@)),
{
    let document = scraper::Html::parse_document(html);
    let selector = scraper::Selector::parse(selector).ok()?;
    Some(document.select(&selector).next().map(|el| el.text().collect::<String>()))
}

/// Parses `html` and takes the inner HTML of the first element matching
/// `selector` (`ElementRef::inner_html`); `None` when the selector does not parse.
#[verifier::external_body]
pub(crate) fn html_first_inner_html(html: &str, selector: &str) -> (res: Option<Option<String>>)
    ensures
        res is Some <==> spec_selector_valid(selector@),
        res matches Some(found) ==> found.is_some() == spec_first_inner_html(html@, selector@).is_some()
            && (found matches Some(t) ==> spec_first_inner_html(html@, selector@) == Some(t@)),
{
    let document = scraper::Html::parse_document(html);
    let selector = scraper::Selector::parse(selector).ok()?;
    Some(document.select(&selector).next().map(|el| el.inner_html()))
}

/// Parses `html` and serializes the whole document again (`Html::html`).
#[verifier::external_body]
pub(crate) fn html_document(html: &str) -> (res: String)
    ensures
        res@ == spec_document_html(html@),
{
    scraper::Html::parse_document(html).html()
}

/// The bytes, one per line, each indented by two spaces and written in
/// decimal, with a comma after all but the last.
pub open spec fn pretty_byte_lines(raw: Seq<u8>) -> Seq<char>
    decreases raw.len(),
{
    if raw.len() == 0 {
        Seq::empty()
    } else if raw.len() == 1 {
        seq!['\n', ' ', ' '] + spec_decimal(raw[0] as nat)
    } else {
        pretty_byte_lines(raw.drop_last()) + seq![',', '\n', ' ', ' '] + spec_decimal(
            raw.last() as nat,
        )
    }
}

/// A byte sequence as `serde_json::to_string_pretty` writes it: a JSON array
/// of the byte values, `[]` when there are none.
pub open spec fn spec_pretty_bytes(raw: Seq<u8>) -> Seq<char> {
    if raw.len() == 0 {
        seq!['[', ']']
    } else {
        seq!['['] + pretty_byte_lines(raw) + seq!['\n', ']']
    }
}

/// Calls `serde_json::to_string_pretty` on a byte slice, which serializes as
/// a sequence of numbers: `[`, then for each byte a newline (after a comma
/// for all but the first), two spaces of indent and the number, then a
/// newline and `]`; an empty slice gives `[]` (`PrettyFormatter`'s array
/// methods). Writing into memory does not fail.
#[verifier::external_body]
pub(crate) fn json_pretty_bytes(raw: &[u8]) -> (res: String)
    ensures
        res@ == spec_pretty_bytes(raw@),
{
    match serde_json::to_string_pretty(raw) {
        Ok(t) => t,
        Err(_) => String::new(),
    }
}

/// How `serde_json` writes the character `c` inside a JSON string: `"` and
/// `\` behind a backslash, the control characters below U+0020 as `\b`,
/// `\t`, `\n`, `\f`, `\r` or `\u00` and two lowercase hex digits, any
/// other character as itself.
pub open spec fn json_escape(c: char) -> Seq<char> {
    if c == '"' {
        seq!['\\', '"']
    } else if c == '\\' {
        seq!['\\', '\\']
    } else if c == '\x08' {
        seq!['\\', 'b']
    } else if c == '\t' {
        seq!['\\', 't']
    } else if c == '\n' {
        seq!['\\', 'n']
    } else if c == '\x0c' {
        seq!['\\', 'f']
    } else if c == '\r' {
        seq!['\\', 'r']
    } else if (c as u32) < 0x20 {
        seq![
            '\\',
            'u',
            '0',
            '0',
            hex_digit_char((c as u32 / 16) as nat),
            hex_digit_char((c as u32 % 16) as nat),
        ]
    } else {
        seq![c]
    }
}

/// Each character of `s` as it is written inside a JSON string.
pub open spec fn json_escaped(s: Seq<char>) -> Seq<char>
    decreases s.len(),
{
    if s.len() == 0 {
        Seq::empty()
    } else {
        json_escaped(s.drop_last()) + json_escape(s.last())
    }
}

/// `s` as a JSON string literal.
pub open spec fn spec_json_string(s: Seq<char>) -> Seq<char> {
    seq!['"'] + json_escaped(s) + seq!['"']
}

/// Calls `serde_json::to_string` on a string: the text in double quotes,
/// each character written by `json_escape` (the escape table of
/// `serde_json`'s serializer). Writing a `str` into memory does not fail.
#[verifier::external_body]
pub(crate) fn json_string(s: &str) -> (res: String)
    ensures
        res@ == spec_json_string(s@),
{
    match serde_json::to_string(s) {
        Ok(t) => t,
        Err(_) => String::new(),
    }
}

} // verus!
