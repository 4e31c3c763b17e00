//! Read file tool: what a read of a file's bytes is answered with: numbered
//! lines with pagination, or a note for empty, image and binary files.

use vstd::prelude::*;

use crate::agent::tools::allowed_dir::AllowedDirectoriesConfig;
use crate::text::{
    utf8_decode,
    byte_len, byte_len_capped, chars_of, chars_start_with, join_chars, push_decimal, push_str,
    spec_decimal, spec_join, spec_split, split_chars, starts_with, string_of,
};

verus! {

/// Tool for reading file contents with line numbering and pagination.
pub struct ReadFileTool {
    /// Configuration for allowed directory access
    pub allowed_dirs_config: AllowedDirectoriesConfig,
}

/// The character cap of a single read.
pub open spec fn spec_max_chars() -> nat {
    128000
}

/// The number of lines a read returns by default.
pub open spec fn spec_default_limit() -> nat {
    2000
}

impl ReadFileTool {
    /// Maximum characters to return in a single read
    pub fn max_chars() -> (res: usize)
        ensures
            res == spec_max_chars(),
    {
        128000
    }

    /// Default number of lines to return per page
    pub fn default_limit() -> (res: usize)
        ensures
            res == spec_default_limit(),
    {
        2000
    }

    pub fn new(allowed_dirs_config: AllowedDirectoriesConfig) -> (res: Self)
        ensures
            res.allowed_dirs_config == allowed_dirs_config,
    {
        ReadFileTool { allowed_dirs_config }
    }
}

/// `mime` names an image type.
pub open spec fn spec_is_image_mime(mime: Seq<char>) -> bool {
    starts_with(mime, "image/"@)
}

/// Returns true if the MIME type is an image.
pub fn is_image_mime(mime: &str) -> (res: bool)
    ensures
        res == spec_is_image_mime(mime@),
{
    let v = chars_of(mime);
    chars_start_with(&v, "image/")
}

/// The image type that the leading bytes (magic number) of `b` announce; a
/// WebP file is a RIFF container with `WEBP` at offset 8.
pub open spec fn spec_detect_image_mime(b: Seq<u8>) -> Option<Seq<char>> {
    if b.len() >= 4 && b[0] == 0x89 && b[1] == 0x50 && b[2] == 0x4E && b[3] == 0x47 {
        Some("image/png"@)
    } else if b.len() >= 3 && b[0] == 0xFF && b[1] == 0xD8 && b[2] == 0xFF {
        Some("image/jpeg"@)
    } else if b.len() >= 3 && b[0] == 0x47 && b[1] == 0x49 && b[2] == 0x46 {
        Some("image/gif"@)
    } else if b.len() >= 12 && b[0] == 0x52 && b[1] == 0x49 && b[2] == 0x46 && b[3] == 0x46
        && b[8] == 0x57 && b[9] == 0x45 && b[10] == 0x42 && b[11] == 0x50 {
        Some("image/webp"@)
    } else if b.len() >= 2 && b[0] == 0x42 && b[1] == 0x4D {
        Some("image/bmp"@)
    } else {
        None
    }
}

/// Bytes that begin with `sig`.
pub open spec fn begins_with_bytes(b: Seq<u8>, sig: Seq<u8>) -> bool {
    sig.len() <= b.len() && b.subrange(0, sig.len() as int) == sig
}

/// A file is recognised by its signature: `\x89PNG` for PNG, `FF D8 FF`
/// for JPEG, `GIF` for GIF, `RIFF` with `WEBP` at offset 8 for WebP and
/// `BM` for BMP; whatever is recognised is an image type, and bytes with
/// none of these signatures are not recognised.
pub proof fn law_image_signatures(b: Seq<u8>)
    ensures
        begins_with_bytes(b, seq![0x89u8, 'P' as u8, 'N' as u8, 'G' as u8])
            ==> spec_detect_image_mime(b) == Some("image/png"@),
        begins_with_bytes(b, seq![0xFFu8, 0xD8u8, 0xFFu8]) ==> spec_detect_image_mime(b) == Some(
            "image/jpeg"@,
        ),
        begins_with_bytes(b, seq!['G' as u8, 'I' as u8, 'F' as u8]) ==> spec_detect_image_mime(b)
            == Some("image/gif"@),
        begins_with_bytes(b, seq!['R' as u8, 'I' as u8, 'F' as u8, 'F' as u8]) && b.len() >= 12
            && b.subrange(8, 12) == seq!['W' as u8, 'E' as u8, 'B' as u8, 'P' as u8]
            ==> spec_detect_image_mime(b) == Some("image/webp"@),
        begins_with_bytes(b, seq!['B' as u8, 'M' as u8]) ==> spec_detect_image_mime(b) == Some(
            "image/bmp"@,
        ),
        spec_detect_image_mime(b) matches Some(m) ==> spec_is_image_mime(m),
        spec_detect_image_mime(b) is Some ==> (begins_with_bytes(
            b,
            seq![0x89u8, 'P' as u8, 'N' as u8, 'G' as u8],
        ) || begins_with_bytes(b, seq![0xFFu8, 0xD8u8, 0xFFu8]) || begins_with_bytes(
            b,
            seq!['G' as u8, 'I' as u8, 'F' as u8],
        ) || (begins_with_bytes(b, seq!['R' as u8, 'I' as u8, 'F' as u8, 'F' as u8]) && b.len()
            >= 12 && b.subrange(8, 12) == seq!['W' as u8, 'E' as u8, 'B' as u8, 'P' as u8])
            || begins_with_bytes(b, seq!['B' as u8, 'M' as u8])),
{
    reveal_strlit("image/png");
    reveal_strlit("image/jpeg");
    reveal_strlit("image/gif");
    reveal_strlit("image/webp");
    reveal_strlit("image/bmp");
    reveal_strlit("image/");
    let png = seq![0x89u8, 'P' as u8, 'N' as u8, 'G' as u8];
    let jpg = seq![0xFFu8, 0xD8u8, 0xFFu8];
    let gif = seq!['G' as u8, 'I' as u8, 'F' as u8];
    let riff = seq!['R' as u8, 'I' as u8, 'F' as u8, 'F' as u8];
    let webp = seq!['W' as u8, 'E' as u8, 'B' as u8, 'P' as u8];
    let bmp = seq!['B' as u8, 'M' as u8];
    if begins_with_bytes(b, png) {
        assert(b[0] == png[0] && b[1] == png[1] && b[2] == png[2] && b[3] == png[3]);
    }
    if begins_with_bytes(b, jpg) {
        assert(b[0] == jpg[0] && b[1] == jpg[1] && b[2] == jpg[2]);
    }
    if begins_with_bytes(b, gif) {
        assert(b[0] == gif[0] && b[1] == gif[1] && b[2] == gif[2]);
    }
    if begins_with_bytes(b, riff) && b.len() >= 12 && b.subrange(8, 12) == webp {
        assert(b[0] == riff[0] && b[1] == riff[1] && b[2] == riff[2] && b[3] == riff[3]);
        assert(b[8] == b.subrange(8, 12)[0] && b[9] == b.subrange(8, 12)[1]);
        assert(b[10] == b.subrange(8, 12)[2] && b[11] == b.subrange(8, 12)[3]);
    }
    if begins_with_bytes(b, bmp) {
        assert(b[0] == bmp[0] && b[1] == bmp[1]);
    }
    if spec_detect_image_mime(b) is Some {
        if b.len() >= 4 && b[0] == 0x89 && b[1] == 0x50 && b[2] == 0x4E && b[3] == 0x47 {
            assert(b.subrange(0, 4) =~= png);
        } else if b.len() >= 3 && b[0] == 0xFF && b[1] == 0xD8 && b[2] == 0xFF {
            assert(b.subrange(0, 3) =~= jpg);
        } else if b.len() >= 3 && b[0] == 0x47 && b[1] == 0x49 && b[2] == 0x46 {
            assert(b.subrange(0, 3) =~= gif);
        } else if b.len() >= 12 && b[0] == 0x52 && b[1] == 0x49 && b[2] == 0x46 && b[3] == 0x46
            && b[8] == 0x57 && b[9] == 0x45 && b[10] == 0x42 && b[11] == 0x50 {
            assert(b.subrange(0, 4) =~= riff);
            assert(b.subrange(8, 12) =~= webp);
        } else {
            assert(b.subrange(0, 2) =~= bmp);
        }
    }
    if spec_detect_image_mime(b) is Some {
        let m = spec_detect_image_mime(b).unwrap();
        assert(m.subrange(0, 6) =~= "image/"@);
    }
}

/// Detect image MIME type from raw bytes using magic number signatures.
/// Supports PNG, JPEG, GIF, WebP, and BMP.
pub fn detect_image_mime(bytes: &[u8]) -> (res: Option<&'static str>)
    ensures
        res.is_some() == spec_detect_image_mime(bytes@).is_some(),
        res matches Some(m) ==> spec_detect_image_mime(bytes@) == Some(m@),
{
    proof {
        reveal_strlit("image/png");
        reveal_strlit("image/jpeg");
        reveal_strlit("image/gif");
        reveal_strlit("image/webp");
        reveal_strlit("image/bmp");
    }
    let n = bytes.len();
    if n >= 4 && bytes[0] == 0x89 && bytes[1] == 0x50 && bytes[2] == 0x4E && bytes[3] == 0x47 {
        Some("image/png")
    } else if n >= 3 && bytes[0] == 0xFF && bytes[1] == 0xD8 && bytes[2] == 0xFF {
        Some("image/jpeg")
    } else if n >= 3 && bytes[0] == 0x47 && bytes[1] == 0x49 && bytes[2] == 0x46 {
        Some("image/gif")
    } else if n >= 12 && bytes[0] == 0x52 && bytes[1] == 0x49 && bytes[2] == 0x46 && bytes[3]
        == 0x46 && bytes[8] == 0x57 && bytes[9] == 0x45 && bytes[10] == 0x42 && bytes[11] == 0x50 {
        Some("image/webp")
    } else if n >= 2 && bytes[0] == 0x42 && bytes[1] == 0x4D {
        Some("image/bmp")
    } else {
        None
    }
}

/// Line `n` (1-based) of a read, as shown: `"{n}| {line}"`.
pub open spec fn numbered_line(n: nat, line: Seq<char>) -> Seq<char> {
    spec_decimal(n) + "| "@ + line
}

/// The numbered lines `start .. start + count` of `lines`.
pub open spec fn numbered_lines(lines: Seq<Seq<char>>, start: nat, count: nat) -> Seq<Seq<char>> {
    Seq::new(count, |i: int| numbered_line((start + i + 1) as nat, lines[start + i]))
}

/// How many leading lines fit when each line costs its byte length plus one
/// (for the line break) and `budget` bytes are available.
pub open spec fn fit_count(ls: Seq<Seq<char>>, budget: nat) -> nat
    decreases ls.len(),
{
    if ls.len() == 0 {
        0
    } else if byte_len(ls[0]) + 1 > budget {
        0
    } else {
        1 + fit_count(ls.drop_first(), (budget - (byte_len(ls[0]) + 1)) as nat)
    }
}

/// The answer to a read of text `content` from line `offset` (1-based, at
/// least 1), at most `limit` lines, when `offset - 1 + limit` does not overflow.
pub open spec fn spec_read_text(content: Seq<char>, offset: nat, limit: nat) -> Seq<char> {
    let lines = spec_split(content, '\n');
    let total = lines.len();
    if offset > total {
        "Error: offset "@ + spec_decimal(offset) + " is beyond end of file ("@ + spec_decimal(total)
            + " lines)"@
    } else {
        let start = (offset - 1) as nat;
        let end = if start + limit < total { start + limit } else { total };
        let nl = numbered_lines(lines, start, (end - start) as nat);
        let result = spec_join(nl, "\n"@);
        if byte_len(result) > spec_max_chars() {
            let te = start + fit_count(nl, spec_max_chars());
            spec_join(nl.take(fit_count(nl, spec_max_chars()) as int), "\n"@)
                + "...\n\n(truncated, showing first "@ + spec_decimal(spec_max_chars())
                + " chars)\n(Showing lines "@ + spec_decimal(offset) + "-"@ + spec_decimal(te)
                + " of "@ + spec_decimal(total) + " total. Use offset="@ + spec_decimal(te + 1)
                + " to continue.)"@
        } else if end < total {
            result + "\n\n(Showing lines "@ + spec_decimal(offset) + "-"@ + spec_decimal(end)
                + " of "@ + spec_decimal(total) + ". Use offset="@ + spec_decimal(end + 1)
                + " to continue.)"@
        } else {
            result + "\n\n(End of file — "@ + spec_decimal(total) + " lines total)"@
        }
    }
}

/// The read overflows `usize` when computing the end line (no answer can
/// be given then).
pub open spec fn read_overflows(content: Seq<char>, offset: nat, limit: nat) -> bool {
    offset <= spec_split(content, '\n').len() && (offset - 1) + limit > usize::MAX
}

proof fn lemma_fit_count_le(ls: Seq<Seq<char>>, budget: nat)
    ensures
        fit_count(ls, budget) <= ls.len(),
    decreases ls.len(),
{
    if ls.len() > 0 && byte_len(ls[0]) + 1 <= budget {
        lemma_fit_count_le(ls.drop_first(), (budget - (byte_len(ls[0]) + 1)) as nat);
    }
}

proof fn lemma_byte_len_concat(a: Seq<char>, b: Seq<char>)
    ensures
        byte_len(a + b) == byte_len(a) + byte_len(b),
    decreases b.len(),
{
    if b.len() > 0 {
        lemma_byte_len_concat(a, b.drop_last());
        assert((a + b).drop_last() =~= a + b.drop_last());
    } else {
        assert(a + b =~= a);
    }
}

proof fn lemma_join_front(ls: Seq<Seq<char>>, sep: Seq<char>)
    requires
        ls.len() >= 2,
    ensures
        spec_join(ls, sep) == ls[0] + sep + spec_join(ls.drop_first(), sep),
    decreases ls.len(),
{
    let df = ls.drop_first();
    if ls.len() > 2 {
        lemma_join_front(ls.drop_last(), sep);
        assert(ls.drop_last().drop_first() =~= df.drop_last());
        assert(ls.drop_last()[0] == ls[0]);
        assert(df.last() == ls.last());
        assert(spec_join(df, sep) == spec_join(df.drop_last(), sep) + sep + df.last());
        assert(spec_join(ls, sep) =~= ls[0] + sep + spec_join(df, sep));
    } else {
        assert(df.len() == 1);
        assert(ls.drop_last().len() == 1);
        assert(spec_join(ls.drop_last(), sep) == ls[0]);
        assert(spec_join(df, sep) == ls[1]);
    }
}

/// When every line fits, the joined lines fit too.
proof fn lemma_all_fit_join(ls: Seq<Seq<char>>, budget: nat)
    requires
        fit_count(ls, budget) == ls.len(),
    ensures
        byte_len(spec_join(ls, "\n"@)) <= budget,
    decreases ls.len(),
{
    reveal_strlit("\n");
    if ls.len() == 1 {
    } else if ls.len() >= 2 {
        let rest = ls.drop_first();
        lemma_all_fit_join(rest, (budget - (byte_len(ls[0]) + 1)) as nat);
        lemma_join_front(ls, "\n"@);
        lemma_byte_len_concat(ls[0] + "\n"@, spec_join(rest, "\n"@));
        lemma_byte_len_concat(ls[0], "\n"@);
        assert(byte_len("\n"@) == 1) by {
            reveal_strlit("\n");
            assert("\n"@.len() == 1);
            assert("\n"@.drop_last() =~= Seq::<char>::empty());
            assert(byte_len(Seq::<char>::empty()) == 0);
            assert(('\n' as u32) < 0x80);
        }
    }
}

/// How many of the numbered lines fit within the character cap.
fn count_fitting(nl: &Vec<Vec<char>>, budget: usize) -> (k: usize)
    ensures
        k == fit_count(nl@.map_values(|p: Vec<char>| p@), budget as nat),
{
    let ghost views = nl@.map_values(|p: Vec<char>| p@);
    let mut used: usize = 0;
    let mut k: usize = 0;
    assert(views.skip(0) =~= views);
    while k < nl.len()
        invariant
            k <= nl@.len(),
            used <= budget,
            views == nl@.map_values(|p: Vec<char>| p@),
            fit_count(views, budget as nat) == k + fit_count(
                views.skip(k as int),
                (budget - used) as nat,
            ),
        decreases nl@.len() - k,
    {
        let w = byte_len_capped(&nl[k]);
        let ghost rest = views.skip(k as int);
        assert(rest[0] == nl@[k as int]@);
        assert(rest.drop_first() =~= views.skip(k + 1));
        if w >= budget - used {
            return k;
        }
        used = used + w + 1;
        k = k + 1;
    }
    assert(views.skip(k as int).len() == 0);
    k
}

/// The answer to a read of text `content`; `None` where the end line
/// overflows (`read_overflows`).
pub fn read_text(content: &str, offset: usize, limit: usize) -> (res: Option<String>)
    requires
        offset >= 1,
    ensures
        res is None <==> read_overflows(content@, offset as nat, limit as nat),
        res matches Some(r) ==> r@ == spec_read_text(content@, offset as nat, limit as nat),
{
    proof {
        reveal_strlit("Error: offset ");
        reveal_strlit(" is beyond end of file (");
        reveal_strlit(" lines)");
    }
    let chars = chars_of(content);
    let lines = split_chars(&chars, '\n');
    let ghost lv = spec_split(content@, '\n');
    let total = lines.len();
    if offset > total {
        let mut out: Vec<char> = Vec::new();
        push_str(&mut out, "Error: offset ");
        push_decimal(&mut out, offset as u64);
        push_str(&mut out, " is beyond end of file (");
        push_decimal(&mut out, total as u64);
        push_str(&mut out, " lines)");
        return Some(string_of(&out));
    }
    let start = offset - 1;
    if limit > usize::MAX - start {
        return None;
    }
    let end = if start + limit < total { start + limit } else { total };
    let mut numbered: Vec<Vec<char>> = Vec::new();
    let mut i: usize = start;
    while i < end
        invariant
            start <= i <= end <= total,
            total == lv.len(),
            lines@.len() == lv.len(),
            forall|k: int| 0 <= k < lines@.len() ==> #[trigger] lines@[k]@ == lv[k],
            numbered@.len() == i - start,
            forall|k: int|
                0 <= k < numbered@.len() ==> #[trigger] numbered@[k]@ == numbered_line(
                    (start + k + 1) as nat,
                    lv[start + k],
                ),
        decreases end - i,
    {
        let mut line: Vec<char> = Vec::new();
        push_decimal(&mut line, (i + 1) as u64);
        push_str(&mut line, "| ");
        let mut body = lines[i].clone();
        line.append(&mut body);
        proof {
            reveal_strlit("| ");
        }
        numbered.push(line);
        i = i + 1;
    }
    let ghost nl = numbered_lines(lv, start as nat, (end - start) as nat);
    assert(numbered@.map_values(|p: Vec<char>| p@) =~= nl);
    let mut result = join_chars(&numbered, "\n");
    proof {
        reveal_strlit("\n");
    }
    if byte_len_capped(&result) > 128000 {
        let k = count_fitting(&numbered, 128000);
        proof {
            lemma_fit_count_le(nl, 128000);
            if k == nl.len() {
                lemma_all_fit_join(nl, 128000);
            }
        }
        let trimmed_end = start + k;
        let mut trimmed: Vec<Vec<char>> = Vec::new();
        let mut j: usize = 0;
        while j < k
            invariant
                j <= k <= numbered@.len(),
                trimmed@.len() == j,
                forall|m: int| 0 <= m < j ==> #[trigger] trimmed@[m]@ == numbered@[m]@,
            decreases k - j,
        {
            trimmed.push(numbered[j].clone());
            j = j + 1;
        }
        assert(trimmed@.map_values(|p: Vec<char>| p@) =~= nl.take(k as int));
        let mut out = join_chars(&trimmed, "\n");
        push_str(&mut out, "...\n\n(truncated, showing first ");
        push_decimal(&mut out, 128000);
        push_str(&mut out, " chars)\n(Showing lines ");
        push_decimal(&mut out, offset as u64);
        push_str(&mut out, "-");
        push_decimal(&mut out, trimmed_end as u64);
        push_str(&mut out, " of ");
        push_decimal(&mut out, total as u64);
        push_str(&mut out, " total. Use offset=");
        push_decimal(&mut out, (trimmed_end + 1) as u64);
        push_str(&mut out, " to continue.)");
        proof {
            reveal_strlit("...\n\n(truncated, showing first ");
            reveal_strlit(" chars)\n(Showing lines ");
            reveal_strlit("-");
            reveal_strlit(" of ");
            reveal_strlit(" total. Use offset=");
            reveal_strlit(" to continue.)");
        }
        return Some(string_of(&out));
    }
    if end < total {
        push_str(&mut result, "\n\n(Showing lines ");
        push_decimal(&mut result, offset as u64);
        push_str(&mut result, "-");
        push_decimal(&mut result, end as u64);
        push_str(&mut result, " of ");
        push_decimal(&mut result, total as u64);
        push_str(&mut result, ". Use offset=");
        push_decimal(&mut result, (end + 1) as u64);
        push_str(&mut result, " to continue.)");
    } else {
        push_str(&mut result, "\n\n(End of file — ");
        push_decimal(&mut result, total as u64);
        push_str(&mut result, " lines total)");
    }
    Some(string_of(&result))
}

/// The MIME type `mime_guess` guesses from the extension of `path`.
pub uninterp spec fn spec_guess_mime(path: Seq<char>) -> Option<Seq<char>>;

/// Calls `mime_guess::from_path(path).first()` and renders the guess as text.
/// The guess depends on the path's extension alone; it is named, not stated.
#[verifier::external_body]
fn guess_mime(path: &str) -> (res: Option<String>)
    ensures
        res.is_some() == spec_guess_mime(path@).is_some(),
        res matches Some(m) ==> spec_guess_mime(path@) == Some(m@),
{
    mime_guess::from_path(path).first().map(|m| m.as_ref().to_string())
}

/// The offset a read starts at: the given one, 1 by default, at least 1.
pub open spec fn read_offset(offset: Option<i64>) -> nat {
    let o = match offset {
        Some(v) => v,
        None => 1,
    };
    let m: i64 = if o < 1 { 1 } else { o };
    (#[verifier::truncate] (m as usize)) as nat
}

/// The line limit of a read: the given one (as an unsigned size, so a
/// negative value wraps), `default_limit` by default.
pub open spec fn read_limit(limit: Option<i64>) -> nat {
    match limit {
        Some(v) => (#[verifier::truncate] (v as usize)) as nat,
        None => spec_default_limit(),
    }
}

/// What a read of the file at `path` (as displayed) with bytes `raw` is
/// answered with, where the read does not overflow.
pub open spec fn spec_read_answer(
    path: Seq<char>,
    raw: Seq<u8>,
    offset: Option<i64>,
    limit: Option<i64>,
) -> Seq<char> {
    if raw.len() == 0 {
        "(Empty file: "@ + path + ")"@
    } else if spec_detect_image_mime(raw) is Some && spec_is_image_mime(
        spec_detect_image_mime(raw).unwrap(),
    ) {
        "(Image file: "@ + path + ", "@ + spec_decimal(raw.len()) + " bytes, MIME: "@
            + spec_detect_image_mime(raw).unwrap()
            + ")\n\nImage content cannot be displayed as text. The file is available at: "@ + path
    } else if !vstd::utf8::valid_utf8(raw) {
        "Error: Cannot read binary file "@ + path + " (MIME: "@ + match spec_guess_mime(path) {
            Some(m) => m,
            None => "unknown"@,
        } + "). Only UTF-8 text and images are supported."@
    } else {
        spec_read_text(vstd::utf8::decode_utf8(raw), read_offset(offset), read_limit(limit))
    }
}

/// The read overflows while computing its end line.
pub open spec fn read_answer_overflows(raw: Seq<u8>, offset: Option<i64>, limit: Option<i64>) -> bool {
    &&& raw.len() > 0
    &&& !(spec_detect_image_mime(raw) is Some && spec_is_image_mime(
        spec_detect_image_mime(raw).unwrap(),
    ))
    &&& vstd::utf8::valid_utf8(raw)
    &&& read_offset(offset) == 0 || read_overflows(vstd::utf8::decode_utf8(raw), read_offset(offset), read_limit(limit))
}

impl ReadFileTool {
    /// What a read of the file at `path` (as displayed) whose bytes are `raw`
    /// is answered with, given the `offset` and `limit` arguments. `None`
    /// exactly where the end line overflows.
    pub fn answer(path: &str, raw: Vec<u8>, offset: Option<i64>, limit: Option<i64>) -> (res:
        Option<String>)
        ensures
            res is None <==> read_answer_overflows(raw@, offset, limit),
            res matches Some(r) ==> r@ == spec_read_answer(path@, raw@, offset, limit),
    {
        proof {
            reveal_strlit("(Empty file: ");
            reveal_strlit(")");
            reveal_strlit("(Image file: ");
            reveal_strlit(", ");
            reveal_strlit(" bytes, MIME: ");
            reveal_strlit(")\n\nImage content cannot be displayed as text. The file is available at: ");
            reveal_strlit("Error: Cannot read binary file ");
            reveal_strlit(" (MIME: ");
            reveal_strlit("unknown");
            reveal_strlit("). Only UTF-8 text and images are supported.");
        }
        if raw.len() == 0 {
            let mut out: Vec<char> = Vec::new();
            push_str(&mut out, "(Empty file: ");
            push_str(&mut out, path);
            push_str(&mut out, ")");
            return Some(string_of(&out));
        }
        if let Some(mime) = detect_image_mime(raw.as_slice()) {
            if is_image_mime(mime) {
                let size = raw.len();
                let mut out: Vec<char> = Vec::new();
                push_str(&mut out, "(Image file: ");
                push_str(&mut out, path);
                push_str(&mut out, ", ");
                push_decimal(&mut out, size as u64);
                push_str(&mut out, " bytes, MIME: ");
                push_str(&mut out, mime);
                push_str(
                    &mut out,
                    ")\n\nImage content cannot be displayed as text. The file is available at: ",
                );
                push_str(&mut out, path);
                return Some(string_of(&out));
            }
        }
        let o: i64 = match offset {
            Some(v) => v,
            None => 1,
        };
        let m: i64 = if o < 1 { 1 } else { o };
        let start_line: usize = #[verifier::truncate] (m as usize);
        let lim: usize = match limit {
            Some(v) => #[verifier::truncate] (v as usize),
            None => Self::default_limit(),
        };
        match utf8_decode(raw) {
            Some(content) => {
                if start_line == 0 {
                    return None;
                }
                read_text(content.as_str(), start_line, lim)
            },
            None => {
                let mut out: Vec<char> = Vec::new();
                push_str(&mut out, "Error: Cannot read binary file ");
                push_str(&mut out, path);
                push_str(&mut out, " (MIME: ");
                match guess_mime(path) {
                    Some(m) => push_str(&mut out, m.as_str()),
                    None => push_str(&mut out, "unknown"),
                }
                push_str(&mut out, "). Only UTF-8 text and images are supported.");
                Some(string_of(&out))
            },
        }
    }
}

/// What looking at the requested path found.
#[derive(Debug, Clone, PartialEq, Eq)]
pub enum FileRead {
    /// Nothing exists at the path.
    Missing,
    /// The path is not a regular file.
    NotAFile,
    /// Reading the file failed; the error's message.
    ReadFailed(String),
    /// The file's bytes.
    Bytes(Vec<u8>),
}

impl ReadFileTool {
    /// What a read of the file at `path` (as displayed) is answered with,
    /// given what looking at it found and the `offset` and `limit`
    /// arguments: an error text for a missing path, a path that is not a
    /// file or a failed read, else the answer for its bytes. `None` exactly
    /// where the end line overflows.
    pub fn respond(path: &str, read: FileRead, offset: Option<i64>, limit: Option<i64>) -> (res:
        Option<String>)
        ensures
            match read {
                FileRead::Missing => res matches Some(r) && r@ == "Error: File not found: "@ + path@,
                FileRead::NotAFile => res matches Some(r) && r@ == "Error: Not a file: "@ + path@,
                FileRead::ReadFailed(e) => res matches Some(r) && r@ == "Error reading file: "@ + e@,
                FileRead::Bytes(raw) => {
                    &&& res is None <==> read_answer_overflows(raw@, offset, limit)
                    &&& res matches Some(r) ==> r@ == spec_read_answer(path@, raw@, offset, limit)
                },
            },
    {
        proof {
            reveal_strlit("Error: File not found: ");
            reveal_strlit("Error: Not a file: ");
            reveal_strlit("Error reading file: ");
        }
        let mut out: Vec<char> = Vec::new();
        match read {
            FileRead::Missing => {
                push_str(&mut out, "Error: File not found: ");
                push_str(&mut out, path);
            },
            FileRead::NotAFile => {
                push_str(&mut out, "Error: Not a file: ");
                push_str(&mut out, path);
            },
            FileRead::ReadFailed(e) => {
                push_str(&mut out, "Error reading file: ");
                push_str(&mut out, e.as_str());
            },
            FileRead::Bytes(raw) => {
                return Self::answer(path, raw, offset, limit);
            },
        }
        Some(string_of(&out))
    }
}

} // verus!
