//! Text primitives shared by the tools: std string operations with
//! contracts, and the small string algorithms the tools are built from.
//!
//! Strings are worked on as `Vec<char>` (their view, `Seq<char>`), and turned
//! back into `String` at the end.

use vstd::prelude::*;

verus! {

/// String equality on `&str`: the same characters in the same order.
pub(crate) fn str_eq(a: &str, b: &str) -> (res: bool)
    ensures
        res == (a@ == b@),
{
    chars_eq(&chars_of(a), &chars_of(b))
}

/// The characters of `s` (std's `str::chars`, collected).
#[verifier::external_body]
pub(crate) fn chars_of(s: &str) -> (res: Vec<char>)
    ensures
        res@ == s@,
{
    s.chars().collect()
}

/// The string made of `v` (std's `String: FromIterator<char>`).
#[verifier::external_body]
pub(crate) fn string_of(v: &Vec<char>) -> (res: String)
    ensures
        res@ == v@,
{
    v.iter().collect()
}

/// Appends the characters of `s` to `buf`.
pub fn push_str(buf: &mut Vec<char>, s: &str)
    ensures
        final(buf)@ == old(buf)@ + s@,
{
    let mut v = chars_of(s);
    buf.append(&mut v);
}

/// The decimal digit for `d < 10`.
pub open spec fn digit_char(d: nat) -> char {
    if d == 0 {
        '0'
    } else if d == 1 {
        '1'
    } else if d == 2 {
        '2'
    } else if d == 3 {
        '3'
    } else if d == 4 {
        '4'
    } else if d == 5 {
        '5'
    } else if d == 6 {
        '6'
    } else if d == 7 {
        '7'
    } else if d == 8 {
        '8'
    } else {
        '9'
    }
}

/// The decimal representation of `n`, as `{}` formats an unsigned integer.
pub open spec fn spec_decimal(n: nat) -> Seq<char>
    decreases n,
{
    if n < 10 {
        seq![digit_char(n)]
    } else {
        spec_decimal(n / 10).push(digit_char(n % 10))
    }
}

/// Appends the decimal representation of `n` to `buf`.
pub fn push_decimal(buf: &mut Vec<char>, n: u64)
    ensures
        final(buf)@ == old(buf)@ + spec_decimal(n as nat),
    decreases n,
{
    let ghost pre = buf@;
    if n >= 10 {
        push_decimal(buf, n / 10);
    }
    let d: u64 = n % 10;
    let c = if d == 0 {
        '0'
    } else if d == 1 {
        '1'
    } else if d == 2 {
        '2'
    } else if d == 3 {
        '3'
    } else if d == 4 {
        '4'
    } else if d == 5 {
        '5'
    } else if d == 6 {
        '6'
    } else if d == 7 {
        '7'
    } else if d == 8 {
        '8'
    } else {
        '9'
    };
    buf.push(c);
    assert(buf@ =~= pre + spec_decimal(n as nat));
}

/// The decimal representation of `n`.
pub fn decimal(n: u64) -> (res: String)
    ensures
        res@ == spec_decimal(n as nat),
{
    let mut buf: Vec<char> = Vec::new();
    push_decimal(&mut buf, n);
    assert(buf@ =~= spec_decimal(n as nat));
    string_of(&buf)
}

/// The lowercase hexadecimal digit for `d < 16`.
pub open spec fn hex_digit_char(d: nat) -> char {
    if d < 10 {
        digit_char(d)
    } else if d == 10 {
        'a'
    } else if d == 11 {
        'b'
    } else if d == 12 {
        'c'
    } else if d == 13 {
        'd'
    } else if d == 14 {
        'e'
    } else {
        'f'
    }
}

/// The lowercase hexadecimal digit for `d < 16`.
pub fn hex_digit(d: u32) -> (res: char)
    requires
        d < 16,
    ensures
        res == hex_digit_char(d as nat),
{
    if d == 0 {
        '0'
    } else if d == 1 {
        '1'
    } else if d == 2 {
        '2'
    } else if d == 3 {
        '3'
    } else if d == 4 {
        '4'
    } else if d == 5 {
        '5'
    } else if d == 6 {
        '6'
    } else if d == 7 {
        '7'
    } else if d == 8 {
        '8'
    } else if d == 9 {
        '9'
    } else if d == 10 {
        'a'
    } else if d == 11 {
        'b'
    } else if d == 12 {
        'c'
    } else if d == 13 {
        'd'
    } else if d == 14 {
        'e'
    } else {
        'f'
    }
}

/// The hexadecimal representation of `n`, as `{:x}` formats an unsigned
/// integer: lowercase digits, no leading zeros.
pub open spec fn spec_hex(n: nat) -> Seq<char>
    decreases n,
{
    if n < 16 {
        seq![hex_digit_char(n)]
    } else {
        spec_hex(n / 16).push(hex_digit_char(n % 16))
    }
}

/// Appends the hexadecimal representation of `n` to `buf`.
pub fn push_hex(buf: &mut Vec<char>, n: u32)
    ensures
        final(buf)@ == old(buf)@ + spec_hex(n as nat),
    decreases n,
{
    let ghost pre = buf@;
    if n >= 16 {
        push_hex(buf, n / 16);
    }
    buf.push(hex_digit(n % 16));
    assert(buf@ =~= pre + spec_hex(n as nat));
}

/// The position of the first `c` in `s`.
pub open spec fn index_of(s: Seq<char>, c: char) -> Option<int>
    decreases s.len(),
{
    if s.len() == 0 {
        None
    } else if s[0] == c {
        Some(0)
    } else {
        match index_of(s.drop_first(), c) {
            Some(i) => Some(i + 1),
            None => None,
        }
    }
}

/// The pieces of `s` between occurrences of `sep` (std's `str::split` with a
/// `char` pattern): one more piece than there are separators.
pub open spec fn spec_split(s: Seq<char>, sep: char) -> Seq<Seq<char>>
    decreases s.len(),
{
    match index_of(s, sep) {
        Some(i) => if 0 <= i < s.len() {
            seq![s.subrange(0, i)] + spec_split(s.subrange(i + 1, s.len() as int), sep)
        } else {
            seq![s]
        },
        None => seq![s],
    }
}

proof fn lemma_index_of_bounds(s: Seq<char>, c: char)
    ensures
        index_of(s, c) matches Some(i) ==> 0 <= i < s.len() && s[i] == c,
        index_of(s, c) is None ==> forall|j: int| 0 <= j < s.len() ==> s[j] != c,
    decreases s.len(),
{
    if s.len() > 0 && s[0] != c {
        lemma_index_of_bounds(s.drop_first(), c);
        if index_of(s.drop_first(), c) is None {
            assert forall|j: int| 0 <= j < s.len() implies s[j] != c by {
                if j > 0 {
                    assert(s[j] == s.drop_first()[j - 1]);
                }
            }
        }
    }
}

proof fn lemma_index_of_after_free_prefix(pre: Seq<char>, c: char, rest: Seq<char>)
    requires
        forall|j: int| 0 <= j < pre.len() ==> pre[j] != c,
    ensures
        index_of(pre + seq![c] + rest, c) == Some(pre.len() as int),
    decreases pre.len(),
{
    if pre.len() > 0 {
        lemma_index_of_after_free_prefix(pre.drop_first(), c, rest);
        assert((pre + seq![c] + rest).drop_first() =~= pre.drop_first() + seq![c] + rest);
    }
}

/// Splitting a separator-free piece, a separator and the rest.
proof fn lemma_split_step(pre: Seq<char>, sep: char, rest: Seq<char>)
    requires
        forall|j: int| 0 <= j < pre.len() ==> pre[j] != sep,
    ensures
        spec_split(pre + seq![sep] + rest, sep) == seq![pre] + spec_split(rest, sep),
{
    let t = pre + seq![sep] + rest;
    lemma_index_of_after_free_prefix(pre, sep, rest);
    assert(t.subrange(0, pre.len() as int) =~= pre);
    assert(t.subrange(pre.len() + 1int, t.len() as int) =~= rest);
}

proof fn lemma_split_free(s: Seq<char>, sep: char)
    requires
        forall|j: int| 0 <= j < s.len() ==> s[j] != sep,
    ensures
        spec_split(s, sep) == seq![s],
{
    lemma_index_of_bounds(s, sep);
}

/// Splits `s` at every `sep`.
pub fn split_chars(s: &Vec<char>, sep: char) -> (res: Vec<Vec<char>>)
    ensures
        res@.len() == spec_split(s@, sep).len(),
        forall|i: int| 0 <= i < res@.len() ==> #[trigger] res@[i]@ == spec_split(s@, sep)[i],
{
    let mut pieces: Vec<Vec<char>> = Vec::new();
    let mut cur: Vec<char> = Vec::new();
    let ghost done: Seq<Seq<char>> = Seq::empty();
    let mut i: usize = 0;
    assert(cur@ + s@.subrange(0, s@.len() as int) =~= s@);
    assert(done + spec_split(s@, sep) =~= spec_split(s@, sep));
    while i < s.len()
        invariant
            i <= s@.len(),
            pieces@.len() == done.len(),
            forall|k: int| 0 <= k < done.len() ==> #[trigger] pieces@[k]@ == done[k],
            forall|j: int| 0 <= j < cur@.len() ==> cur@[j] != sep,
            done + spec_split(cur@ + s@.subrange(i as int, s@.len() as int), sep) == spec_split(
                s@,
                sep,
            ),
        decreases s@.len() - i,
    {
        let c = s[i];
        let ghost rest = s@.subrange(i + 1, s@.len() as int);
        assert(s@.subrange(i as int, s@.len() as int) =~= seq![c] + rest);
        if c == sep {
            proof {
                lemma_split_step(cur@, sep, rest);
                assert(cur@ + (seq![c] + rest) =~= cur@ + seq![sep] + rest);
                done = done.push(cur@);
            }
            pieces.push(cur);
            cur = Vec::new();
            assert(cur@ + rest =~= rest);
        } else {
            let ghost before = cur@;
            cur.push(c);
            assert(cur@ + rest =~= before + (seq![c] + rest));
        }
        i = i + 1;
    }
    proof {
        assert(cur@ + s@.subrange(i as int, s@.len() as int) =~= cur@);
        lemma_split_free(cur@, sep);
        done = done.push(cur@);
    }
    pieces.push(cur);
    assert(done =~= spec_split(s@, sep));
    pieces
}

/// The pieces joined with `sep` between them (std's `join` on slices).
pub open spec fn spec_join(pieces: Seq<Seq<char>>, sep: Seq<char>) -> Seq<char>
    decreases pieces.len(),
{
    if pieces.len() == 0 {
        Seq::empty()
    } else if pieces.len() == 1 {
        pieces[0]
    } else {
        spec_join(pieces.drop_last(), sep) + sep + pieces.last()
    }
}

/// Joins `pieces` with `sep` between them.
pub fn join_chars(pieces: &Vec<Vec<char>>, sep: &str) -> (res: Vec<char>)
    ensures
        res@ == spec_join(pieces@.map_values(|p: Vec<char>| p@), sep@),
{
    let ghost views = pieces@.map_values(|p: Vec<char>| p@);
    let mut res: Vec<char> = Vec::new();
    let mut i: usize = 0;
    while i < pieces.len()
        invariant
            i <= pieces@.len(),
            views == pieces@.map_values(|p: Vec<char>| p@),
            res@ == spec_join(views.take(i as int), sep@),
        decreases pieces@.len() - i,
    {
        if i > 0 {
            push_str(&mut res, sep);
        }
        let mut piece = pieces[i].clone();
        res.append(&mut piece);
        assert(views.take(i + 1).drop_last() =~= views.take(i as int));
        i = i + 1;
    }
    assert(views.take(pieces@.len() as int) =~= views);
    res
}

/// `s` starts with `prefix`.
pub open spec fn starts_with(s: Seq<char>, prefix: Seq<char>) -> bool {
    prefix.len() <= s.len() && s.subrange(0, prefix.len() as int) == prefix
}

/// Whether `s` starts with `prefix` (std's `str::starts_with`).
pub fn chars_start_with(s: &Vec<char>, prefix: &str) -> (res: bool)
    ensures
        res == starts_with(s@, prefix@),
{
    let p = chars_of(prefix);
    if p.len() > s.len() {
        return false;
    }
    let mut i: usize = 0;
    while i < p.len()
        invariant
            i <= p@.len() <= s@.len(),
            p@ == prefix@,
            forall|j: int| 0 <= j < i ==> s@[j] == p@[j],
        decreases p@.len() - i,
    {
        if s[i] != p[i] {
            return false;
        }
        i = i + 1;
    }
    assert(s@.subrange(0, p@.len() as int) =~= p@);
    true
}

/// The number of bytes `c` takes in UTF-8 (std's `char::len_utf8`).
pub open spec fn char_width(c: char) -> nat {
    if (c as u32) < 0x80 {
        1
    } else if (c as u32) < 0x800 {
        2
    } else if (c as u32) < 0x10000 {
        3
    } else {
        4
    }
}

/// The number of bytes of the UTF-8 encoding of `s` (std's `str::len`).
pub open spec fn byte_len(s: Seq<char>) -> nat
    decreases s.len(),
{
    if s.len() == 0 {
        0
    } else {
        byte_len(s.drop_last()) + char_width(s.last())
    }
}

/// The number of bytes `c` takes in UTF-8.
pub fn width_of(c: char) -> (res: usize)
    ensures
        res == char_width(c),
{
    let v = c as u32;
    if v < 0x80 {
        1
    } else if v < 0x800 {
        2
    } else if v < 0x10000 {
        3
    } else {
        4
    }
}

/// The UTF-8 byte length of `v`, or `usize::MAX` if it is larger.
pub fn byte_len_capped(v: &Vec<char>) -> (res: usize)
    ensures
        res == if byte_len(v@) < usize::MAX { byte_len(v@) } else { usize::MAX as nat },
{
    let mut total: usize = 0;
    let mut i: usize = 0;
    while i < v.len()
        invariant
            i <= v@.len(),
            total == if byte_len(v@.take(i as int)) < usize::MAX {
                byte_len(v@.take(i as int))
            } else {
                usize::MAX as nat
            },
        decreases v@.len() - i,
    {
        assert(v@.take(i + 1).drop_last() =~= v@.take(i as int));
        total = total.saturating_add(width_of(v[i]));
        i = i + 1;
    }
    assert(v@.take(v@.len() as int) =~= v@);
    total
}

/// Decodes `bytes` as UTF-8 (std's `String::from_utf8`).
#[verifier::external_body]
pub(crate) fn utf8_decode(bytes: Vec<u8>) -> (res: Option<String>)
    ensures
        res is Some <==> vstd::utf8::valid_utf8(bytes@),
        res matches Some(s) ==> s@ == vstd::utf8::decode_utf8(bytes@),
{
    String::from_utf8(bytes).ok()
}

/// Whether `a` and `b` hold the same characters.
pub fn chars_eq(a: &Vec<char>, b: &Vec<char>) -> (res: bool)
    ensures
        res == (a@ == b@),
{
    if a.len() != b.len() {
        return false;
    }
    let mut i: usize = 0;
    while i < a.len()
        invariant
            i <= a@.len() == b@.len(),
            forall|j: int| 0 <= j < i ==> a@[j] == b@[j],
        decreases a@.len() - i,
    {
        if a[i] != b[i] {
            return false;
        }
        i = i + 1;
    }
    assert(a@ =~= b@);
    true
}

/// The lowercase form of `s` (std's `str::to_lowercase`, which follows the
/// Unicode case tables; named, not stated).
pub uninterp spec fn spec_to_lowercase(s: Seq<char>) -> Seq<char>;

/// Calls std's `str::to_lowercase`.
#[verifier::external_body]
pub(crate) fn to_lowercase(s: &str) -> (res: String)
    ensures
        res@ == spec_to_lowercase(s@),
{
    s.to_lowercase()
}

/// Whether `c` is white space: it has the Unicode `White_Space` property,
/// as `char::is_whitespace` tests. These are the tab, line feed, vertical
/// tab, form feed and carriage return, the space, next line, no-break
/// space, ogham space mark, the spaces U+2000 to U+200A, the line and
/// paragraph separators, the narrow no-break space, the medium mathematical
/// space and the ideographic space.
pub open spec fn spec_is_whitespace(c: char) -> bool {
    let u = c as u32;
    ||| 0x09 <= u && u <= 0x0d
    ||| u == 0x20 || u == 0x85 || u == 0xa0 || u == 0x1680
    ||| 0x2000 <= u && u <= 0x200a
    ||| u == 0x2028 || u == 0x2029 || u == 0x202f || u == 0x205f || u == 0x3000
}

/// Whether `c` is white space.
pub(crate) fn is_whitespace(c: char) -> (res: bool)
    ensures
        res == spec_is_whitespace(c),
{
    let u = c as u32;
    (0x09 <= u && u <= 0x0d) || u == 0x20 || u == 0x85 || u == 0xa0 || u == 0x1680 || (0x2000 <= u
        && u <= 0x200a) || u == 0x2028 || u == 0x2029 || u == 0x202f || u == 0x205f || u == 0x3000
}

/// `s` holds `pat` at position `i`.
pub open spec fn occurs_at(s: Seq<char>, pat: Seq<char>, i: int) -> bool {
    0 <= i && i + pat.len() <= s.len() && s.subrange(i, i + pat.len()) == pat
}

/// `s` contains `pat` (std's `str::contains` with a string pattern).
pub open spec fn contains_seq(s: Seq<char>, pat: Seq<char>) -> bool {
    exists|i: int| occurs_at(s, pat, i)
}

/// Whether `s` holds `pat` at position `i`.
pub fn chars_occur_at(s: &Vec<char>, pat: &Vec<char>, i: usize) -> (res: bool)
    ensures
        res == occurs_at(s@, pat@, i as int),
{
    if i > s.len() || pat.len() > s.len() - i {
        return false;
    }
    let n = s.len();
    let mut k: usize = 0;
    while k < pat.len()
        invariant
            n == s@.len(),
            i + pat@.len() <= s@.len(),
            k <= pat@.len(),
            forall|j: int| 0 <= j < k ==> s@[i + j] == pat@[j],
        decreases pat@.len() - k,
    {
        if s[i + k] != pat[k] {
            assert(s@.subrange(i as int, i + pat@.len())[k as int] != pat@[k as int]);
            return false;
        }
        k = k + 1;
    }
    assert(s@.subrange(i as int, i + pat@.len()) =~= pat@);
    true
}

/// Whether `s` contains `pat`.
pub fn contains_str(s: &str, pat: &str) -> (res: bool)
    ensures
        res == contains_seq(s@, pat@),
{
    let sv = chars_of(s);
    let pv = chars_of(pat);
    let mut i: usize = 0;
    while i < sv.len()
        invariant
            sv@ == s@,
            pv@ == pat@,
            forall|j: int| 0 <= j < i ==> !occurs_at(s@, pat@, j),
        decreases sv@.len() - i,
    {
        if chars_occur_at(&sv, &pv, i) {
            return true;
        }
        i = i + 1;
    }
    if chars_occur_at(&sv, &pv, i) {
        return true;
    }
    assert forall|j: int| !occurs_at(s@, pat@, j) by {
        if 0 <= j && j + pat@.len() <= s@.len() {
            assert(j <= i);
        }
    }
    false
}

/// The text std's `String::from_utf8_lossy` makes of `bytes` (invalid
/// sequences become U+FFFD; named, not stated beyond valid input).
pub uninterp spec fn spec_utf8_lossy(bytes: Seq<u8>) -> Seq<char>;

/// Calls std's `String::from_utf8_lossy`. On valid UTF-8 it decodes exactly.
#[verifier::external_body]
pub(crate) fn utf8_lossy(bytes: &[u8]) -> (res: String)
    ensures
        res@ == spec_utf8_lossy(bytes@),
        vstd::utf8::valid_utf8(bytes@) ==> res@ == vstd::utf8::decode_utf8(bytes@),
{
    String::from_utf8_lossy(bytes).to_string()
}

/// The decimal representation of a signed integer, as `{}` formats it.
pub open spec fn spec_signed_decimal(v: int) -> Seq<char> {
    if v < 0 {
        "-"@ + spec_decimal((-v) as nat)
    } else {
        spec_decimal(v as nat)
    }
}

/// Appends the decimal representation of `v` to `buf`.
pub fn push_signed_decimal(buf: &mut Vec<char>, v: i32)
    ensures
        final(buf)@ == old(buf)@ + spec_signed_decimal(v as int),
{
    proof {
        reveal_strlit("-");
    }
    if v < 0 {
        let ghost pre = buf@;
        buf.push('-');
        let m: i64 = -(v as i64);
        push_decimal(buf, m as u64);
        assert(buf@ =~= pre + spec_signed_decimal(v as int));
    } else {
        push_decimal(buf, v as u64);
    }
}

/// Every character of `s` is white space.
pub open spec fn all_whitespace(s: Seq<char>) -> bool {
    forall|i: int| 0 <= i < s.len() ==> spec_is_whitespace(#[trigger] s[i])
}

/// Whether `s` is only white space (std's `s.trim().is_empty()`).
pub fn is_blank(s: &str) -> (res: bool)
    ensures
        res == all_whitespace(s@),
{
    let v = chars_of(s);
    let mut i: usize = 0;
    while i < v.len()
        invariant
            v@ == s@,
            i <= v@.len(),
            forall|j: int| 0 <= j < i ==> spec_is_whitespace(#[trigger] s@[j]),
        decreases v@.len() - i,
    {
        if !is_whitespace(v[i]) {
            return false;
        }
        i = i + 1;
    }
    true
}

/// The characters `from .. to` of `v`.
pub fn slice_chars(v: &Vec<char>, from: usize, to: usize) -> (res: Vec<char>)
    requires
        from <= to <= v@.len(),
    ensures
        res@ == v@.subrange(from as int, to as int),
{
    let mut res: Vec<char> = Vec::new();
    let mut i: usize = from;
    while i < to
        invariant
            from <= i <= to <= v@.len(),
            res@ == v@.subrange(from as int, i as int),
        decreases to - i,
    {
        res.push(v[i]);
        assert(res@ =~= v@.subrange(from as int, i + 1));
        i = i + 1;
    }
    res
}

/// `s` with its first `n` occurrences of the non-empty `pat` replaced by
/// `rep`, matched left to right without overlap (std's `str::replacen`).
pub open spec fn spec_replace_n(s: Seq<char>, pat: Seq<char>, rep: Seq<char>, n: nat) -> Seq<char>
    decreases s.len(),
{
    if s.len() == 0 || n == 0 || pat.len() == 0 {
        s
    } else if pat.len() <= s.len() && s.subrange(0, pat.len() as int) == pat {
        rep + spec_replace_n(s.subrange(pat.len() as int, s.len() as int), pat, rep, (n - 1) as nat)
    } else {
        seq![s[0]] + spec_replace_n(s.subrange(1, s.len() as int), pat, rep, n)
    }
}

/// `s` with every occurrence of the non-empty `pat` replaced by `rep`
/// (std's `str::replace`); each replacement consumes at least one character,
/// so `s.len()` replacements are never exhausted.
pub open spec fn spec_replace(s: Seq<char>, pat: Seq<char>, rep: Seq<char>) -> Seq<char> {
    spec_replace_n(s, pat, rep, s.len())
}

/// The number of occurrences of the non-empty `pat` in `s`, matched left to
/// right without overlap (std's `str::matches(..).count()`).
pub open spec fn spec_count(s: Seq<char>, pat: Seq<char>) -> nat
    decreases s.len(),
{
    if s.len() == 0 || pat.len() == 0 {
        0
    } else if pat.len() <= s.len() && s.subrange(0, pat.len() as int) == pat {
        1 + spec_count(s.subrange(pat.len() as int, s.len() as int), pat)
    } else {
        spec_count(s.subrange(1, s.len() as int), pat)
    }
}

/// `s` with its first `n` occurrences of `pat` replaced by `rep`.
pub fn replace_chars(s: &Vec<char>, pat: &Vec<char>, rep: &Vec<char>, n: usize) -> (res: Vec<char>)
    ensures
        res@ == spec_replace_n(s@, pat@, rep@, n as nat),
{
    let mut out: Vec<char> = Vec::new();
    let mut i: usize = 0;
    let mut left: usize = n;
    assert(s@.subrange(0, s@.len() as int) =~= s@);
    assert(out@ + spec_replace_n(s@, pat@, rep@, n as nat) =~= spec_replace_n(s@, pat@, rep@, n as nat));
    while i < s.len()
        invariant
            i <= s@.len(),
            out@ + spec_replace_n(s@.subrange(i as int, s@.len() as int), pat@, rep@, left as nat)
                == spec_replace_n(s@, pat@, rep@, n as nat),
        decreases s@.len() - i,
    {
        let ghost rest = s@.subrange(i as int, s@.len() as int);
        if left == 0 || pat.len() == 0 {
            assert(spec_replace_n(rest, pat@, rep@, left as nat) == rest);
            let mut tail = slice_chars(s, i, s.len());
            out.append(&mut tail);
            return out;
        }
        if chars_occur_at(s, pat, i) {
            assert(rest.subrange(0, pat@.len() as int) =~= s@.subrange(i as int, i + pat@.len()));
            assert(rest.subrange(pat@.len() as int, rest.len() as int) =~= s@.subrange(
                i + pat@.len(),
                s@.len() as int,
            ));
            let ghost before = out@;
            let mut r = rep.clone();
            out.append(&mut r);
            assert(out@ + spec_replace_n(
                s@.subrange(i + pat@.len(), s@.len() as int),
                pat@,
                rep@,
                (left - 1) as nat,
            ) =~= before + spec_replace_n(rest, pat@, rep@, left as nat));
            i = i + pat.len();
            left = left - 1;
        } else {
            assert(!(pat@.len() <= rest.len() && rest.subrange(0, pat@.len() as int) == pat@)) by {
                if pat@.len() <= rest.len() {
                    assert(rest.subrange(0, pat@.len() as int) =~= s@.subrange(
                        i as int,
                        i + pat@.len(),
                    ));
                }
            }
            assert(rest.subrange(1, rest.len() as int) =~= s@.subrange(i + 1, s@.len() as int));
            let ghost before = out@;
            out.push(s[i]);
            assert(out@ + spec_replace_n(
                s@.subrange(i + 1, s@.len() as int),
                pat@,
                rep@,
                left as nat,
            ) =~= before + spec_replace_n(rest, pat@, rep@, left as nat));
            i = i + 1;
        }
    }
    assert(out@ =~= out@ + spec_replace_n(
        s@.subrange(i as int, s@.len() as int),
        pat@,
        rep@,
        left as nat,
    ));
    out
}

/// `s` with every occurrence of `pat` replaced by `rep`.
pub fn replace_all_chars(s: &Vec<char>, pat: &str, rep: &str) -> (res: Vec<char>)
    ensures
        res@ == spec_replace(s@, pat@, rep@),
{
    let p = chars_of(pat);
    let r = chars_of(rep);
    replace_chars(s, &p, &r, s.len())
}

/// The number of non-overlapping occurrences of `pat` in `s`.
pub fn count_chars(s: &Vec<char>, pat: &Vec<char>) -> (res: usize)
    ensures
        res == spec_count(s@, pat@),
{
    let mut count: usize = 0;
    let mut i: usize = 0;
    assert(s@.subrange(0, s@.len() as int) =~= s@);
    while i < s.len()
        invariant
            i <= s@.len(),
            count <= i,
            count + spec_count(s@.subrange(i as int, s@.len() as int), pat@) == spec_count(
                s@,
                pat@,
            ),
        decreases s@.len() - i,
    {
        let ghost rest = s@.subrange(i as int, s@.len() as int);
        if pat.len() == 0 {
            return count;
        }
        if chars_occur_at(s, pat, i) {
            assert(rest.subrange(0, pat@.len() as int) =~= s@.subrange(i as int, i + pat@.len()));
            assert(rest.subrange(pat@.len() as int, rest.len() as int) =~= s@.subrange(
                i + pat@.len(),
                s@.len() as int,
            ));
            count = count + 1;
            i = i + pat.len();
        } else {
            assert(!(pat@.len() <= rest.len() && rest.subrange(0, pat@.len() as int) == pat@)) by {
                if pat@.len() <= rest.len() {
                    assert(rest.subrange(0, pat@.len() as int) =~= s@.subrange(
                        i as int,
                        i + pat@.len(),
                    ));
                }
            }
            assert(rest.subrange(1, rest.len() as int) =~= s@.subrange(i + 1, s@.len() as int));
            i = i + 1;
        }
    }
    count
}

/// `s` without its leading white space.
pub open spec fn spec_trim_start(s: Seq<char>) -> Seq<char>
    decreases s.len(),
{
    if s.len() > 0 && spec_is_whitespace(s[0]) {
        spec_trim_start(s.drop_first())
    } else {
        s
    }
}

/// `s` without its trailing white space.
pub open spec fn spec_trim_end(s: Seq<char>) -> Seq<char>
    decreases s.len(),
{
    if s.len() > 0 && spec_is_whitespace(s.last()) {
        spec_trim_end(s.drop_last())
    } else {
        s
    }
}

/// `s` without leading and trailing white space (std's `str::trim`).
pub open spec fn spec_trim(s: Seq<char>) -> Seq<char> {
    spec_trim_end(spec_trim_start(s))
}

/// `s` without white space at either end.
pub fn trim_chars(s: &Vec<char>) -> (res: Vec<char>)
    ensures
        res@ == spec_trim(s@),
{
    let mut lo: usize = 0;
    assert(s@.subrange(0, s@.len() as int) =~= s@);
    while lo < s.len() && is_whitespace(s[lo])
        invariant
            lo <= s@.len(),
            spec_trim_start(s@.subrange(lo as int, s@.len() as int)) == spec_trim_start(s@),
        decreases s@.len() - lo,
    {
        assert(s@.subrange(lo as int, s@.len() as int).drop_first() =~= s@.subrange(
            lo + 1,
            s@.len() as int,
        ));
        lo = lo + 1;
    }
    let mut hi: usize = s.len();
    assert(spec_trim_start(s@) == s@.subrange(lo as int, s@.len() as int));
    while hi > lo && is_whitespace(s[hi - 1])
        invariant
            lo <= hi <= s@.len(),
            spec_trim_start(s@) == s@.subrange(lo as int, s@.len() as int),
            spec_trim_end(s@.subrange(lo as int, hi as int)) == spec_trim(s@),
        decreases hi - lo,
    {
        assert(s@.subrange(lo as int, hi as int).drop_last() =~= s@.subrange(lo as int, hi - 1));
        hi = hi - 1;
    }
    slice_chars(s, lo, hi)
}

/// `s` without trailing `c` characters (std's `str::trim_end_matches`).
pub open spec fn spec_trim_end_char(s: Seq<char>, c: char) -> Seq<char>
    decreases s.len(),
{
    if s.len() > 0 && s.last() == c {
        spec_trim_end_char(s.drop_last(), c)
    } else {
        s
    }
}

/// `s` without trailing `c` characters.
pub fn trim_end_char(s: &Vec<char>, c: char) -> (res: Vec<char>)
    ensures
        res@ == spec_trim_end_char(s@, c),
{
    let mut hi: usize = s.len();
    assert(s@.subrange(0, s@.len() as int) =~= s@);
    while hi > 0 && s[hi - 1] == c
        invariant
            hi <= s@.len(),
            spec_trim_end_char(s@.subrange(0, hi as int), c) == spec_trim_end_char(s@, c),
        decreases hi,
    {
        assert(s@.subrange(0, hi as int).drop_last() =~= s@.subrange(0, hi - 1));
        hi = hi - 1;
    }
    slice_chars(s, 0, hi)
}

/// The decimal value of `s` as std's `usize::from_str` reads it: an optional
/// `+`, then one or more ASCII digits; `None` otherwise or past `usize::MAX`.
pub open spec fn spec_parse_usize(s: Seq<char>) -> Option<nat> {
    if all_digits(unsigned_part(s)) && digits_value(unsigned_part(s)) <= usize::MAX {
        Some(digits_value(unsigned_part(s)))
    } else {
        None
    }
}

/// `s` without a leading `+`.
pub open spec fn unsigned_part(s: Seq<char>) -> Seq<char> {
    if s.len() > 0 && s[0] == '+' {
        s.drop_first()
    } else {
        s
    }
}

/// `d` is one or more ASCII digits.
pub open spec fn all_digits(d: Seq<char>) -> bool {
    d.len() > 0 && forall|i: int| 0 <= i < d.len() ==> is_digit(#[trigger] d[i])
}

pub open spec fn is_digit(c: char) -> bool {
    '0' <= c && c <= '9'
}

pub open spec fn digits_value(d: Seq<char>) -> nat
    decreases d.len(),
{
    if d.len() == 0 {
        0
    } else {
        digits_value(d.drop_last()) * 10 + ((d.last() as u32) - ('0' as u32)) as nat
    }
}

/// Parses a decimal `usize` (std's `usize::from_str`).
pub fn parse_usize(s: &str) -> (res: Option<usize>)
    ensures
        res.is_some() == spec_parse_usize(s@).is_some(),
        res matches Some(v) ==> spec_parse_usize(s@) == Some(v as nat),
{
    let v = chars_of(s);
    let start: usize = if v.len() > 0 && v[0] == '+' { 1 } else { 0 };
    let ghost digits = unsigned_part(s@);
    assert(digits =~= v@.subrange(start as int, v@.len() as int));
    if start >= v.len() {
        return None;
    }
    let mut acc: usize = 0;
    let mut i: usize = start;
    while i < v.len()
        invariant
            start <= i <= v@.len(),
            start < v@.len(),
            v@ == s@,
            digits == unsigned_part(s@),
            digits == v@.subrange(start as int, v@.len() as int),
            forall|k: int| start <= k < i ==> is_digit(#[trigger] v@[k]),
            acc as nat == digits_value(v@.subrange(start as int, i as int)),
        decreases v@.len() - i,
    {
        let c = v[i];
        assert(digits[i - start] == c);
        if !('0' <= c && c <= '9') {
            assert(!is_digit(digits[i - start]));
            assert(spec_parse_usize(s@) is None);
            return None;
        }
        let d: u32 = (c as u32) - ('0' as u32);
        assert(v@.subrange(start as int, i + 1).drop_last() =~= v@.subrange(start as int, i as int));
        assert(digits.take(i + 1 - start) =~= v@.subrange(start as int, i + 1));
        assert(digits_value(v@.subrange(start as int, i + 1)) == acc * 10 + d);
        match acc.checked_mul(10) {
            Some(m) => match m.checked_add(d as usize) {
                Some(n) => {
                    acc = n;
                },
                None => {
                    proof {
                        if all_digits(digits) {
                            lemma_digits_value_prefix_le(digits, (i + 1 - start) as int);
                        }
                    }
                    return None;
                },
            },
            None => {
                proof {
                    if all_digits(digits) {
                        lemma_digits_value_prefix_le(digits, (i + 1 - start) as int);
                    }
                }
                return None;
            },
        }
        i = i + 1;
    }
    assert forall|k: int| 0 <= k < digits.len() implies is_digit(#[trigger] digits[k]) by {
        assert(digits[k] == v@[start + k]);
    }
    Some(acc)
}

proof fn lemma_digits_value_prefix_le(d: Seq<char>, j: int)
    requires
        0 <= j <= d.len(),
        forall|i: int| 0 <= i < d.len() ==> is_digit(#[trigger] d[i]),
    ensures
        digits_value(d.take(j)) <= digits_value(d),
    decreases d.len() - j,
{
    if j < d.len() {
        lemma_digits_value_prefix_le(d, j + 1);
        assert(d.take(j + 1).drop_last() =~= d.take(j));
        assert(is_digit(d[j]));
    } else {
        assert(d.take(j) =~= d);
    }
}

/// A blank: a space or a tab.
pub open spec fn is_space_or_tab(c: char) -> bool {
    c == ' ' || c == '\t'
}

/// The length of the run of blanks that `s` starts with.
pub open spec fn blank_run(s: Seq<char>) -> nat
    decreases s.len(),
{
    if s.len() > 0 && is_space_or_tab(s[0]) {
        1 + blank_run(s.drop_first())
    } else {
        0
    }
}

/// `o` with `d` added to its length.
pub open spec fn shift(o: Option<nat>, d: nat) -> Option<nat> {
    match o {
        Some(k) => Some(k + d),
        None => None,
    }
}

/// How many characters at the start of `s` the text `pat` matches when each
/// run of blanks in `pat` stands for the (non-empty) run of blanks found at
/// that place in `s`; `None` when it does not match there.
pub open spec fn loose_len(s: Seq<char>, pat: Seq<char>) -> Option<nat>
    decreases pat.len(),
{
    if pat.len() == 0 {
        Some(0)
    } else if is_space_or_tab(pat[0]) {
        let pr = blank_run(pat);
        let sr = blank_run(s);
        if sr == 0 || pr == 0 || pr > pat.len() || sr > s.len() {
            None
        } else {
            shift(loose_len(s.skip(sr as int), pat.skip(pr as int)), sr)
        }
    } else if s.len() > 0 && s[0] == pat[0] {
        shift(loose_len(s.drop_first(), pat.drop_first()), 1)
    } else {
        None
    }
}

/// The number of non-overlapping loose matches of the non-empty `pat` in
/// `s`, found left to right.
pub open spec fn loose_count(s: Seq<char>, pat: Seq<char>) -> nat
    decreases s.len(),
{
    if s.len() == 0 || pat.len() == 0 {
        0
    } else {
        match loose_len(s, pat) {
            Some(k) => if 0 < k && k <= s.len() {
                1 + loose_count(s.skip(k as int), pat)
            } else {
                loose_count(s.drop_first(), pat)
            },
            None => loose_count(s.drop_first(), pat),
        }
    }
}

/// `s` with its first `n` loose matches of the non-empty `pat` replaced by
/// `rep`, found left to right.
pub open spec fn loose_replace_n(s: Seq<char>, pat: Seq<char>, rep: Seq<char>, n: nat) -> Seq<char>
    decreases s.len(),
{
    if s.len() == 0 || n == 0 || pat.len() == 0 {
        s
    } else {
        match loose_len(s, pat) {
            Some(k) => if 0 < k && k <= s.len() {
                rep + loose_replace_n(s.skip(k as int), pat, rep, (n - 1) as nat)
            } else {
                seq![s[0]] + loose_replace_n(s.drop_first(), pat, rep, n)
            },
            None => seq![s[0]] + loose_replace_n(s.drop_first(), pat, rep, n),
        }
    }
}

/// The length of the run of blanks at position `i` of `v`.
fn blank_run_at(v: &Vec<char>, i: usize) -> (res: usize)
    requires
        i <= v@.len(),
    ensures
        res == blank_run(v@.skip(i as int)),
        i + res <= v@.len(),
{
    let mut j: usize = i;
    while j < v.len() && (v[j] == ' ' || v[j] == '\t')
        invariant
            i <= j <= v@.len(),
            blank_run(v@.skip(i as int)) == (j - i) + blank_run(v@.skip(j as int)),
        decreases v@.len() - j,
    {
        assert(v@.skip(j as int).drop_first() =~= v@.skip(j + 1));
        j = j + 1;
    }
    j - i
}

/// The loose match of `pat` at position `i` of `s`: how many characters it
/// takes.
fn loose_len_at(s: &Vec<char>, i: usize, pat: &Vec<char>) -> (res: Option<usize>)
    requires
        i <= s@.len(),
    ensures
        res.is_some() == loose_len(s@.skip(i as int), pat@).is_some(),
        res matches Some(k) ==> loose_len(s@.skip(i as int), pat@) == Some(k as nat) && i + k
            <= s@.len(),
{
    let mut si: usize = i;
    let mut pj: usize = 0;
    assert(pat@.skip(0) =~= pat@);
    while pj < pat.len()
        invariant
            i <= si <= s@.len(),
            pj <= pat@.len(),
            loose_len(s@.skip(i as int), pat@) == shift(
                loose_len(s@.skip(si as int), pat@.skip(pj as int)),
                (si - i) as nat,
            ),
        decreases pat@.len() - pj,
    {
        let ghost ss = s@.skip(si as int);
        let ghost ps = pat@.skip(pj as int);
        assert(ps[0] == pat@[pj as int]);
        if pat[pj] == ' ' || pat[pj] == '\t' {
            let pr = blank_run_at(pat, pj);
            let sr = blank_run_at(s, si);
            let slen = s.len();
            let plen = pat.len();
            assert(si + sr <= slen);
            assert(pj + pr <= plen);
            assert(ps.drop_first() =~= pat@.skip(pj + 1));
            assert(blank_run(ps) >= 1);
            if sr == 0 {
                return None;
            }
            assert(ss.skip(sr as int) =~= s@.skip(si + sr));
            assert(ps.skip(pr as int) =~= pat@.skip(pj + pr));
            si = si + sr;
            pj = pj + pr;
        } else {
            if si < s.len() && s[si] == pat[pj] {
                assert(ss[0] == s@[si as int]);
                assert(ss.drop_first() =~= s@.skip(si + 1));
                assert(ps.drop_first() =~= pat@.skip(pj + 1));
                si = si + 1;
                pj = pj + 1;
            } else {
                proof {
                    if si < s@.len() {
                        assert(ss[0] == s@[si as int]);
                    }
                }
                return None;
            }
        }
    }
    assert(pat@.skip(pj as int).len() == 0);
    Some(si - i)
}

/// The number of non-overlapping loose matches of `pat` in `s`.
pub fn loose_count_chars(s: &Vec<char>, pat: &Vec<char>) -> (res: usize)
    ensures
        res == loose_count(s@, pat@),
{
    let mut count: usize = 0;
    let mut i: usize = 0;
    assert(s@.skip(0) =~= s@);
    while i < s.len()
        invariant
            i <= s@.len(),
            count <= i,
            count + loose_count(s@.skip(i as int), pat@) == loose_count(s@, pat@),
        decreases s@.len() - i,
    {
        let ghost rest = s@.skip(i as int);
        if pat.len() == 0 {
            return count;
        }
        assert(rest.drop_first() =~= s@.skip(i + 1));
        match loose_len_at(s, i, pat) {
            Some(k) => {
                if k > 0 {
                    assert(rest.skip(k as int) =~= s@.skip(i + k));
                    count = count + 1;
                    i = i + k;
                } else {
                    i = i + 1;
                }
            },
            None => {
                i = i + 1;
            },
        }
    }
    assert(s@.skip(i as int).len() == 0);
    count
}

/// `s` with its first `n` loose matches of `pat` replaced by `rep`.
pub fn loose_replace_chars(s: &Vec<char>, pat: &Vec<char>, rep: &Vec<char>, n: usize) -> (res: Vec<
    char,
>)
    ensures
        res@ == loose_replace_n(s@, pat@, rep@, n as nat),
{
    let mut out: Vec<char> = Vec::new();
    let mut i: usize = 0;
    let mut left: usize = n;
    assert(s@.skip(0) =~= s@);
    assert(out@ + loose_replace_n(s@, pat@, rep@, n as nat) =~= loose_replace_n(
        s@,
        pat@,
        rep@,
        n as nat,
    ));
    while i < s.len()
        invariant
            i <= s@.len(),
            out@ + loose_replace_n(s@.skip(i as int), pat@, rep@, left as nat) == loose_replace_n(
                s@,
                pat@,
                rep@,
                n as nat,
            ),
        decreases s@.len() - i,
    {
        let ghost rest = s@.skip(i as int);
        if left == 0 || pat.len() == 0 {
            let mut tail = slice_chars(s, i, s.len());
            assert(tail@ =~= rest);
            out.append(&mut tail);
            return out;
        }
        assert(rest.drop_first() =~= s@.skip(i + 1));
        assert(rest[0] == s@[i as int]);
        let m = loose_len_at(s, i, pat);
        let ghost before = out@;
        match m {
            Some(k) if k > 0 => {
                assert(rest.skip(k as int) =~= s@.skip(i + k));
                let mut r = rep.clone();
                out.append(&mut r);
                assert(out@ + loose_replace_n(s@.skip(i + k), pat@, rep@, (left - 1) as nat)
                    =~= before + loose_replace_n(rest, pat@, rep@, left as nat));
                i = i + k;
                left = left - 1;
            },
            _ => {
                out.push(s[i]);
                assert(out@ + loose_replace_n(s@.skip(i + 1), pat@, rep@, left as nat)
                    =~= before + loose_replace_n(rest, pat@, rep@, left as nat));
                i = i + 1;
            },
        }
    }
    assert(s@.skip(i as int).len() == 0);
    assert(out@ =~= out@ + loose_replace_n(s@.skip(i as int), pat@, rep@, left as nat));
    out
}

} // verus!
