//! The machine fingerprint that identifies this computer to the membership
//! gateway: the machine GUID from the registry and the MAC addresses of the
//! PCI network adapters, lower-cased, joined and hashed with BLAKE3.
//!
//! The commands that read the registry and the adapters run outside the
//! library; the functions here take their raw output.

use vstd::prelude::*;
use vstd::utf8::encode_utf8;
use crate::text::{
    chars_of, has_infix, is_whitespace, join, join_strings, owned, string_from_chars, strings_view,
    utf8_len_capped, whitespace,
};

verus! {

broadcast use vstd::string::group_string_axioms;

/// The text that `String::from_utf8_lossy` makes of `bytes`.
pub uninterp spec fn utf8_lossy(bytes: Seq<u8>) -> Seq<char>;

/// The text that `String::from_utf16_lossy` makes of `units`.
pub uninterp spec fn utf16_lossy(units: Seq<u16>) -> Seq<char>;

/// The text that `str::to_lowercase` makes of `s`.
pub uninterp spec fn lowercase(s: Seq<char>) -> Seq<char>;

/// The BLAKE3 hash (default 32-byte output) of `input`.
pub uninterp spec fn blake3_digest(input: Seq<u8>) -> Seq<u8>;

/// `c`, with an ASCII capital letter turned into its small letter.
pub open spec fn ascii_lower_char(c: char) -> char {
    if 'A' <= c && c <= 'Z' {
        ((c as u32) + 32) as char
    } else {
        c
    }
}

/// `s` with its ASCII capital letters turned into small letters.
pub open spec fn ascii_lower(s: Seq<char>) -> Seq<char> {
    s.map_values(|c: char| ascii_lower_char(c))
}

/// Calls `String::from_utf8_lossy` and takes the owned string. Its result is
/// named by `utf8_lossy`; the documentation states that valid UTF-8 is
/// decoded as it is.
#[verifier::external_body]
fn decode_utf8_lossy(bytes: &[u8]) -> (r: String)
    ensures
        r@ == utf8_lossy(bytes@),
        vstd::utf8::valid_utf8(bytes@) ==> r@ == vstd::utf8::decode_utf8(bytes@),
{
    String::from_utf8_lossy(bytes).into_owned()
}

/// Calls `String::from_utf16_lossy`; its result is named by `utf16_lossy`.
/// A UTF-16 code unit below 0x80 is the whole encoding of the ASCII
/// character with that code, so units that are all below 0x80 decode to
/// those characters.
#[verifier::external_body]
fn decode_utf16_lossy(units: &[u16]) -> (r: String)
    ensures
        r@ == utf16_lossy(units@),
        (forall|i: int| 0 <= i < units@.len() ==> #[trigger] units@[i] < 0x80) ==> r@ == Seq::new(
            units@.len(),
            |i: int| (units@[i] as u32) as char,
        ),
{
    String::from_utf16_lossy(units)
}

/// Calls `str::to_lowercase`; its result is named by `lowercase`. On ASCII
/// text, the Unicode lower-case mapping turns each capital letter into its
/// small letter and keeps every other character.
#[verifier::external_body]
fn to_lowercase(s: &str) -> (r: String)
    ensures
        r@ == lowercase(s@),
        vstd::utf8::is_ascii_chars(s@) ==> r@ == ascii_lower(s@),
{
    s.to_lowercase()
}

/// Calls `blake3::hash` and copies out the bytes of the `Hash`
/// (`Hash::as_bytes`, an array of `OUT_LEN` = 32 bytes).
#[verifier::external_body]
fn blake3_hash(input: &[u8]) -> (r: Vec<u8>)
    ensures
        r@ == blake3_digest(input@),
        r@.len() == 32,
{
    blake3::hash(input).as_bytes().to_vec()
}

/// The output starts with the UTF-16 little-endian byte order mark.
pub open spec fn has_utf16_bom(bytes: Seq<u8>) -> bool {
    bytes.len() >= 2 && bytes[0] == 0xff && bytes[1] == 0xfe
}

/// The little-endian 16-bit units of `bytes`; a trailing odd byte is
/// dropped (`chunks_exact(2)` with `u16::from_le_bytes`).
pub open spec fn le_units(bytes: Seq<u8>) -> Seq<u16> {
    Seq::new(bytes.len() / 2, |k: int| (bytes[2 * k] + 256 * bytes[2 * k + 1]) as u16)
}

/// The text of a command's output: UTF-16 after a byte order mark,
/// otherwise UTF-8, invalid parts replaced.
pub open spec fn decoded_output(bytes: Seq<u8>) -> Seq<char> {
    if has_utf16_bom(bytes) {
        utf16_lossy(le_units(bytes.skip(2)))
    } else {
        utf8_lossy(bytes)
    }
}

/// The bytes of ASCII text, one per character (its UTF-8 encoding).
pub open spec fn ascii_bytes(t: Seq<char>) -> Seq<u8> {
    Seq::new(t.len(), |i: int| t[i] as u8)
}

/// ASCII text as UTF-16 little-endian, after the byte order mark.
pub open spec fn utf16le_with_bom(t: Seq<char>) -> Seq<u8> {
    seq![0xffu8, 0xfeu8] + Seq::new(
        2 * t.len(),
        |i: int|
            if i % 2 == 0 {
                t[i / 2] as u8
            } else {
                0u8
            },
    )
}

proof fn lemma_ascii_char(c: char)
    requires
        '\0' <= c <= '\u{7f}',
    ensures
        (c as u8) < 0x80,
        ((c as u8) as u32) == c as u32,
        (((c as u8) as u16) as u32) as char == c,
{
    let x = c as u32;
    assert(x < 128);
    assert((c as u8) == (x as u8));
    assert((x as u8) < 0x80 && (x as u8) as u32 == x && ((x as u8) as u16) as u32 == x) by (bit_vector)
        requires
            x < 128,
    ;
    vstd::utf8::char_u32_cast(c, x);
}

proof fn lemma_ascii_bytes_decode(t: Seq<char>)
    requires
        vstd::utf8::is_ascii_chars(t),
    ensures
        ascii_bytes(t) == encode_utf8(t),
        vstd::utf8::valid_utf8(ascii_bytes(t)),
        vstd::utf8::decode_utf8(ascii_bytes(t)) == t,
        !has_utf16_bom(ascii_bytes(t)),
{
    vstd::utf8::is_ascii_chars_encode_utf8(t);
    assert(ascii_bytes(t) =~= encode_utf8(t));
    vstd::utf8::encode_utf8_valid_utf8(t);
    vstd::utf8::encode_utf8_decode_utf8(t);
    if t.len() > 0 {
        assert('\0' <= t[0] <= '\u{7f}');
        lemma_ascii_char(t[0]);
    }
}

proof fn lemma_utf16_units(t: Seq<char>)
    requires
        vstd::utf8::is_ascii_chars(t),
    ensures
        has_utf16_bom(utf16le_with_bom(t)),
        le_units(utf16le_with_bom(t).skip(2)).len() == t.len(),
        forall|k: int| 0 <= k < t.len() ==> #[trigger] le_units(utf16le_with_bom(t).skip(2))[k] < 0x80,
        Seq::new(t.len(), |k: int| (le_units(utf16le_with_bom(t).skip(2))[k] as u32) as char) == t,
{
    let b = utf16le_with_bom(t).skip(2);
    let body = Seq::new(
        2 * t.len(),
        |i: int|
            if i % 2 == 0 {
                t[i / 2] as u8
            } else {
                0u8
            },
    );
    assert(b =~= body);
    let u = le_units(b);
    assert forall|k: int| 0 <= k < t.len() implies #[trigger] u[k] < 0x80 && (u[k] as u32) as char
        == t[k] by {
        assert((2 * k) % 2 == 0 && (2 * k) / 2 == k && (2 * k + 1) % 2 == 1) by (nonlinear_arith);
        assert(b[2 * k] == t[k] as u8);
        assert(b[2 * k + 1] == 0u8);
        assert('\0' <= t[k] <= '\u{7f}');
        lemma_ascii_char(t[k]);
        assert(u[k] == ((t[k] as u8) as u16));
    }
    assert(Seq::new(t.len(), |k: int| (u[k] as u32) as char) =~= t);
}

/// Decodes a command's output as the registry query writes it.
pub fn decode_command_output(stdout: &[u8]) -> (r: String)
    ensures
        r@ == decoded_output(stdout@),
        forall|t: Seq<char>|
            #![trigger ascii_bytes(t)]
            #![trigger utf16le_with_bom(t)]
            vstd::utf8::is_ascii_chars(t) && (stdout@ == ascii_bytes(t) || stdout@ == utf16le_with_bom(t))
                ==> r@ == t,
{
    if stdout.len() >= 2 && stdout[0] == 0xff && stdout[1] == 0xfe {
        let mut units: Vec<u16> = Vec::new();
        let mut pos: usize = 2;
        while pos + 1 < stdout.len()
            invariant
                2 <= pos <= stdout@.len(),
                pos == 2 + 2 * units@.len(),
                units@ == le_units(stdout@.skip(2)).take(units@.len() as int),
            decreases stdout@.len() - pos,
        {
            let lo = stdout[pos] as u16;
            let hi = stdout[pos + 1] as u16;
            units.push(lo + hi * 256);
            pos = pos + 2;
            assert(units@ =~= le_units(stdout@.skip(2)).take(units@.len() as int));
        }
        assert(units@ =~= le_units(stdout@.skip(2)));
        let r = decode_utf16_lossy(units.as_slice());
        proof {
            assert forall|t: Seq<char>|
                vstd::utf8::is_ascii_chars(t) && (stdout@ == ascii_bytes(t) || stdout@ == utf16le_with_bom(
                    t,
                )) implies r@ == t by {
                lemma_ascii_bytes_decode(t);
                if stdout@ == utf16le_with_bom(t) {
                    lemma_utf16_units(t);
                    assert(forall|i: int| 0 <= i < units@.len() ==> #[trigger] units@[i] < 0x80);
                    assert(r@ =~= Seq::new(t.len(), |k: int| (le_units(utf16le_with_bom(t).skip(2))[k] as u32) as char));
                }
            }
        }
        r
    } else {
        let r = decode_utf8_lossy(stdout);
        proof {
            assert forall|t: Seq<char>|
                vstd::utf8::is_ascii_chars(t) && (stdout@ == ascii_bytes(t) || stdout@ == utf16le_with_bom(
                    t,
                )) implies r@ == t by {
                lemma_ascii_bytes_decode(t);
                if stdout@ == utf16le_with_bom(t) {
                    lemma_utf16_units(t);
                }
            }
        }
        r
    }
}

/// The pieces of `s` between newline characters. This differs from
/// `str::lines` only in keeping a carriage return before a newline and in a
/// last empty piece after a final newline; neither changes whether a line
/// contains a word, its whitespace-separated words, or its trimmed text.
pub open spec fn split_lines(s: Seq<char>) -> Seq<Seq<char>>
    decreases s.len(),
{
    if s.len() == 0 {
        seq![Seq::<char>::empty()]
    } else {
        let init = split_lines(s.drop_last());
        if s.last() == '\n' {
            init.push(Seq::<char>::empty())
        } else {
            init.update(init.len() - 1, init.last().push(s.last()))
        }
    }
}

proof fn lemma_split_lines_nonempty(s: Seq<char>)
    ensures
        split_lines(s).len() >= 1,
    decreases s.len(),
{
    if s.len() > 0 {
        lemma_split_lines_nonempty(s.drop_last());
    }
}

/// A list of character vectors as plain sequences.
pub open spec fn lines_view(v: Seq<Vec<char>>) -> Seq<Seq<char>> {
    v.map_values(|l: Vec<char>| l@)
}

fn split_lines_exec(s: &[char]) -> (r: Vec<Vec<char>>)
    ensures
        lines_view(r@) == split_lines(s@),
{
    let mut lines: Vec<Vec<char>> = Vec::new();
    let mut cur: Vec<char> = Vec::new();
    let mut i: usize = 0;
    assert(s@.take(0) =~= Seq::<char>::empty());
    assert(lines_view(lines@).push(cur@) =~= split_lines(s@.take(0)));
    while i < s.len()
        invariant
            i <= s@.len(),
            lines_view(lines@).push(cur@) == split_lines(s@.take(i as int)),
        decreases s@.len() - i,
    {
        let c = s[i];
        let ghost prev_lines = lines_view(lines@);
        let ghost prev_cur = cur@;
        proof {
            assert(s@.take(i + 1).drop_last() =~= s@.take(i as int));
            assert(s@.take(i + 1).last() == c);
            lemma_split_lines_nonempty(s@.take(i as int));
        }
        if c == '\n' {
            let done = cur;
            cur = Vec::new();
            lines.push(done);
            assert(lines_view(lines@) =~= prev_lines.push(prev_cur));
            assert(lines_view(lines@).push(cur@) =~= split_lines(s@.take(i + 1)));
        } else {
            cur.push(c);
            assert(lines_view(lines@).push(cur@) =~= prev_lines.push(prev_cur).update(
                prev_lines.len() as int,
                prev_cur.push(c),
            ));
        }
        i = i + 1;
    }
    assert(s@.take(s@.len() as int) =~= s@);
    let ghost before = lines_view(lines@);
    lines.push(cur);
    assert(lines_view(lines@) =~= before.push(cur@));
    lines
}

/// `s` without its trailing whitespace.
pub open spec fn trim_end(s: Seq<char>) -> Seq<char>
    decreases s.len(),
{
    if s.len() > 0 && is_whitespace(s.last()) {
        trim_end(s.drop_last())
    } else {
        s
    }
}

/// `s` without its leading whitespace.
pub open spec fn trim_start(s: Seq<char>) -> Seq<char>
    decreases s.len(),
{
    if s.len() > 0 && is_whitespace(s[0]) {
        trim_start(s.drop_first())
    } else {
        s
    }
}

/// `s` without leading and trailing whitespace (`str::trim`).
pub open spec fn trim(s: Seq<char>) -> Seq<char> {
    trim_start(trim_end(s))
}

/// The run of non-whitespace characters at the end of `s`.
pub open spec fn trailing_run(s: Seq<char>) -> Seq<char>
    decreases s.len(),
{
    if s.len() > 0 && !is_whitespace(s.last()) {
        trailing_run(s.drop_last()).push(s.last())
    } else {
        Seq::<char>::empty()
    }
}

/// The last whitespace-separated word of `line`
/// (`split_whitespace().last()`).
pub open spec fn last_word(line: Seq<char>) -> Option<Seq<char>> {
    let t = trim_end(line);
    if t.len() == 0 {
        None
    } else {
        Some(trailing_run(t))
    }
}

/// The length of `s` without its trailing whitespace.
fn trim_end_len(s: &[char]) -> (e: usize)
    ensures
        e <= s@.len(),
        trim_end(s@) == s@.take(e as int),
{
    let mut e = s.len();
    assert(s@.take(e as int) =~= s@);
    while e > 0 && whitespace(s[e - 1])
        invariant
            e <= s@.len(),
            trim_end(s@) == trim_end(s@.take(e as int)),
        decreases e,
    {
        assert(s@.take(e as int).drop_last() =~= s@.take(e - 1));
        e = e - 1;
    }
    e
}

/// The trimmed text of `s` (`str::trim`).
pub fn trim_chars(s: &[char]) -> (r: Vec<char>)
    ensures
        r@ == trim(s@),
{
    let e = trim_end_len(s);
    let mut b: usize = 0;
    assert(s@.take(e as int).subrange(0, e as int) =~= s@.take(e as int));
    while b < e && whitespace(s[b])
        invariant
            b <= e <= s@.len(),
            trim_start(s@.take(e as int)) == trim_start(s@.subrange(b as int, e as int)),
        decreases e - b,
    {
        assert(s@.subrange(b as int, e as int).drop_first() =~= s@.subrange(b + 1, e as int));
        b = b + 1;
    }
    let mut out: Vec<char> = Vec::new();
    let mut k = b;
    while k < e
        invariant
            b <= k <= e <= s@.len(),
            out@ == s@.subrange(b as int, k as int),
        decreases e - k,
    {
        out.push(s[k]);
        k = k + 1;
        assert(out@ =~= s@.subrange(b as int, k as int));
    }
    out
}

/// The last whitespace-separated word of `line`.
pub fn last_word_of(line: &[char]) -> (r: Option<Vec<char>>)
    ensures
        match last_word(line@) {
            Some(w) => r matches Some(v) && v@ == w,
            None => r is None,
        },
{
    let e = trim_end_len(line);
    if e == 0 {
        return None;
    }
    let ghost t = line@.take(e as int);
    let mut b = e;
    assert(line@.subrange(e as int, e as int) =~= Seq::<char>::empty());
    assert(t.take(e as int) =~= t);
    while b > 0 && !whitespace(line[b - 1])
        invariant
            b <= e <= line@.len(),
            t == line@.take(e as int),
            trailing_run(t) == trailing_run(t.take(b as int)) + line@.subrange(b as int, e as int),
        decreases b,
    {
        assert(t.take(b as int).drop_last() =~= t.take(b - 1));
        assert(t.take(b as int).last() == line@[b - 1]);
        assert(line@.subrange(b - 1, e as int) =~= seq![line@[b - 1]] + line@.subrange(
            b as int,
            e as int,
        ));
        assert(trailing_run(t.take(b - 1)).push(line@[b - 1]) + line@.subrange(b as int, e as int)
            =~= trailing_run(t.take(b - 1)) + line@.subrange(b - 1, e as int));
        b = b - 1;
    }
    assert(trailing_run(t.take(b as int)) =~= Seq::<char>::empty());
    let mut out: Vec<char> = Vec::new();
    let mut k = b;
    while k < e
        invariant
            b <= k <= e <= line@.len(),
            out@ == line@.subrange(b as int, k as int),
        decreases e - k,
    {
        out.push(line[k]);
        k = k + 1;
        assert(out@ =~= line@.subrange(b as int, k as int));
    }
    assert(Seq::<char>::empty() + line@.subrange(b as int, e as int) =~= line@.subrange(
        b as int,
        e as int,
    ));
    Some(out)
}

/// The first of `lines` that contains `word`.
pub open spec fn first_line_with(lines: Seq<Seq<char>>, word: Seq<char>) -> Option<Seq<char>>
    decreases lines.len(),
{
    if lines.len() == 0 {
        None
    } else if has_infix(lines[0], word) {
        Some(lines[0])
    } else {
        first_line_with(lines.drop_first(), word)
    }
}

/// The machine GUID in the registry query's text: the last word of the
/// first line that mentions `MachineGuid`, when it is at least 16 bytes long.
pub open spec fn guid_of(text: Seq<char>) -> Option<Seq<char>> {
    match first_line_with(split_lines(text), "MachineGuid"@) {
        Some(line) => match last_word(line) {
            Some(w) => if encode_utf8(w).len() >= 16 {
                Some(w)
            } else {
                None
            },
            None => None,
        },
        None => None,
    }
}

/// The machine GUID in the text of the registry query, if it has one.
pub fn machine_guid(text: &str) -> (r: Option<String>)
    ensures
        match guid_of(text@) {
            Some(g) => r matches Some(s) && s@ == g,
            None => r is None,
        },
{
    let chars = chars_of(text);
    let lines = split_lines_exec(chars.as_slice());
    let word = chars_of("MachineGuid");
    let ghost all = lines_view(lines@);
    let mut i: usize = 0;
    assert(all.skip(0) =~= all);
    while i < lines.len()
        invariant
            i <= lines@.len(),
            all == lines_view(lines@),
            all == split_lines(text@),
            word@ == "MachineGuid"@,
            first_line_with(all, "MachineGuid"@) == first_line_with(all.skip(i as int), "MachineGuid"@),
        decreases lines@.len() - i,
    {
        assert(all.skip(i as int)[0] == lines@[i as int]@);
        if crate::text::contains_chars(lines[i].as_slice(), word.as_slice()) {
            return match last_word_of(lines[i].as_slice()) {
                Some(w) => {
                    if utf8_len_capped(w.as_slice(), 16) >= 16 {
                        Some(string_from_chars(w.as_slice()))
                    } else {
                        None
                    }
                },
                None => None,
            };
        }
        assert(all.skip(i as int).drop_first() =~= all.skip(i + 1));
        i = i + 1;
    }
    assert(all.skip(i as int) =~= Seq::<Seq<char>>::empty());
    None
}

/// How often `c` occurs in `s`.
pub open spec fn count_char(s: Seq<char>, c: char) -> nat
    decreases s.len(),
{
    if s.len() == 0 {
        0
    } else {
        count_char(s.drop_last(), c) + if s.last() == c {
            1nat
        } else {
            0nat
        }
    }
}

/// A trimmed line that looks like a MAC address: 17 bytes with exactly five
/// colons. (Counting colon characters equals counting colon bytes, since
/// the byte of `:` occurs in UTF-8 only as that character.)
pub open spec fn is_mac_candidate(part: Seq<char>) -> bool {
    encode_utf8(part).len() == 17 && count_char(part, ':') == 5
}

/// The MAC addresses among `lines`, trimmed, in order.
pub open spec fn mac_candidates(lines: Seq<Seq<char>>) -> Seq<Seq<char>>
    decreases lines.len(),
{
    if lines.len() == 0 {
        Seq::<Seq<char>>::empty()
    } else {
        let rest = mac_candidates(lines.drop_last());
        let t = trim(lines.last());
        if is_mac_candidate(t) {
            rest.push(t)
        } else {
            rest
        }
    }
}

/// Every character of `w` is whitespace.
pub open spec fn all_whitespace(w: Seq<char>) -> bool {
    forall|i: int| 0 <= i < w.len() ==> #[trigger] is_whitespace(w[i])
}

proof fn lemma_trim_end_drops_tail(l: Seq<char>, w: Seq<char>)
    requires
        all_whitespace(w),
    ensures
        trim_end(l + w) == trim_end(l),
    decreases w.len(),
{
    if w.len() == 0 {
        assert(l + w =~= l);
    } else {
        assert((l + w).last() == w.last());
        assert((l + w).drop_last() =~= l + w.drop_last());
        lemma_trim_end_drops_tail(l, w.drop_last());
    }
}

proof fn lemma_trim_start_drops_head(w: Seq<char>, l: Seq<char>)
    requires
        all_whitespace(w),
    ensures
        trim_start(w + l) == trim_start(l),
    decreases w.len(),
{
    if w.len() == 0 {
        assert(w + l =~= l);
    } else {
        assert((w + l)[0] == w[0]);
        assert((w + l).drop_first() =~= w.drop_first() + l);
        lemma_trim_start_drops_head(w.drop_first(), l);
    }
}

proof fn lemma_trim_end_of_whitespace(w: Seq<char>)
    requires
        all_whitespace(w),
    ensures
        trim_end(w).len() == 0,
    decreases w.len(),
{
    if w.len() > 0 {
        lemma_trim_end_of_whitespace(w.drop_last());
    }
}

proof fn lemma_trim_end_keeps_head(w: Seq<char>, l: Seq<char>)
    requires
        all_whitespace(w),
    ensures
        trim_end(l).len() == 0 ==> trim_end(w + l).len() == 0,
        trim_end(l).len() > 0 ==> trim_end(w + l) == w + trim_end(l),
    decreases l.len(),
{
    if l.len() == 0 {
        assert(w + l =~= w);
        lemma_trim_end_of_whitespace(w);
    } else {
        assert((w + l).last() == l.last());
        assert((w + l).drop_last() =~= w + l.drop_last());
        if is_whitespace(l.last()) {
            lemma_trim_end_keeps_head(w, l.drop_last());
        }
    }
}

/// Whitespace around a line does not change its trimmed text.
proof fn lemma_trim_padded(w1: Seq<char>, l: Seq<char>, w2: Seq<char>)
    requires
        all_whitespace(w1),
        all_whitespace(w2),
    ensures
        trim(w1 + l + w2) == trim(l),
{
    lemma_trim_end_drops_tail(w1 + l, w2);
    lemma_trim_end_keeps_head(w1, l);
    if trim_end(l).len() > 0 {
        lemma_trim_start_drops_head(w1, trim_end(l));
    } else {
        assert(trim_end(w1 + l) =~= Seq::<char>::empty());
        assert(trim_end(l) =~= Seq::<char>::empty());
    }
}

proof fn lemma_mac_candidates_concat(x: Seq<Seq<char>>, y: Seq<Seq<char>>)
    ensures
        mac_candidates(x + y) == mac_candidates(x) + mac_candidates(y),
    decreases y.len(),
{
    if y.len() == 0 {
        assert(x + y =~= x);
        assert(mac_candidates(x) + mac_candidates(y) =~= mac_candidates(x));
    } else {
        assert((x + y).drop_last() =~= x + y.drop_last());
        assert((x + y).last() == y.last());
        lemma_mac_candidates_concat(x, y.drop_last());
        let t = trim(y.last());
        if is_mac_candidate(t) {
            assert(mac_candidates(x) + mac_candidates(y.drop_last()).push(t) =~= (mac_candidates(x)
                + mac_candidates(y.drop_last())).push(t));
        }
    }
}

proof fn lemma_no_mac_candidates(extra: Seq<Seq<char>>)
    requires
        forall|i: int| 0 <= i < extra.len() ==> !is_mac_candidate(#[trigger] trim(extra[i])),
    ensures
        mac_candidates(extra).len() == 0,
    decreases extra.len(),
{
    if extra.len() > 0 {
        assert(trim(extra.last()) == trim(extra[extra.len() - 1]));
        lemma_no_mac_candidates(extra.drop_last());
    }
}

/// Whitespace around the lines of the adapter listing does not change the
/// MAC addresses found in it.
pub proof fn law_macs_ignore_padding(
    lines: Seq<Seq<char>>,
    before: Seq<Seq<char>>,
    after: Seq<Seq<char>>,
)
    requires
        before.len() == lines.len(),
        after.len() == lines.len(),
        forall|i: int| 0 <= i < lines.len() ==> all_whitespace(#[trigger] before[i]) && all_whitespace(after[i]),
    ensures
        mac_candidates(Seq::new(lines.len(), |i: int| before[i] + lines[i] + after[i]))
            == mac_candidates(lines),
    decreases lines.len(),
{
    let padded = Seq::new(lines.len(), |i: int| before[i] + lines[i] + after[i]);
    if lines.len() > 0 {
        let n = lines.len() - 1;
        law_macs_ignore_padding(lines.drop_last(), before.drop_last(), after.drop_last());
        assert(padded.drop_last() =~= Seq::new(
            lines.drop_last().len(),
            |i: int| before.drop_last()[i] + lines.drop_last()[i] + after.drop_last()[i],
        ));
        assert(all_whitespace(before[n]) && all_whitespace(after[n]));
        lemma_trim_padded(before[n], lines[n], after[n]);
    }
}

/// Lines of the adapter listing that do not look like a MAC address, put
/// anywhere among the others, do not change the MAC addresses found.
pub proof fn law_macs_ignore_other_lines(
    first: Seq<Seq<char>>,
    extra: Seq<Seq<char>>,
    rest: Seq<Seq<char>>,
)
    requires
        forall|i: int| 0 <= i < extra.len() ==> !is_mac_candidate(#[trigger] trim(extra[i])),
    ensures
        mac_candidates(first + extra + rest) == mac_candidates(first + rest),
{
    lemma_mac_candidates_concat(first + extra, rest);
    lemma_mac_candidates_concat(first, extra);
    lemma_mac_candidates_concat(first, rest);
    lemma_no_mac_candidates(extra);
    assert(mac_candidates(first) + mac_candidates(extra) =~= mac_candidates(first));
}

/// The MAC addresses in the adapter listing's text.
pub open spec fn macs_of(text: Seq<char>) -> Seq<Seq<char>> {
    mac_candidates(split_lines(text))
}

fn count_colons(s: &[char]) -> (n: usize)
    ensures
        n == count_char(s@, ':'),
{
    let mut n: usize = 0;
    let mut i: usize = 0;
    assert(s@.take(0) =~= Seq::<char>::empty());
    while i < s.len()
        invariant
            i <= s@.len(),
            n == count_char(s@.take(i as int), ':'),
            n <= i,
        decreases s@.len() - i,
    {
        assert(s@.take(i + 1).drop_last() =~= s@.take(i as int));
        if s[i] == ':' {
            n = n + 1;
        }
        i = i + 1;
    }
    assert(s@.take(i as int) =~= s@);
    n
}

/// The MAC addresses in the text of the adapter listing.
pub fn mac_addresses(text: &str) -> (r: Vec<String>)
    ensures
        strings_view(r@) == macs_of(text@),
{
    let chars = chars_of(text);
    let lines = split_lines_exec(chars.as_slice());
    let ghost all = lines_view(lines@);
    let mut out: Vec<String> = Vec::new();
    let mut i: usize = 0;
    assert(all.take(0) =~= Seq::<Seq<char>>::empty());
    assert(strings_view(out@) =~= Seq::<Seq<char>>::empty());
    while i < lines.len()
        invariant
            i <= lines@.len(),
            all == lines_view(lines@),
            strings_view(out@) == mac_candidates(all.take(i as int)),
        decreases lines@.len() - i,
    {
        assert(all.take(i + 1).drop_last() =~= all.take(i as int));
        assert(all.take(i + 1).last() == lines@[i as int]@);
        let part = trim_chars(lines[i].as_slice());
        if utf8_len_capped(part.as_slice(), 18) == 17 && count_colons(part.as_slice()) == 5 {
            let ghost before = strings_view(out@);
            out.push(string_from_chars(part.as_slice()));
            assert(strings_view(out@) =~= before.push(part@));
        }
        i = i + 1;
    }
    assert(all.take(i as int) =~= all);
    out
}

/// The lower-case hexadecimal digit for `d < 16`.
pub open spec fn hex_digit(d: nat) -> char {
    if d < 10 {
        crate::text::digit_char(d)
    } else if d == 10 {
        'a'
    } else if d == 11 {
        'b'
    } else if d == 12 {
        'c'
    } else if d == 13 {
        'd'
    } else if d == 14 {
        'e'
    } else {
        'f'
    }
}

pub(crate) fn hex_digit_exec(d: u8) -> (c: char)
    requires
        d < 16,
    ensures
        c == hex_digit(d as nat),
{
    if d < 10 {
        crate::text::digit_exec(d)
    } else if d == 10 {
        'a'
    } else if d == 11 {
        'b'
    } else if d == 12 {
        'c'
    } else if d == 13 {
        'd'
    } else if d == 14 {
        'e'
    } else {
        'f'
    }
}

/// Lower-case hexadecimal text of `bytes`, two digits per byte, high
/// nibble first (`blake3::Hash::to_hex`).
pub open spec fn hex_lower(bytes: Seq<u8>) -> Seq<char>
    decreases bytes.len(),
{
    if bytes.len() == 0 {
        Seq::<char>::empty()
    } else {
        hex_lower(bytes.drop_last()) + seq![
            hex_digit((bytes.last() / 16) as nat),
            hex_digit((bytes.last() % 16) as nat),
        ]
    }
}

fn to_hex(bytes: &[u8]) -> (r: Vec<char>)
    ensures
        r@ == hex_lower(bytes@),
{
    let mut out: Vec<char> = Vec::new();
    let mut i: usize = 0;
    assert(bytes@.take(0) =~= Seq::<u8>::empty());
    while i < bytes.len()
        invariant
            i <= bytes@.len(),
            out@ == hex_lower(bytes@.take(i as int)),
        decreases bytes@.len() - i,
    {
        assert(bytes@.take(i + 1).drop_last() =~= bytes@.take(i as int));
        assert(bytes@.take(i + 1).last() == bytes@[i as int]);
        let b = bytes[i];
        let ghost before = out@;
        out.push(hex_digit_exec(b / 16));
        out.push(hex_digit_exec(b % 16));
        assert(out@ =~= before + seq![hex_digit((b / 16) as nat), hex_digit((b % 16) as nat)]);
        i = i + 1;
    }
    assert(bytes@.take(i as int) =~= bytes@);
    out
}

/// The text that is hashed: `{guid}:{macs}` with both parts lower-cased
/// and the MAC addresses joined by commas.
pub open spec fn fingerprint_input(guid: Seq<char>, macs: Seq<Seq<char>>) -> Seq<char> {
    lowercase(guid) + ":"@ + lowercase(join(macs, ","@))
}

/// The device id: the lower-case hex BLAKE3 digest of the UTF-8 bytes of
/// `fingerprint_input`.
pub open spec fn device_id_of(guid: Seq<char>, macs: Seq<Seq<char>>) -> Seq<char> {
    hex_lower(blake3_digest(encode_utf8(fingerprint_input(guid, macs))))
}

/// A lower-case hexadecimal digit.
pub open spec fn is_lower_hex_char(c: char) -> bool {
    ('0' <= c && c <= '9') || ('a' <= c && c <= 'f')
}

/// Text made of lower-case hexadecimal digits only.
pub open spec fn is_lower_hex(s: Seq<char>) -> bool {
    forall|i: int| 0 <= i < s.len() ==> #[trigger] is_lower_hex_char(s[i])
}

proof fn lemma_hex_lower_digits(bytes: Seq<u8>)
    ensures
        is_lower_hex(hex_lower(bytes)),
        hex_lower(bytes).len() == 2 * bytes.len(),
    decreases bytes.len(),
{
    if bytes.len() > 0 {
        lemma_hex_lower_digits(bytes.drop_last());
        let b = bytes.last();
        let h = hex_lower(bytes);
        let prev = hex_lower(bytes.drop_last());
        assert(is_lower_hex_char(hex_digit((b / 16) as nat)));
        assert(is_lower_hex_char(hex_digit((b % 16) as nat)));
        assert forall|i: int| 0 <= i < h.len() implies #[trigger] is_lower_hex_char(h[i]) by {
            if i < prev.len() {
                assert(h[i] == prev[i]);
            }
        }
    }
}

/// The device id of an ASCII machine GUID and ASCII MAC addresses: the
/// lower-case hex BLAKE3 digest of `{guid}:{macs}`, both parts with their
/// capital letters made small.
pub open spec fn ascii_device_id(guid: Seq<char>, macs: Seq<Seq<char>>) -> Seq<char> {
    hex_lower(blake3_digest(encode_utf8(ascii_lower(guid) + ":"@ + ascii_lower(join(macs, ","@)))))
}

proof fn lemma_ascii_lower_concat(a: Seq<char>, b: Seq<char>)
    ensures
        ascii_lower(a + b) == ascii_lower(a) + ascii_lower(b),
{
    assert(ascii_lower(a + b) =~= ascii_lower(a) + ascii_lower(b));
}

proof fn lemma_ascii_lower_keeps_ascii(s: Seq<char>)
    requires
        vstd::utf8::is_ascii_chars(s),
    ensures
        vstd::utf8::is_ascii_chars(ascii_lower(s)),
        ascii_lower(s).len() == s.len(),
{
    assert forall|i: int| 0 <= i < ascii_lower(s).len() implies '\0' <= #[trigger] ascii_lower(s)[i]
        <= '\u{7f}' by {
        assert('\0' <= s[i] <= '\u{7f}');
    }
}

proof fn lemma_join_lower(m1: Seq<Seq<char>>, m2: Seq<Seq<char>>, sep: Seq<char>)
    requires
        m1.len() == m2.len(),
        forall|i: int| 0 <= i < m1.len() ==> ascii_lower(#[trigger] m1[i]) == ascii_lower(m2[i]),
    ensures
        ascii_lower(join(m1, sep)) == ascii_lower(join(m2, sep)),
    decreases m1.len(),
{
    if m1.len() > 1 {
        lemma_join_lower(m1.drop_last(), m2.drop_last(), sep);
        lemma_ascii_lower_concat(join(m1.drop_last(), sep) + sep, m1.last());
        lemma_ascii_lower_concat(join(m1.drop_last(), sep), sep);
        lemma_ascii_lower_concat(join(m2.drop_last(), sep) + sep, m2.last());
        lemma_ascii_lower_concat(join(m2.drop_last(), sep), sep);
        assert(ascii_lower(m1[m1.len() - 1]) == ascii_lower(m2[m1.len() - 1]));
    } else if m1.len() == 1 {
        assert(ascii_lower(m1[0]) == ascii_lower(m2[0]));
    }
}

proof fn lemma_join_ascii(m: Seq<Seq<char>>, sep: Seq<char>)
    requires
        vstd::utf8::is_ascii_chars(sep),
        forall|i: int| 0 <= i < m.len() ==> vstd::utf8::is_ascii_chars(#[trigger] m[i]),
    ensures
        vstd::utf8::is_ascii_chars(join(m, sep)),
    decreases m.len(),
{
    broadcast use vstd::utf8::is_ascii_chars_concat;

    if m.len() > 1 {
        lemma_join_ascii(m.drop_last(), sep);
        assert(vstd::utf8::is_ascii_chars(m[m.len() - 1]));
        let a = join(m.drop_last(), sep);
        assert(vstd::utf8::is_ascii_chars(a + sep));
        assert(vstd::utf8::is_ascii_chars(a + sep + m.last()));
    } else if m.len() == 1 {
        assert(vstd::utf8::is_ascii_chars(m[0]));
    }
}

/// The capital letters of `s`, made small, do not change its lines.
proof fn lemma_lines_lower(s: Seq<char>)
    ensures
        split_lines(ascii_lower(s)) == split_lines(s).map_values(|l: Seq<char>| ascii_lower(l)),
    decreases s.len(),
{
    let f = |l: Seq<char>| ascii_lower(l);
    assert(ascii_lower(Seq::<char>::empty()) =~= Seq::<char>::empty());
    assert(f(Seq::<char>::empty()) == Seq::<char>::empty());
    if s.len() == 0 {
        assert(ascii_lower(s) =~= Seq::<char>::empty());
        assert(split_lines(s).map_values(f) =~= seq![Seq::<char>::empty()]);
    } else {
        let ls = ascii_lower(s);
        assert(ls.drop_last() =~= ascii_lower(s.drop_last()));
        assert(ls.last() == ascii_lower_char(s.last()));
        lemma_lines_lower(s.drop_last());
        lemma_split_lines_nonempty(s.drop_last());
        let init = split_lines(s.drop_last());
        if s.last() == '\n' {
            assert(ls.last() == '\n');
            assert(split_lines(s).map_values(f) =~= init.map_values(f).push(Seq::<char>::empty()));
        } else {
            assert(ls.last() != '\n');
            let n = init.len() - 1;
            assert(ascii_lower(init.last().push(s.last())) =~= ascii_lower(init.last()).push(
                ascii_lower_char(s.last()),
            ));
            assert(split_lines(s).map_values(f) =~= init.map_values(f).update(
                n,
                init.map_values(f).last().push(ls.last()),
            ));
        }
    }
}

proof fn lemma_lines_ascii(s: Seq<char>)
    requires
        vstd::utf8::is_ascii_chars(s),
    ensures
        forall|i: int| 0 <= i < split_lines(s).len() ==> vstd::utf8::is_ascii_chars(#[trigger] split_lines(s)[i]),
    decreases s.len(),
{
    if s.len() > 0 {
        assert(vstd::utf8::is_ascii_chars(s.drop_last())) by {
            assert forall|i: int| 0 <= i < s.drop_last().len() implies '\0' <= #[trigger] s.drop_last()[i]
                <= '\u{7f}' by {
                assert(s.drop_last()[i] == s[i]);
            }
        }
        lemma_lines_ascii(s.drop_last());
        lemma_split_lines_nonempty(s.drop_last());
        let init = split_lines(s.drop_last());
        if s.last() != '\n' {
            let n = init.len() - 1;
            assert(vstd::utf8::is_ascii_chars(init[n]));
            assert(vstd::utf8::is_ascii_chars(init.last().push(s.last()))) by {
                let l = init.last().push(s.last());
                assert forall|i: int| 0 <= i < l.len() implies '\0' <= #[trigger] l[i] <= '\u{7f}' by {
                    if i < l.len() - 1 {
                        assert(l[i] == init[n][i]);
                    }
                }
            }
            assert forall|i: int| 0 <= i < split_lines(s).len() implies vstd::utf8::is_ascii_chars(
                #[trigger] split_lines(s)[i],
            ) by {
                if i < n {
                    assert(split_lines(s)[i] == init[i]);
                }
            }
        } else {
            assert forall|i: int| 0 <= i < split_lines(s).len() implies vstd::utf8::is_ascii_chars(
                #[trigger] split_lines(s)[i],
            ) by {
                if i < init.len() {
                    assert(split_lines(s)[i] == init[i]);
                } else {
                    assert(split_lines(s)[i] =~= Seq::<char>::empty());
                }
            }
        }
    }
}

proof fn lemma_trim_end_lower(s: Seq<char>)
    requires
        vstd::utf8::is_ascii_chars(s),
    ensures
        trim_end(ascii_lower(s)) == ascii_lower(trim_end(s)),
        vstd::utf8::is_ascii_chars(trim_end(s)),
    decreases s.len(),
{
    if s.len() == 0 {
        assert(ascii_lower(s) =~= s);
    } else {
        let ls = ascii_lower(s);
        assert(ls.drop_last() =~= ascii_lower(s.drop_last()));
        assert('\0' <= s[s.len() - 1] <= '\u{7f}');
        assert(is_whitespace(ls.last()) == is_whitespace(s.last()));
        assert(vstd::utf8::is_ascii_chars(s.drop_last())) by {
            assert forall|i: int| 0 <= i < s.drop_last().len() implies '\0' <= #[trigger] s.drop_last()[i]
                <= '\u{7f}' by {
                assert(s.drop_last()[i] == s[i]);
            }
        }
        lemma_trim_end_lower(s.drop_last());
    }
}

proof fn lemma_trim_start_lower(s: Seq<char>)
    requires
        vstd::utf8::is_ascii_chars(s),
    ensures
        trim_start(ascii_lower(s)) == ascii_lower(trim_start(s)),
        vstd::utf8::is_ascii_chars(trim_start(s)),
    decreases s.len(),
{
    if s.len() == 0 {
        assert(ascii_lower(s) =~= s);
    } else {
        let ls = ascii_lower(s);
        assert(ls.drop_first() =~= ascii_lower(s.drop_first()));
        assert('\0' <= s[0] <= '\u{7f}');
        assert(is_whitespace(ls[0]) == is_whitespace(s[0]));
        assert(vstd::utf8::is_ascii_chars(s.drop_first())) by {
            assert forall|i: int| 0 <= i < s.drop_first().len() implies '\0' <= #[trigger] s.drop_first()[i]
                <= '\u{7f}' by {
                assert(s.drop_first()[i] == s[i + 1]);
            }
        }
        lemma_trim_start_lower(s.drop_first());
    }
}

proof fn lemma_count_colons_lower(s: Seq<char>)
    ensures
        count_char(ascii_lower(s), ':') == count_char(s, ':'),
    decreases s.len(),
{
    if s.len() > 0 {
        assert(ascii_lower(s).drop_last() =~= ascii_lower(s.drop_last()));
        lemma_count_colons_lower(s.drop_last());
    }
}

proof fn lemma_mac_candidate_lower(t: Seq<char>)
    requires
        vstd::utf8::is_ascii_chars(t),
    ensures
        is_mac_candidate(ascii_lower(t)) == is_mac_candidate(t),
        vstd::utf8::is_ascii_chars(ascii_lower(t)),
{
    lemma_ascii_lower_keeps_ascii(t);
    vstd::utf8::is_ascii_chars_encode_utf8(t);
    vstd::utf8::is_ascii_chars_encode_utf8(ascii_lower(t));
    lemma_count_colons_lower(t);
}

proof fn lemma_candidates_lower(lines: Seq<Seq<char>>)
    requires
        forall|i: int| 0 <= i < lines.len() ==> vstd::utf8::is_ascii_chars(#[trigger] lines[i]),
    ensures
        mac_candidates(lines.map_values(|l: Seq<char>| ascii_lower(l))) == mac_candidates(lines).map_values(
            |l: Seq<char>| ascii_lower(l),
        ),
        forall|i: int| 0 <= i < mac_candidates(lines).len() ==> vstd::utf8::is_ascii_chars(
            #[trigger] mac_candidates(lines)[i],
        ),
    decreases lines.len(),
{
    let f = |l: Seq<char>| ascii_lower(l);
    if lines.len() == 0 {
        assert(lines.map_values(f) =~= Seq::<Seq<char>>::empty());
        assert(mac_candidates(lines).map_values(f) =~= Seq::<Seq<char>>::empty());
    } else {
        let n = lines.len() - 1;
        assert(lines.map_values(f).drop_last() =~= lines.drop_last().map_values(f));
        assert(lines.map_values(f).last() == ascii_lower(lines.last()));
        lemma_candidates_lower(lines.drop_last());
        let l = lines.last();
        assert(vstd::utf8::is_ascii_chars(lines[n]));
        lemma_trim_end_lower(l);
        lemma_trim_start_lower(trim_end(l));
        let t = trim(l);
        assert(trim(ascii_lower(l)) == ascii_lower(t));
        lemma_mac_candidate_lower(t);
        let rest = mac_candidates(lines.drop_last());
        if is_mac_candidate(t) {
            assert(rest.push(t).map_values(f) =~= rest.map_values(f).push(ascii_lower(t)));
            assert forall|i: int| 0 <= i < rest.push(t).len() implies vstd::utf8::is_ascii_chars(
                #[trigger] rest.push(t)[i],
            ) by {
                if i < rest.len() {
                    assert(rest.push(t)[i] == rest[i]);
                }
            }
        }
    }
}

/// The MAC addresses found in ASCII adapter listings whose letters differ
/// only in case differ only in case too, in the same order.
proof fn lemma_macs_follow_case(t1: Seq<char>, t2: Seq<char>)
    requires
        vstd::utf8::is_ascii_chars(t1),
        vstd::utf8::is_ascii_chars(t2),
        ascii_lower(t1) == ascii_lower(t2),
    ensures
        macs_of(t1).len() == macs_of(t2).len(),
        forall|i: int| 0 <= i < macs_of(t1).len() ==> ascii_lower(#[trigger] macs_of(t1)[i]) == ascii_lower(
            macs_of(t2)[i],
        ),
        forall|i: int| 0 <= i < macs_of(t1).len() ==> vstd::utf8::is_ascii_chars(#[trigger] macs_of(t1)[i]),
{
    let f = |l: Seq<char>| ascii_lower(l);
    lemma_lines_lower(t1);
    lemma_lines_lower(t2);
    lemma_lines_ascii(t1);
    lemma_lines_ascii(t2);
    lemma_candidates_lower(split_lines(t1));
    lemma_candidates_lower(split_lines(t2));
    let m1 = macs_of(t1);
    let m2 = macs_of(t2);
    assert(m1.map_values(f) == m2.map_values(f));
    assert forall|i: int| 0 <= i < m1.len() implies ascii_lower(#[trigger] m1[i]) == ascii_lower(m2[i]) by {
        assert(m1.map_values(f)[i] == m2.map_values(f)[i]);
    }
}

/// The device id does not change when letters of the machine GUID or of
/// the adapter listing change case: two GUIDs, and two ASCII listings, that
/// differ only in the case of their letters give the same id.
pub proof fn law_device_id_ignores_letter_case(
    guid1: Seq<char>,
    guid2: Seq<char>,
    listing1: Seq<char>,
    listing2: Seq<char>,
)
    requires
        ascii_lower(guid1) == ascii_lower(guid2),
        vstd::utf8::is_ascii_chars(listing1),
        vstd::utf8::is_ascii_chars(listing2),
        ascii_lower(listing1) == ascii_lower(listing2),
    ensures
        ascii_device_id(guid1, macs_of(listing1)) == ascii_device_id(guid2, macs_of(listing2)),
        macs_of(listing1).len() == macs_of(listing2).len(),
{
    lemma_macs_follow_case(listing1, listing2);
    lemma_join_lower(macs_of(listing1), macs_of(listing2), ","@);
}

/// The device id for a machine GUID and its adapters' MAC addresses.
pub fn device_fingerprint(guid: &str, macs: &Vec<String>) -> (r: String)
    ensures
        r@ == device_id_of(guid@, strings_view(macs@)),
        r@.len() == 64,
        is_lower_hex(r@),
        vstd::utf8::is_ascii_chars(guid@) && vstd::utf8::is_ascii_chars(join(strings_view(macs@), ","@))
            ==> r@ == ascii_device_id(guid@, strings_view(macs@)),
{
    let lower_guid = to_lowercase(guid);
    let joined = join_strings(macs, ",");
    let joined_text = string_from_chars(joined.as_slice());
    let lower_macs = to_lowercase(joined_text.as_str());
    let mut input = chars_of(lower_guid.as_str());
    crate::text::push_str(&mut input, ":");
    crate::text::push_str(&mut input, lower_macs.as_str());
    let input_text = string_from_chars(input.as_slice());
    let bytes = input_text.as_str().as_bytes();
    let digest = blake3_hash(bytes);
    let hex = to_hex(digest.as_slice());
    proof {
        lemma_hex_lower_digits(digest@);
    }
    string_from_chars(hex.as_slice())
}

/// Reads the machine GUID out of the registry query's raw output.
pub fn guid_from_registry(stdout: &[u8]) -> (r: Result<String, String>)
    ensures
        match guid_of(decoded_output(stdout@)) {
            Some(g) => r matches Ok(s) && s@ == g,
            None => r matches Err(e) && e@ == "本机机器码格式错误"@,
        },
        forall|t: Seq<char>|
            #![trigger ascii_bytes(t)]
            #![trigger utf16le_with_bom(t)]
            vstd::utf8::is_ascii_chars(t) && (stdout@ == ascii_bytes(t) || stdout@ == utf16le_with_bom(t))
                ==> match guid_of(t) {
                Some(g) => r matches Ok(s) && s@ == g && vstd::utf8::is_ascii_chars(g),
                None => r matches Err(e) && e@ == "本机机器码格式错误"@,
            },
{
    proof {
        assert forall|t: Seq<char>| vstd::utf8::is_ascii_chars(t) implies (guid_of(t) matches Some(g)
            ==> vstd::utf8::is_ascii_chars(g)) by {
            lemma_guid_ascii(t);
        }
    }
    let text = decode_command_output(stdout);
    match machine_guid(text.as_str()) {
        Some(g) => Ok(g),
        None => Err(owned("本机机器码格式错误")),
    }
}

/// The device id from the machine GUID and the adapter listing's raw
/// output; a listing without MAC addresses is an error.
pub fn fingerprint_with_macs(guid: &str, mac_stdout: &[u8]) -> (r: Result<String, String>)
    ensures
        macs_of(utf8_lossy(mac_stdout@)).len() == 0 ==> (r matches Err(e) && e@
            == "没有可用的网卡识别码"@),
        macs_of(utf8_lossy(mac_stdout@)).len() > 0 ==> (r matches Ok(id) && id@ == device_id_of(
            guid@,
            macs_of(utf8_lossy(mac_stdout@)),
        )),
        r matches Ok(id) ==> id@.len() == 64 && is_lower_hex(id@),
        forall|t: Seq<char>|
            #![trigger ascii_bytes(t)]
            vstd::utf8::is_ascii_chars(guid@) && vstd::utf8::is_ascii_chars(t) && mac_stdout@ == ascii_bytes(t)
                ==> if macs_of(t).len() == 0 {
                r matches Err(e) && e@ == "没有可用的网卡识别码"@
            } else {
                r matches Ok(id) && id@ == ascii_device_id(guid@, macs_of(t))
            },
{
    let text = decode_utf8_lossy(mac_stdout);
    let macs = mac_addresses(text.as_str());
    proof {
        reveal_strlit(",");
        assert(vstd::utf8::is_ascii_chars(","@));
        assert forall|t: Seq<char>|
            vstd::utf8::is_ascii_chars(t) && mac_stdout@ == ascii_bytes(t) implies text@ == t
                && vstd::utf8::is_ascii_chars(join(macs_of(t), ","@)) by {
            lemma_ascii_bytes_decode(t);
            lemma_macs_follow_case(t, t);
            lemma_join_ascii(macs_of(t), ","@);
        }
    }
    if macs.len() == 0 {
        return Err(owned("没有可用的网卡识别码"));
    }
    Ok(device_fingerprint(guid, &macs))
}

proof fn lemma_first_line_ascii(lines: Seq<Seq<char>>, word: Seq<char>)
    requires
        forall|i: int| 0 <= i < lines.len() ==> vstd::utf8::is_ascii_chars(#[trigger] lines[i]),
    ensures
        first_line_with(lines, word) matches Some(l) ==> vstd::utf8::is_ascii_chars(l),
    decreases lines.len(),
{
    if lines.len() > 0 {
        assert(vstd::utf8::is_ascii_chars(lines[0]));
        if !has_infix(lines[0], word) {
            assert forall|i: int| 0 <= i < lines.drop_first().len() implies vstd::utf8::is_ascii_chars(
                #[trigger] lines.drop_first()[i],
            ) by {
                assert(lines.drop_first()[i] == lines[i + 1]);
            }
            lemma_first_line_ascii(lines.drop_first(), word);
        }
    }
}

proof fn lemma_trailing_run_ascii(s: Seq<char>)
    requires
        vstd::utf8::is_ascii_chars(s),
    ensures
        vstd::utf8::is_ascii_chars(trailing_run(s)),
    decreases s.len(),
{
    if s.len() > 0 && !is_whitespace(s.last()) {
        assert(vstd::utf8::is_ascii_chars(s.drop_last())) by {
            assert forall|i: int| 0 <= i < s.drop_last().len() implies '\0' <= #[trigger] s.drop_last()[i]
                <= '\u{7f}' by {
                assert(s.drop_last()[i] == s[i]);
            }
        }
        lemma_trailing_run_ascii(s.drop_last());
        let r = trailing_run(s.drop_last());
        assert('\0' <= s[s.len() - 1] <= '\u{7f}');
        assert forall|i: int| 0 <= i < r.push(s.last()).len() implies '\0' <= #[trigger] r.push(s.last())[i]
            <= '\u{7f}' by {
            if i < r.len() {
                assert(r.push(s.last())[i] == r[i]);
            }
        }
    }
}

/// The machine GUID of ASCII registry text is ASCII.
proof fn lemma_guid_ascii(text: Seq<char>)
    requires
        vstd::utf8::is_ascii_chars(text),
    ensures
        guid_of(text) matches Some(g) ==> vstd::utf8::is_ascii_chars(g),
{
    lemma_lines_ascii(text);
    lemma_first_line_ascii(split_lines(text), "MachineGuid"@);
    if let Some(line) = first_line_with(split_lines(text), "MachineGuid"@) {
        lemma_trim_end_lower(line);
        lemma_trailing_run_ascii(trim_end(line));
    }
}

/// The outcome of fingerprinting ASCII command output: `reg` is the text of
/// the registry query and `listing` that of the adapter listing; the
/// device id, or the error message. It is what `guid_from_registry`
/// followed by `fingerprint_with_macs` gives on such output.
pub open spec fn ascii_fingerprint(reg: Seq<char>, listing: Seq<char>) -> Result<Seq<char>, Seq<char>> {
    match guid_of(reg) {
        None => Err("本机机器码格式错误"@),
        Some(g) => if macs_of(listing).len() == 0 {
            Err("没有可用的网卡识别码"@)
        } else {
            Ok(ascii_device_id(g, macs_of(listing)))
        },
    }
}

/// The lines `b` are the lines `a` with the whitespace `before[i]` and
/// `after[i]` put around line `i`.
pub open spec fn padded_lines(
    a: Seq<Seq<char>>,
    b: Seq<Seq<char>>,
    before: Seq<Seq<char>>,
    after: Seq<Seq<char>>,
) -> bool {
    &&& before.len() == a.len()
    &&& after.len() == a.len()
    &&& forall|i: int| 0 <= i < a.len() ==> all_whitespace(#[trigger] before[i]) && all_whitespace(after[i])
    &&& b == Seq::new(a.len(), |i: int| before[i] + a[i] + after[i])
}

/// The lines `b` are the lines `a` (`first` then `rest`) with the lines
/// `extra`, none of which looks like a MAC address, put between them.
pub open spec fn lines_with_extra(
    a: Seq<Seq<char>>,
    b: Seq<Seq<char>>,
    first: Seq<Seq<char>>,
    extra: Seq<Seq<char>>,
    rest: Seq<Seq<char>>,
) -> bool {
    &&& a == first + rest
    &&& b == first + extra + rest
    &&& forall|i: int| 0 <= i < extra.len() ==> !is_mac_candidate(#[trigger] trim(extra[i]))
}

/// The adapter listing `b` is `a` with one change that cannot alter the
/// MAC addresses found: letters changed in case, whitespace put around its
/// lines, or lines that do not look like a MAC address put among them.
pub open spec fn listing_variant(a: Seq<char>, b: Seq<char>) -> bool {
    ||| ascii_lower(a) == ascii_lower(b)
    ||| exists|before: Seq<Seq<char>>, after: Seq<Seq<char>>|
        #[trigger] padded_lines(split_lines(a), split_lines(b), before, after)
    ||| exists|first: Seq<Seq<char>>, extra: Seq<Seq<char>>, rest: Seq<Seq<char>>|
        #[trigger] lines_with_extra(split_lines(a), split_lines(b), first, extra, rest)
}

/// The fingerprint keeps its outcome (the same device id, or the same
/// error) when the machine GUID's letters change case (the registry text
/// being read alike as UTF-8 or as UTF-16 after a byte order mark, as
/// `guid_from_registry` states), and when the adapter listing changes as
/// `listing_variant` allows, one change after another: each listing of
/// `listings` is a variant of the one before it.
pub proof fn law_fingerprint_keeps_its_outcome(
    reg1: Seq<char>,
    reg2: Seq<char>,
    listings: Seq<Seq<char>>,
)
    requires
        listings.len() >= 1,
        forall|i: int| 0 <= i < listings.len() ==> vstd::utf8::is_ascii_chars(#[trigger] listings[i]),
        forall|i: int| 0 <= i < listings.len() - 1 ==> listing_variant(#[trigger] listings[i], listings[i + 1]),
        guid_of(reg1) is None <==> guid_of(reg2) is None,
        guid_of(reg1) matches Some(g1) ==> ascii_lower(g1) == ascii_lower(guid_of(reg2)->0),
    ensures
        ascii_fingerprint(reg1, listings[0]) == ascii_fingerprint(reg2, listings[listings.len() - 1]),
    decreases listings.len(),
{
    if listings.len() == 1 {
        lemma_variant_keeps_outcome(reg1, reg2, listings[0], listings[0]);
    } else {
        let n = listings.len() - 1;
        assert forall|i: int| 0 <= i < listings.drop_last().len() implies vstd::utf8::is_ascii_chars(
            #[trigger] listings.drop_last()[i],
        ) by {
            assert(listings.drop_last()[i] == listings[i]);
        }
        assert forall|i: int| 0 <= i < listings.drop_last().len() - 1 implies listing_variant(
            #[trigger] listings.drop_last()[i],
            listings.drop_last()[i + 1],
        ) by {
            assert(listings.drop_last()[i] == listings[i]);
            assert(listings.drop_last()[i + 1] == listings[i + 1]);
            assert(listing_variant(listings[i], listings[i + 1]));
        }
        law_fingerprint_keeps_its_outcome(reg1, reg2, listings.drop_last());
        assert(listings.drop_last()[n - 1] == listings[n - 1]);
        assert(listing_variant(listings[n - 1], listings[n]));
        assert(vstd::utf8::is_ascii_chars(listings[n - 1]));
        assert(vstd::utf8::is_ascii_chars(listings[n]));
        lemma_variant_keeps_outcome(reg2, reg2, listings[n - 1], listings[n]);
    }
}

proof fn lemma_variant_keeps_outcome(reg1: Seq<char>, reg2: Seq<char>, a: Seq<char>, b: Seq<char>)
    requires
        vstd::utf8::is_ascii_chars(a),
        vstd::utf8::is_ascii_chars(b),
        a == b || listing_variant(a, b),
        guid_of(reg1) is None <==> guid_of(reg2) is None,
        guid_of(reg1) matches Some(g1) ==> ascii_lower(g1) == ascii_lower(guid_of(reg2)->0),
    ensures
        ascii_fingerprint(reg1, a) == ascii_fingerprint(reg2, b),
{
    if let Some(g1) = guid_of(reg1) {
        let g2 = guid_of(reg2)->0;
        if a == b || ascii_lower(a) == ascii_lower(b) {
            if a == b {
                assert(ascii_lower(a) == ascii_lower(b));
            }
            law_device_id_ignores_letter_case(g1, g2, a, b);
        } else if exists|before: Seq<Seq<char>>, after: Seq<Seq<char>>|
            #[trigger] padded_lines(split_lines(a), split_lines(b), before, after) {
            let (before, after) = choose|before: Seq<Seq<char>>, after: Seq<Seq<char>>|
                #[trigger] padded_lines(split_lines(a), split_lines(b), before, after);
            law_macs_ignore_padding(split_lines(a), before, after);
            assert(macs_of(a) == macs_of(b));
            assert(ascii_lower(a) == ascii_lower(a));
            law_device_id_ignores_letter_case(g1, g2, a, a);
        } else {
            let (first, extra, rest) = choose|first: Seq<Seq<char>>, extra: Seq<Seq<char>>, rest: Seq<
                Seq<char>,
            >| #[trigger] lines_with_extra(split_lines(a), split_lines(b), first, extra, rest);
            law_macs_ignore_other_lines(first, extra, rest);
            assert(macs_of(a) == macs_of(b));
            law_device_id_ignores_letter_case(g1, g2, a, a);
        }
    }
}

} // verus!
