//! The mathematical model of a text buffer.
//!
//! A buffer is a sequence of Unicode scalar values (`Seq<char>`). The
//! protocol addresses it in three units at once: bytes of its UTF-8
//! encoding, UTF-16 code units, and lines separated by `'\n'`. The spec
//! functions here measure prefixes of the buffer in each unit and convert
//! between protocol positions (line, UTF-16 character) and byte offsets.

use vstd::prelude::*;

verus! {

/// Number of bytes of the UTF-8 encoding of one scalar value.
pub open spec fn char_utf8_len(c: char) -> nat {
    if (c as u32) < 0x80 {
        1
    } else if (c as u32) < 0x800 {
        2
    } else if (c as u32) < 0x10000 {
        3
    } else {
        4
    }
}

/// Number of UTF-16 code units of one scalar value.
pub open spec fn char_utf16_len(c: char) -> nat {
    if (c as u32) < 0x10000 {
        1
    } else {
        2
    }
}

/// Bytes of the UTF-8 encoding of the first `c` scalar values of `s`.
pub open spec fn byte_of(s: Seq<char>, c: nat) -> nat
    decreases c,
{
    if c == 0 {
        0
    } else {
        byte_of(s, (c - 1) as nat) + char_utf8_len(s[c - 1])
    }
}

/// UTF-16 code units of the first `c` scalar values of `s`.
pub open spec fn cu_of(s: Seq<char>, c: nat) -> nat
    decreases c,
{
    if c == 0 {
        0
    } else {
        cu_of(s, (c - 1) as nat) + char_utf16_len(s[c - 1])
    }
}

/// Line breaks (`'\n'`) among the first `c` scalar values of `s`.
pub open spec fn lines_of(s: Seq<char>, c: nat) -> nat
    decreases c,
{
    if c == 0 {
        0
    } else {
        lines_of(s, (c - 1) as nat) + if s[c - 1] == '\n' {
            1nat
        } else {
            0nat
        }
    }
}

/// Total UTF-8 byte length of `s`.
pub open spec fn text_bytes(s: Seq<char>) -> nat {
    byte_of(s, s.len())
}

/// Total UTF-16 code-unit length of `s`.
pub open spec fn text_cus(s: Seq<char>) -> nat {
    cu_of(s, s.len())
}

/// Total number of line breaks in `s`; the buffer has `newlines(s) + 1` lines.
pub open spec fn newlines(s: Seq<char>) -> nat {
    lines_of(s, s.len())
}

/// `c` is the scalar index whose byte offset is the greatest one not above `b`:
/// the scalar that the byte at offset `b` belongs to (or the end of the buffer).
pub open spec fn byte_floor_at(s: Seq<char>, b: nat, c: nat) -> bool {
    c <= s.len() && byte_of(s, c) <= b && (c == s.len() || b < byte_of(s, c + 1))
}

/// The scalar index that byte offset `b` falls in.
pub open spec fn char_at_byte_floor(s: Seq<char>, b: nat) -> nat {
    choose|c: nat| byte_floor_at(s, b, c)
}

/// `c` is the scalar index whose UTF-16 offset is the greatest one not above `q`.
pub open spec fn cu_floor_at(s: Seq<char>, q: nat, c: nat) -> bool {
    c <= s.len() && cu_of(s, c) <= q && (c == s.len() || q < cu_of(s, c + 1))
}

/// The scalar index that UTF-16 offset `q` falls in.
pub open spec fn char_at_cu_floor(s: Seq<char>, q: nat) -> nat {
    choose|c: nat| cu_floor_at(s, q, c)
}

/// `c` is the scalar index at which line `line` starts.
pub open spec fn is_line_start(s: Seq<char>, line: nat, c: nat) -> bool {
    c <= s.len() && lines_of(s, c) == line && (c == 0 || s[c - 1] == '\n')
}

/// The scalar index at which line `line` starts (defined for `line <= newlines(s)`).
pub open spec fn line_start_char(s: Seq<char>, line: nat) -> nat {
    choose|c: nat| is_line_start(s, line, c)
}

/// The scalar index one past the last scalar of line `line`, its line break
/// included.
pub open spec fn line_end_char(s: Seq<char>, line: nat) -> nat {
    if line == newlines(s) {
        s.len()
    } else {
        line_start_char(s, (line + 1) as nat)
    }
}

/// Byte offset `b` lies on a scalar boundary of `s` (the end included).
pub open spec fn is_byte_boundary(s: Seq<char>, b: nat) -> bool {
    exists|c: nat| c <= s.len() && byte_of(s, c) == b
}

/// A protocol position addresses `s`: its line exists and its character
/// offset stays within that line (the line's own break included).
pub open spec fn pos_valid(s: Seq<char>, line: nat, character: nat) -> bool {
    line <= newlines(s) && cu_of(s, line_start_char(s, line)) + character <= cu_of(
        s,
        line_end_char(s, line),
    )
}

/// The scalar index a protocol position resolves to: the start of its line,
/// advanced by `character` UTF-16 code units.
pub open spec fn pos_to_char(s: Seq<char>, line: nat, character: nat) -> nat {
    char_at_cu_floor(s, cu_of(s, line_start_char(s, line)) + character)
}

/// The byte offset a protocol position resolves to.
pub open spec fn pos_to_byte(s: Seq<char>, line: nat, character: nat) -> nat {
    byte_of(s, pos_to_char(s, line, character))
}

/// The line that byte offset `b` belongs to.
pub open spec fn byte_to_line(s: Seq<char>, b: nat) -> nat {
    lines_of(s, char_at_byte_floor(s, b))
}

/// The UTF-16 distance from the start of its line to byte offset `b`.
pub open spec fn byte_to_character(s: Seq<char>, b: nat) -> nat {
    (cu_of(s, char_at_byte_floor(s, b)) - cu_of(
        s,
        line_start_char(s, byte_to_line(s, b)),
    )) as nat
}

/// Prefix measures grow with the prefix; every scalar adds at least one
/// byte and one code unit, and at most one line break.
pub proof fn lemma_measures_mono(s: Seq<char>, c1: nat, c2: nat)
    requires
        c1 <= c2,
    ensures
        byte_of(s, c1) + (c2 - c1) <= byte_of(s, c2),
        cu_of(s, c1) + (c2 - c1) <= cu_of(s, c2),
        lines_of(s, c1) <= lines_of(s, c2),
        lines_of(s, c2) <= lines_of(s, c1) + (c2 - c1),
    decreases c2 - c1,
{
    if c1 < c2 {
        lemma_measures_mono(s, c1, (c2 - 1) as nat);
    }
}

/// Counts in a coarser unit never exceed counts in a finer one: a prefix
/// holds no more line breaks than scalars, no more scalars than UTF-16
/// units, and no more UTF-16 units than UTF-8 bytes.
pub proof fn lemma_counts_le(s: Seq<char>, c: nat)
    ensures
        lines_of(s, c) <= c,
        c <= cu_of(s, c),
        cu_of(s, c) <= byte_of(s, c),
    decreases c,
{
    if c > 0 {
        lemma_counts_le(s, (c - 1) as nat);
    }
}

proof fn lemma_byte_floor_scan(s: Seq<char>, b: nat, k: nat)
    requires
        k <= s.len(),
        byte_of(s, k) <= b,
    ensures
        exists|c: nat| byte_floor_at(s, b, c),
    decreases s.len() - k,
{
    if k == s.len() {
        assert(byte_floor_at(s, b, k));
    } else if b < byte_of(s, (k + 1) as nat) {
        assert(byte_floor_at(s, b, k));
    } else {
        lemma_byte_floor_scan(s, b, (k + 1) as nat);
    }
}

/// Every byte offset has a scalar it falls in (or the end of the buffer).
pub proof fn lemma_byte_floor(s: Seq<char>, b: nat)
    ensures
        byte_floor_at(s, b, char_at_byte_floor(s, b)),
{
    lemma_byte_floor_scan(s, b, 0);
}

/// That scalar is unique.
pub proof fn lemma_byte_floor_unique(s: Seq<char>, b: nat, c1: nat, c2: nat)
    requires
        byte_floor_at(s, b, c1),
        byte_floor_at(s, b, c2),
    ensures
        c1 == c2,
{
    if c1 < c2 {
        lemma_measures_mono(s, (c1 + 1) as nat, c2);
    } else if c2 < c1 {
        lemma_measures_mono(s, (c2 + 1) as nat, c1);
    }
}

proof fn lemma_cu_floor_scan(s: Seq<char>, q: nat, k: nat)
    requires
        k <= s.len(),
        cu_of(s, k) <= q,
    ensures
        exists|c: nat| cu_floor_at(s, q, c),
    decreases s.len() - k,
{
    if k == s.len() {
        assert(cu_floor_at(s, q, k));
    } else if q < cu_of(s, (k + 1) as nat) {
        assert(cu_floor_at(s, q, k));
    } else {
        lemma_cu_floor_scan(s, q, (k + 1) as nat);
    }
}

/// Every UTF-16 offset has a scalar it falls in (or the end of the buffer).
pub proof fn lemma_cu_floor(s: Seq<char>, q: nat)
    ensures
        cu_floor_at(s, q, char_at_cu_floor(s, q)),
{
    lemma_cu_floor_scan(s, q, 0);
}

/// That scalar is unique.
pub proof fn lemma_cu_floor_unique(s: Seq<char>, q: nat, c1: nat, c2: nat)
    requires
        cu_floor_at(s, q, c1),
        cu_floor_at(s, q, c2),
    ensures
        c1 == c2,
{
    if c1 < c2 {
        lemma_measures_mono(s, (c1 + 1) as nat, c2);
    } else if c2 < c1 {
        lemma_measures_mono(s, (c2 + 1) as nat, c1);
    }
}

proof fn lemma_line_start_scan(s: Seq<char>, line: nat, k: nat)
    requires
        k <= s.len(),
        line <= newlines(s),
        lines_of(s, k) <= line,
        lines_of(s, k) == line ==> is_line_start(s, line, k),
    ensures
        exists|c: nat| is_line_start(s, line, c),
    decreases s.len() - k,
{
    if lines_of(s, k) == line {
        assert(is_line_start(s, line, k));
    } else {
        lemma_measures_mono(s, k, s.len());
        lemma_line_start_scan(s, line, (k + 1) as nat);
    }
}

/// Every line of the buffer has a start.
pub proof fn lemma_line_start(s: Seq<char>, line: nat)
    requires
        line <= newlines(s),
    ensures
        is_line_start(s, line, line_start_char(s, line)),
{
    lemma_line_start_scan(s, line, 0);
}

/// And only one.
pub proof fn lemma_line_start_unique(s: Seq<char>, line: nat, c1: nat, c2: nat)
    requires
        is_line_start(s, line, c1),
        is_line_start(s, line, c2),
    ensures
        c1 == c2,
{
    if c1 < c2 {
        lemma_measures_mono(s, c1, (c2 - 1) as nat);
        assert(lines_of(s, c2) == lines_of(s, (c2 - 1) as nat) + 1);
    } else if c2 < c1 {
        lemma_measures_mono(s, c2, (c1 - 1) as nat);
        assert(lines_of(s, c1) == lines_of(s, (c1 - 1) as nat) + 1);
    }
}

/// The start of the line that scalar `c` lies on is at or before `c`.
pub proof fn lemma_line_start_le(s: Seq<char>, c: nat)
    requires
        c <= s.len(),
    ensures
        lines_of(s, c) <= newlines(s),
        is_line_start(s, lines_of(s, c), line_start_char(s, lines_of(s, c))),
        line_start_char(s, lines_of(s, c)) <= c,
{
    lemma_measures_mono(s, c, s.len());
    lemma_line_start(s, lines_of(s, c));
    let ls = line_start_char(s, lines_of(s, c));
    if ls > c {
        lemma_measures_mono(s, c, (ls - 1) as nat);
        assert(lines_of(s, ls) == lines_of(s, (ls - 1) as nat) + 1);
    }
}

/// Scalar `c` lies at or before the end of its line.
pub proof fn lemma_char_le_line_end(s: Seq<char>, c: nat)
    requires
        c <= s.len(),
    ensures
        lines_of(s, c) <= newlines(s),
        c <= line_end_char(s, lines_of(s, c)),
{
    lemma_measures_mono(s, c, s.len());
    let line = lines_of(s, c);
    if line < newlines(s) {
        lemma_line_start(s, (line + 1) as nat);
        let ls2 = line_start_char(s, (line + 1) as nat);
        if ls2 < c {
            lemma_measures_mono(s, ls2, c);
        }
    }
}

/// Round trip: a byte offset on a scalar boundary, converted to a protocol
/// position and back, comes back unchanged, and the position it passes
/// through addresses the buffer.
pub proof fn lemma_position_byte_round_trip(s: Seq<char>, b: nat)
    requires
        is_byte_boundary(s, b),
    ensures
        pos_valid(s, byte_to_line(s, b), byte_to_character(s, b)),
        pos_to_byte(s, byte_to_line(s, b), byte_to_character(s, b)) == b,
{
    lemma_byte_floor(s, b);
    let c = char_at_byte_floor(s, b);
    let w = choose|c: nat| c <= s.len() && byte_of(s, c) == b;
    assert(byte_floor_at(s, b, w));
    lemma_byte_floor_unique(s, b, c, w);
    let line = lines_of(s, c);
    lemma_line_start_le(s, c);
    let ls = line_start_char(s, line);
    lemma_measures_mono(s, ls, c);
    lemma_char_le_line_end(s, c);
    lemma_measures_mono(s, c, line_end_char(s, line));
    assert(cu_floor_at(s, cu_of(s, c), c));
    lemma_cu_floor(s, cu_of(s, c));
    lemma_cu_floor_unique(s, cu_of(s, c), char_at_cu_floor(s, cu_of(s, c)), c);
}

} // verus!
