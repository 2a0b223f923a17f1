//! Offsets into text: how many bytes a text takes in UTF-8 and how many code
//! units in UTF-16, which byte offsets fall between characters, and how the
//! two kinds of offset map onto each other.

use vstd::prelude::*;
use vstd::string::*;
use vstd::utf8::*;

use crate::text::{slice_text, to_chars};

verus! {

/// Bytes that `c` takes in UTF-8.
pub open spec fn width8(c: char) -> nat {
    let n = c as u32;
    if n < 0x80 {
        1
    } else if n < 0x800 {
        2
    } else if n < 0x10000 {
        3
    } else {
        4
    }
}

/// Code units that `c` takes in UTF-16.
pub open spec fn width16(c: char) -> nat {
    if (c as u32) < 0x10000 {
        1
    } else {
        2
    }
}

/// Bytes that `s` takes in UTF-8.
pub open spec fn byte_len(s: Seq<char>) -> nat
    decreases s.len(),
{
    if s.len() == 0 {
        0
    } else {
        byte_len(s.drop_last()) + width8(s.last())
    }
}

/// Code units that `s` takes in UTF-16.
pub open spec fn unit_len(s: Seq<char>) -> nat
    decreases s.len(),
{
    if s.len() == 0 {
        0
    } else {
        unit_len(s.drop_last()) + width16(s.last())
    }
}

/// Bytes that `c` takes in UTF-8.
pub fn len_utf8(c: char) -> (r: usize)
    ensures
        r == width8(c),
{
    let n: u32 = c as u32;
    if n < 0x80 {
        1
    } else if n < 0x800 {
        2
    } else if n < 0x10000 {
        3
    } else {
        4
    }
}

/// Code units that `c` takes in UTF-16.
pub fn len_utf16(c: char) -> (r: usize)
    ensures
        r == width16(c),
{
    if (c as u32) < 0x10000 {
        1
    } else {
        2
    }
}

/// Byte lengths of neighbouring prefixes.
pub proof fn lemma_byte_len_step(s: Seq<char>, k: int)
    requires
        0 <= k < s.len(),
    ensures
        byte_len(s.take(k + 1)) == byte_len(s.take(k)) + width8(s[k]),
        unit_len(s.take(k + 1)) == unit_len(s.take(k)) + width16(s[k]),
{
    assert(s.take(k + 1).drop_last() =~= s.take(k));
}

/// Longer prefixes take more bytes and more code units.
pub proof fn lemma_byte_len_grows(s: Seq<char>, j: int, k: int)
    requires
        0 <= j <= k <= s.len(),
    ensures
        byte_len(s.take(j)) + (k - j) <= byte_len(s.take(k)),
        unit_len(s.take(j)) + (k - j) <= unit_len(s.take(k)),
        unit_len(s.take(k)) <= byte_len(s.take(k)),
        k <= byte_len(s.take(k)),
    decreases k,
{
    if k == 0 {
        assert(s.take(0).len() == 0);
    } else {
        lemma_byte_len_step(s, k - 1);
        if j < k {
            lemma_byte_len_grows(s, j, k - 1);
        } else {
            lemma_byte_len_grows(s, k - 1, k - 1);
        }
    }
}

/// The byte length of a concatenation.
pub proof fn lemma_byte_len_concat(a: Seq<char>, b: Seq<char>)
    ensures
        byte_len(a + b) == byte_len(a) + byte_len(b),
    decreases b.len(),
{
    if b.len() == 0 {
        assert(a + b =~= a);
    } else {
        lemma_byte_len_concat(a, b.drop_last());
        assert((a + b).drop_last() =~= a + b.drop_last());
    }
}

/// The UTF-8 encoding of `c` is `width8(c)` bytes long.
proof fn lemma_scalar_width(c: char)
    ensures
        encode_scalar(c as u32).len() == width8(c),
{
}

/// The UTF-8 encoding of `s` is `byte_len(s)` bytes long.
pub proof fn lemma_encoded_len(s: Seq<char>)
    ensures
        encode_utf8(s).len() == byte_len(s),
    decreases s.len(),
{
    if s.len() > 0 {
        let first = s.take(1);
        let rest = s.drop_first();
        lemma_encoded_len(rest);
        assert(first + rest =~= s);
        lemma_byte_len_concat(first, rest);
        assert(byte_len(first.drop_last()) == 0);
        assert(first.last() == s[0]);
        lemma_scalar_width(s[0]);
    }
}

/// The number of bytes in `s`.
pub fn text_len(s: &str) -> (r: usize)
    ensures
        r == byte_len(s@),
{
    let bytes: &[u8] = s.as_bytes();
    proof {
        lemma_encoded_len(s@);
    }
    bytes.len()
}

/// The UTF-8 encoding of `s`.
pub fn text_bytes(s: &str) -> (r: Vec<u8>)
    ensures
        r@ == encode_utf8(s@),
{
    s.as_bytes_vec()
}

// ---- Character boundaries ----

/// Whether `offset` falls between two characters of `s`, or at either end.
pub open spec fn boundary(s: Seq<char>, offset: int) -> bool {
    exists|k: int| 0 <= k <= s.len() && byte_len(#[trigger] s.take(k)) == offset
}

/// The number of characters before the boundary `offset`.
pub open spec fn chars_before(s: Seq<char>, offset: int) -> int {
    choose|k: int| 0 <= k <= s.len() && byte_len(#[trigger] s.take(k)) == offset
}

/// The text before the boundary `offset`.
pub open spec fn before(s: Seq<char>, offset: int) -> Seq<char> {
    s.take(chars_before(s, offset))
}

/// The text from the boundary `offset` on.
pub open spec fn after(s: Seq<char>, offset: int) -> Seq<char> {
    s.skip(chars_before(s, offset))
}

/// A prefix ends at a boundary, and that boundary has that prefix before it.
pub proof fn lemma_boundary(s: Seq<char>, k: int)
    requires
        0 <= k <= s.len(),
    ensures
        boundary(s, byte_len(s.take(k)) as int),
        chars_before(s, byte_len(s.take(k)) as int) == k,
        byte_len(s.take(k)) <= byte_len(s),
{
    let offset = byte_len(s.take(k)) as int;
    let c = chars_before(s, offset);
    assert(0 <= c <= s.len() && byte_len(s.take(c)) == offset);
    if c < k {
        lemma_byte_len_grows(s, c, k);
    } else if k < c {
        lemma_byte_len_grows(s, k, c);
    }
    lemma_byte_len_grows(s, k, s.len() as int);
    assert(s.take(s.len() as int) =~= s);
}

/// Both ends of a text are boundaries.
pub proof fn lemma_end_boundaries(s: Seq<char>)
    ensures
        boundary(s, 0),
        boundary(s, byte_len(s) as int),
        chars_before(s, 0) == 0,
        chars_before(s, byte_len(s) as int) == s.len(),
{
    lemma_boundary(s, 0);
    assert(s.take(0).len() == 0);
    lemma_boundary(s, s.len() as int);
    assert(s.take(s.len() as int) =~= s);
}

/// What a boundary says of the characters before it.
pub proof fn lemma_at_boundary(s: Seq<char>, offset: int)
    requires
        boundary(s, offset),
    ensures
        0 <= chars_before(s, offset) <= s.len(),
        byte_len(s.take(chars_before(s, offset))) == offset,
        0 <= offset <= byte_len(s),
{
    lemma_boundary(s, chars_before(s, offset));
}

/// Boundaries are ordered as the character counts before them.
pub proof fn lemma_boundary_order(s: Seq<char>, a: int, b: int)
    requires
        boundary(s, a),
        boundary(s, b),
    ensures
        a < b <==> chars_before(s, a) < chars_before(s, b),
        a == b <==> chars_before(s, a) == chars_before(s, b),
{
    lemma_at_boundary(s, a);
    lemma_at_boundary(s, b);
    let i = chars_before(s, a);
    let j = chars_before(s, b);
    if i < j {
        lemma_byte_len_grows(s, i, j);
    } else {
        lemma_byte_len_grows(s, j, i);
    }
}

/// The end of a prefix is still a boundary, with the same prefix before it,
/// whatever follows.
pub proof fn lemma_prefix_boundary(a: Seq<char>, b: Seq<char>)
    ensures
        boundary(a + b, byte_len(a) as int),
        before(a + b, byte_len(a) as int) == a,
        after(a + b, byte_len(a) as int) == b,
{
    assert((a + b).take(a.len() as int) =~= a);
    assert((a + b).skip(a.len() as int) =~= b);
    lemma_boundary(a + b, a.len() as int);
}

/// The number of characters before the boundary `offset`.
pub fn count_before(v: &Vec<char>, offset: usize) -> (k: usize)
    requires
        boundary(v@, offset as int),
    ensures
        k == chars_before(v@, offset as int),
        k <= v@.len(),
{
    let ghost target = chars_before(v@, offset as int);
    proof {
        lemma_at_boundary(v@, offset as int);
    }
    let mut k: usize = 0;
    let mut seen: usize = 0;
    assert(v@.take(0).len() == 0);
    while seen < offset
        invariant
            0 <= k <= target <= v@.len(),
            seen == byte_len(v@.take(k as int)),
            byte_len(v@.take(target)) == offset,
            seen <= offset,
            target == chars_before(v@, offset as int),
        decreases offset - seen,
    {
        proof {
            if k == target {
                assert(false);
            }
            lemma_byte_len_step(v@, k as int);
            lemma_byte_len_grows(v@, k + 1, target);
        }
        seen += len_utf8(v[k]);
        k += 1;
    }
    proof {
        lemma_byte_len_grows(v@, k as int, target);
    }
    k
}

/// The text before and the text from the boundary `offset` on.
pub fn split_at(s: &str, offset: usize) -> (r: (String, String))
    requires
        boundary(s@, offset as int),
    ensures
        r.0@ == before(s@, offset as int),
        r.1@ == after(s@, offset as int),
{
    let v: Vec<char> = to_chars(s);
    let k: usize = count_before(&v, offset);
    let a = slice_text(&v, 0, k);
    let b = slice_text(&v, k, v.len());
    (a, b)
}

/// The text between two boundaries.
pub open spec fn between(s: Seq<char>, a: int, b: int) -> Seq<char> {
    s.subrange(chars_before(s, a), chars_before(s, b))
}

/// The text between two boundaries.
pub fn slice_between(s: &str, a: usize, b: usize) -> (r: String)
    requires
        boundary(s@, a as int),
        boundary(s@, b as int),
        a <= b,
    ensures
        r@ == between(s@, a as int, b as int),
{
    let v: Vec<char> = to_chars(s);
    proof {
        lemma_boundary_order(s@, a as int, b as int);
    }
    let i: usize = count_before(&v, a);
    let j: usize = count_before(&v, b);
    slice_text(&v, i, j)
}

// ---- UTF-16 ----

/// The fewest characters, from `k` on, whose UTF-16 form reaches `units`.
pub open spec fn reach_units(s: Seq<char>, k: int, units: int) -> int
    decreases s.len() - k,
{
    if k >= s.len() || unit_len(s.take(k)) >= units {
        k
    } else {
        reach_units(s, k + 1, units)
    }
}

/// The fewest characters, from `k` on, whose UTF-8 form reaches `bytes`.
pub open spec fn reach_bytes(s: Seq<char>, k: int, bytes: int) -> int
    decreases s.len() - k,
{
    if k >= s.len() || byte_len(s.take(k)) >= bytes {
        k
    } else {
        reach_bytes(s, k + 1, bytes)
    }
}

/// The byte offset that the UTF-16 offset `units` stands for.
pub open spec fn from_utf16(s: Seq<char>, units: int) -> int {
    byte_len(s.take(reach_units(s, 0, units))) as int
}

/// The UTF-16 offset that the byte offset `bytes` stands for.
pub open spec fn to_utf16(s: Seq<char>, bytes: int) -> int {
    unit_len(s.take(reach_bytes(s, 0, bytes))) as int
}

/// Bounds of `reach_units`.
pub proof fn lemma_reach_units(s: Seq<char>, k: int, units: int)
    requires
        0 <= k <= s.len(),
    ensures
        k <= reach_units(s, k, units) <= s.len(),
    decreases s.len() - k,
{
    if k < s.len() && unit_len(s.take(k)) < units {
        lemma_reach_units(s, k + 1, units);
    }
}

/// Whatever UTF-16 offset is asked for, the byte offset is a boundary.
pub proof fn lemma_from_utf16_boundary(s: Seq<char>, units: int)
    ensures
        boundary(s, from_utf16(s, units)),
        0 <= from_utf16(s, units) <= byte_len(s),
{
    lemma_reach_units(s, 0, units);
    lemma_boundary(s, reach_units(s, 0, units));
}

/// Reaching exactly the units of a prefix takes exactly that prefix.
pub proof fn lemma_reach_exact(s: Seq<char>, k: int, target: int)
    requires
        0 <= k <= target <= s.len(),
    ensures
        reach_units(s, k, unit_len(s.take(target)) as int) == target,
        reach_bytes(s, k, byte_len(s.take(target)) as int) == target,
    decreases target - k,
{
    lemma_byte_len_grows(s, k, target);
    if k < target {
        lemma_reach_exact(s, k + 1, target);
    }
}

/// The UTF-16 offset of a character boundary stands for that boundary again:
/// converting there and back loses nothing.
pub proof fn utf16_round_trip(s: Seq<char>, offset: int)
    requires
        boundary(s, offset),
    ensures
        from_utf16(s, to_utf16(s, offset)) == offset,
{
    lemma_at_boundary(s, offset);
    let k = chars_before(s, offset);
    lemma_reach_exact(s, 0, k);
}

/// The byte offset that the UTF-16 offset `offset` stands for: the end of the
/// shortest run of characters from the start that reaches it.
pub fn offset_from_utf16(s: &str, offset: usize) -> (r: usize)
    ensures
        r == from_utf16(s@, offset as int),
        boundary(s@, r as int),
{
    let v: Vec<char> = to_chars(s);
    let total: usize = text_len(s);
    let mut utf8_offset: usize = 0;
    let mut utf16_count: usize = 0;
    let mut k: usize = 0;
    assert(v@.take(0).len() == 0);
    assert(s@.take(s@.len() as int) =~= s@);
    while k < v.len() && utf16_count < offset
        invariant
            v@ == s@,
            k <= v@.len(),
            total == byte_len(s@),
            s@.take(s@.len() as int) == s@,
            utf8_offset == byte_len(s@.take(k as int)),
            utf16_count == unit_len(s@.take(k as int)),
            reach_units(s@, k as int, offset as int) == reach_units(s@, 0, offset as int),
        decreases v@.len() - k,
    {
        proof {
            lemma_byte_len_step(s@, k as int);
            lemma_byte_len_grows(s@, k + 1, s@.len() as int);
        }
        utf16_count += len_utf16(v[k]);
        utf8_offset += len_utf8(v[k]);
        k += 1;
    }
    proof {
        lemma_from_utf16_boundary(s@, offset as int);
    }
    utf8_offset
}

/// The UTF-16 offset that the byte offset `offset` stands for.
pub fn offset_to_utf16(s: &str, offset: usize) -> (r: usize)
    ensures
        r == to_utf16(s@, offset as int),
{
    let v: Vec<char> = to_chars(s);
    let total: usize = text_len(s);
    let mut utf16_offset: usize = 0;
    let mut utf8_count: usize = 0;
    let mut k: usize = 0;
    assert(v@.take(0).len() == 0);
    assert(s@.take(s@.len() as int) =~= s@);
    while k < v.len() && utf8_count < offset
        invariant
            v@ == s@,
            k <= v@.len(),
            total == byte_len(s@),
            s@.take(s@.len() as int) == s@,
            utf8_count == byte_len(s@.take(k as int)),
            utf16_offset == unit_len(s@.take(k as int)),
            reach_bytes(s@, k as int, offset as int) == reach_bytes(s@, 0, offset as int),
        decreases v@.len() - k,
    {
        proof {
            lemma_byte_len_step(s@, k as int);
            lemma_byte_len_grows(s@, k + 1, s@.len() as int);
        }
        utf8_count += len_utf8(v[k]);
        utf16_offset += len_utf16(v[k]);
        k += 1;
    }
    utf16_offset
}

} // verus!
