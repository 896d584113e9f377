//! Byte offsets into the UTF-8 encoding of a text, and the characters they
//! point at.

use vstd::prelude::*;

verus! {

/// The number of bytes that the UTF-8 encoding of `c` takes.
pub open spec fn utf8_len(c: char) -> nat {
    let n = c as u32;
    if n < 0x80 {
        1
    } else if n < 0x800 {
        2
    } else if n < 0x10000 {
        3
    } else {
        4
    }
}

/// The number of bytes that the UTF-8 encoding of `s` takes.
pub open spec fn byte_len(s: Seq<char>) -> nat
    decreases s.len(),
{
    if s.len() == 0 {
        0
    } else {
        byte_len(s.drop_last()) + utf8_len(s.last())
    }
}

/// The index of the first character of `text`, from index `from` on, before
/// which the encoding holds at least `offset` bytes; the length of `text`
/// where there is none.
pub open spec fn char_index_from(text: Seq<char>, from: nat, offset: nat) -> nat
    decreases text.len() - from,
{
    if from >= text.len() {
        text.len()
    } else if byte_len(text.take(from as int)) >= offset {
        from
    } else {
        char_index_from(text, from + 1, offset)
    }
}

/// The index of the character of `text` that begins at byte `offset` of its
/// encoding. An offset inside a character counts as the start of the next
/// one, and one past the end as the end.
pub open spec fn char_index(text: Seq<char>, offset: nat) -> nat {
    char_index_from(text, 0, offset)
}

/// `char_index_from` gives an index from `from` on and in the text.
pub proof fn lemma_char_index_from_bounds(text: Seq<char>, from: nat, offset: nat)
    requires
        from <= text.len(),
    ensures
        from <= char_index_from(text, from, offset) <= text.len(),
    decreases text.len() - from,
{
    if from < text.len() && byte_len(text.take(from as int)) < offset {
        lemma_char_index_from_bounds(text, from + 1, offset);
    }
}

/// One character more takes the bytes of that character more.
pub proof fn lemma_byte_len_step(text: Seq<char>, i: int)
    requires
        0 <= i < text.len(),
    ensures
        byte_len(text.take(i + 1)) == byte_len(text.take(i)) + utf8_len(text[i]),
{
    assert(text.take(i + 1).drop_last() =~= text.take(i));
}

/// A later byte lies in a later character, or in the same one.
pub proof fn lemma_char_index_monotone(text: Seq<char>, a: nat, b: nat)
    requires
        a <= b,
    ensures
        char_index(text, a) <= char_index(text, b) <= text.len(),
{
    lemma_char_index_from_monotone(text, 0, a, b);
}

/// Counting from `from`, a later byte lies in a later character, or in the
/// same one.
proof fn lemma_char_index_from_monotone(text: Seq<char>, from: nat, a: nat, b: nat)
    requires
        a <= b,
        from <= text.len(),
    ensures
        char_index_from(text, from, a) <= char_index_from(text, from, b) <= text.len(),
    decreases text.len() - from,
{
    lemma_char_index_from_bounds(text, from, b);
    if from < text.len() && byte_len(text.take(from as int)) < b {
        lemma_char_index_from_bounds(text, from + 1, b);
        if byte_len(text.take(from as int)) < a {
            lemma_char_index_from_monotone(text, from + 1, a, b);
        }
    }
}

/// The number of bytes that the UTF-8 encoding of `c` takes.
pub fn utf8_width(c: char) -> (r: usize)
    ensures
        r == utf8_len(c),
{
    let n: u32 = c as u32;
    if n < 0x80 {
        1
    } else if n < 0x800 {
        2
    } else if n < 0x10000 {
        3
    } else {
        4
    }
}

/// The index of the character of `text` at byte `offset` of its encoding.
pub fn char_index_at(text: &Vec<char>, offset: usize) -> (r: usize)
    ensures
        r == char_index(text@, offset as nat),
        r <= text.len(),
{
    let mut i: usize = 0;
    let mut bytes: usize = 0;
    while i < text.len() && bytes < offset
        invariant
            i <= text.len(),
            bytes == byte_len(text@.take(i as int)),
            char_index(text@, offset as nat) == char_index_from(text@, i as nat, offset as nat),
        decreases text.len() - i,
    {
        let w = utf8_width(text[i]);
        proof {
            lemma_byte_len_step(text@, i as int);
        }
        if bytes > usize::MAX - w {
            proof {
                lemma_char_index_from_bounds(text@, (i + 1) as nat, offset as nat);
            }
            return i + 1;
        }
        bytes = bytes + w;
        i += 1;
    }
    proof {
        lemma_char_index_from_bounds(text@, i as nat, offset as nat);
    }
    i
}

/// A number of bytes, cut down to the largest `usize` where it is larger.
pub open spec fn clip(n: nat) -> usize {
    if n <= usize::MAX {
        n as usize
    } else {
        usize::MAX
    }
}

/// The number of bytes that the characters of `v` from index `from` up to,
/// not including, `to` take in UTF-8, cut down to the largest `usize`.
pub fn byte_length(v: &Vec<char>, from: usize, to: usize) -> (r: usize)
    requires
        from <= to <= v.len(),
    ensures
        r == clip(byte_len(v@.subrange(from as int, to as int))),
{
    let mut i: usize = from;
    let mut bytes: usize = 0;
    while i < to
        invariant
            from <= i <= to <= v.len(),
            bytes == clip(byte_len(v@.subrange(from as int, i as int))),
        decreases to - i,
    {
        let w = utf8_width(v[i]);
        proof {
            assert(v@.subrange(from as int, i + 1).drop_last() =~= v@.subrange(
                from as int,
                i as int,
            ));
        }
        bytes = if bytes > usize::MAX - w {
            usize::MAX
        } else {
            bytes + w
        };
        i += 1;
    }
    bytes
}

} // verus!
