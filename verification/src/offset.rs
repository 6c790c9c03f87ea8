//! Byte offsets into a text.
//!
//! An offset counts the bytes of the UTF-8 encoding of what stands before it. A text can be cut
//! only where one of its characters ends.

use vstd::prelude::*;
use vstd::slice::slice_subrange;
use vstd::utf8::{encode_scalar, encode_utf8, is_ascii_chars, is_ascii_chars_encode_utf8};

use crate::text::{find, find_text, lemma_find_text};

verus! {

/// The number of bytes that a text takes in UTF-8.
pub open spec fn byte_len(text: Seq<char>) -> nat {
    encode_utf8(text).len()
}

/// The number of bytes that a character takes in UTF-8.
pub open spec fn byte_width(c: char) -> nat {
    encode_scalar(c as u32).len()
}

/// The first `k` characters of `text` take `offset` bytes.
pub open spec fn ends_char(text: Seq<char>, offset: nat, k: int) -> bool {
    0 <= k <= text.len() && byte_len(text.take(k)) == offset
}

/// A character of `text` ends at `offset`, or `text` begins there.
pub open spec fn is_boundary(text: Seq<char>, offset: nat) -> bool {
    exists|k: int| ends_char(text, offset, k)
}

/// What stands in `text` from `offset` on.
pub open spec fn rest_from(text: Seq<char>, offset: nat) -> Seq<char>
    recommends
        is_boundary(text, offset),
{
    text.skip(choose|k: int| ends_char(text, offset, k))
}

/// The offset in `text` behind the place where `marker` stands for the first time.
pub open spec fn offset_behind(text: Seq<char>, marker: Seq<char>) -> Option<nat> {
    match find_text(text, marker) {
        Some(at) => Some(byte_len(text.take(at + marker.len()))),
        None => None,
    }
}

/// A character more takes as many bytes more as the character takes.
pub proof fn lemma_byte_len_push(text: Seq<char>, c: char)
    ensures
        byte_len(text.push(c)) == byte_len(text) + byte_width(c),
    decreases text.len(),
{
    let longer = text.push(c);
    if text.len() == 0 {
        assert(longer.drop_first() =~= Seq::<char>::empty());
        assert(encode_utf8(longer.drop_first()).len() == 0);
    } else {
        assert(longer.drop_first() =~= text.drop_first().push(c));
        lemma_byte_len_push(text.drop_first(), c);
    }
}

proof fn lemma_byte_width_bounds(c: char)
    ensures
        1 <= byte_width(c) <= 4,
{
}

proof fn lemma_byte_len_take(text: Seq<char>, i: int, k: int)
    requires
        0 <= i <= k <= text.len(),
    ensures
        byte_len(text.take(i)) + (k - i) <= byte_len(text.take(k)),
    decreases k - i,
{
    if i < k {
        lemma_byte_len_take(text, i, k - 1);
        assert(text.take(k) =~= text.take(k - 1).push(text[k - 1]));
        lemma_byte_len_push(text.take(k - 1), text[k - 1]);
        lemma_byte_width_bounds(text[k - 1]);
    }
}

/// There is but one place in a text to which an offset leads.
pub proof fn lemma_rest_from(text: Seq<char>, offset: nat, k: int)
    requires
        ends_char(text, offset, k),
    ensures
        is_boundary(text, offset),
        rest_from(text, offset) == text.skip(k),
{
    let other = choose|i: int| ends_char(text, offset, i);
    assert(ends_char(text, offset, other));
    if other < k {
        lemma_byte_len_take(text, other, k);
    } else if k < other {
        lemma_byte_len_take(text, k, other);
    }
}

/// In an ASCII text every offset up to its end is a character index.
pub proof fn lemma_ascii_offset(text: Seq<char>, k: int)
    requires
        is_ascii_chars(text),
        0 <= k <= text.len(),
    ensures
        ends_char(text, k as nat, k),
        byte_len(text.take(k)) == k,
{
    let head = text.take(k);
    assert(is_ascii_chars(head)) by {
        assert forall|i: int| 0 <= i < head.len() implies '\0' <= #[trigger] head[i] <= '\u{7f}' by {
            assert(head[i] == text[i]);
        }
    }
    is_ascii_chars_encode_utf8(head);
}

/// The number of bytes that a character takes in UTF-8.
fn width(c: char) -> (n: u128)
    ensures
        n == byte_width(c),
        1 <= n <= 4,
{
    let code: u32 = c as u32;
    if code <= 0x7f {
        1
    } else if code <= 0x7ff {
        2
    } else if code <= 0xffff {
        3
    } else {
        4
    }
}

/// The offset in `text` behind the place where `marker` stands for the first time.
pub fn find_offset(text: &[char], marker: &[char]) -> (offset: Option<u128>)
    ensures
        match offset {
            Some(n) => offset_behind(text@, marker@) == Some(n as nat),
            None => offset_behind(text@, marker@) is None,
        },
{
    match find(text, marker) {
        None => None,
        Some(at) => {
            proof {
                lemma_find_text(text@, marker@);
            }
            let total: usize = text.len();
            assert(at + marker@.len() <= total);
            let end: usize = at + marker.len();
            let mut offset: u128 = 0;
            let mut i: usize = 0;
            assert(text@.take(0) =~= Seq::<char>::empty());
            while i < end
                invariant
                    0 <= i <= end <= text@.len(),
                    offset == byte_len(text@.take(i as int)),
                    offset <= 4 * i,
                decreases end - i,
            {
                proof {
                    lemma_byte_len_push(text@.take(i as int), text@[i as int]);
                    assert(text@.take(i + 1) =~= text@.take(i as int).push(text@[i as int]));
                }
                offset = offset + width(text[i]);
                i = i + 1;
            }
            Some(offset)
        },
    }
}

/// What stands in `text` from `offset` on, if a character ends there.
pub fn cut<'a>(text: &'a [char], offset: u128) -> (rest: Option<&'a [char]>)
    ensures
        match rest {
            Some(r) => is_boundary(text@, offset as nat) && r@ == rest_from(text@, offset as nat),
            None => !is_boundary(text@, offset as nat),
        },
{
    let mut seen: u128 = 0;
    let mut i: usize = 0;
    assert(text@.take(0) =~= Seq::<char>::empty());
    while i < text.len() && seen < offset
        invariant
            0 <= i <= text@.len(),
            seen == byte_len(text@.take(i as int)),
            seen <= 4 * i,
            forall|k: int| 0 <= k < i ==> #[trigger] byte_len(text@.take(k)) < offset,
        decreases text@.len() - i,
    {
        proof {
            lemma_byte_len_push(text@.take(i as int), text@[i as int]);
            assert(text@.take(i + 1) =~= text@.take(i as int).push(text@[i as int]));
        }
        seen = seen + width(text[i]);
        i = i + 1;
    }
    if seen == offset {
        proof {
            assert(ends_char(text@, offset as nat, i as int));
            lemma_rest_from(text@, offset as nat, i as int);
        }
        Some(slice_subrange(text, i, text.len()))
    } else {
        proof {
            assert forall|k: int| !ends_char(text@, offset as nat, k) by {
                if i < k <= text@.len() {
                    lemma_byte_len_take(text@, i as int, k);
                }
            }
        }
        None
    }
}

} // verus!
