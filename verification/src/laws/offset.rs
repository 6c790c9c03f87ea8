//! What byte offsets lead to, told by the parts of a text.

use vstd::prelude::*;

use crate::laws::text::{first_behind, lacks, law_find_text, law_find_text_at};
use crate::offset::{
    byte_len, cut, ends_char, find_offset, is_boundary, lemma_byte_len_push, lemma_rest_from,
    offset_behind, rest_from,
};
use crate::text::find_text;

verus! {

/// A character takes one byte up to U+007F, two up to U+07FF, three up to U+FFFF, and four beyond.
pub proof fn law_byte_width(c: char)
    ensures
        byte_len(seq![c]) == if c <= '\u{7f}' {
            1nat
        } else if c <= '\u{7ff}' {
            2nat
        } else if c <= '\u{ffff}' {
            3nat
        } else {
            4nat
        },
{
    let one = Seq::<char>::empty().push(c);
    assert(one =~= seq![c]);
    lemma_byte_len_push(Seq::empty(), c);
    assert(byte_len(Seq::empty()) == 0);
}

/// Two texts together take as many bytes as both take.
pub proof fn law_byte_len(left: Seq<char>, right: Seq<char>)
    ensures
        byte_len(left + right) == byte_len(left) + byte_len(right),
        byte_len(Seq::empty()) == 0,
    decreases right.len(),
{
    if right.len() == 0 {
        assert(left + right =~= left);
        assert(right =~= Seq::<char>::empty());
    } else {
        let rest = right.drop_last();
        let c = right.last();
        law_byte_len(left, rest);
        assert(left + right =~= (left + rest).push(c));
        assert(right =~= rest.push(c));
        lemma_byte_len_push(left + rest, c);
        lemma_byte_len_push(rest, c);
    }
}

/// The bytes of a text's beginning lead to what stands behind it.
pub proof fn law_rest_from(head: Seq<char>, rest: Seq<char>)
    ensures
        is_boundary(head + rest, byte_len(head)),
        rest_from(head + rest, byte_len(head)) == rest,
{
    let text = head + rest;
    let k = head.len() as int;
    assert(text.take(k) =~= head);
    assert(ends_char(text, byte_len(head), k));
    lemma_rest_from(text, byte_len(head), k);
    assert(text.skip(k) =~= rest);
}

/// A text can be cut only behind one of its beginnings.
pub proof fn law_boundary(text: Seq<char>, offset: nat)
    ensures
        is_boundary(text, offset) <==> exists|k: int|
            0 <= k <= text.len() && #[trigger] byte_len(text.take(k)) == offset,
{
    if is_boundary(text, offset) {
        let k = choose|k: int| ends_char(text, offset, k);
        assert(byte_len(text.take(k)) == offset);
    }
    if exists|k: int| 0 <= k <= text.len() && #[trigger] byte_len(text.take(k)) == offset {
        let k = choose|k: int|
            0 <= k <= text.len() && #[trigger] byte_len(text.take(k)) == offset;
        assert(ends_char(text, offset, k));
    }
}

/// The offset behind a marker counts the bytes of the marker and of all before its first place.
pub proof fn law_offset_behind(text: Seq<char>, before: Seq<char>, marker: Seq<char>)
    ensures
        first_behind(text, before, marker) ==> offset_behind(text, marker) == Some(
            byte_len(before) + byte_len(marker),
        ),
        lacks(text, marker) ==> offset_behind(text, marker) is None,
{
    if first_behind(text, before, marker) {
        law_find_text_at(text, before, marker);
        let head = before + marker;
        assert(text.take(head.len() as int) =~= head) by {
            assert(text.subrange(0, head.len() as int) == head);
        }
        law_byte_len(before, marker);
    }
    if lacks(text, marker) {
        law_find_text(text, marker);
        if let Some(at) = find_text(text, marker) {
            let head = text.take(at);
            let all = head + marker;
            let after = text.skip(all.len() as int);
            assert(text =~= head + marker + after) by {
                assert(text.subrange(0, all.len() as int) == all);
                assert(text =~= text.subrange(0, all.len() as int) + after);
            }
        }
    }
}

/// `find_offset` counts the bytes up to the end of the marker's first place.
pub proof fn law_find_offset(
    before: Seq<char>,
    text: &[char],
    marker: &[char],
    offset: Option<u128>,
)
    requires
        call_ensures(find_offset, (text, marker), offset),
    ensures
        first_behind(text@, before, marker@) ==> (offset matches Some(n) && n == byte_len(before)
            + byte_len(marker@)),
        lacks(text@, marker@) ==> offset is None,
{
    law_offset_behind(text@, before, marker@);
}

/// `cut` gives what stands behind the beginning that takes so many bytes, if there is one.
pub proof fn law_cut(head: Seq<char>, text: &[char], offset: u128, rest: Option<&[char]>)
    requires
        call_ensures(cut, (text, offset), rest),
    ensures
        head.is_prefix_of(text@) && byte_len(head) == offset ==> (rest matches Some(r) && text@
            == head + r@),
        rest is None <==> forall|k: int|
            0 <= k <= text@.len() ==> #[trigger] byte_len(text@.take(k)) != offset,
{
    law_boundary(text@, offset as nat);
    if head.is_prefix_of(text@) && byte_len(head) == offset {
        let behind = text@.skip(head.len() as int);
        assert(text@ =~= head + behind) by {
            assert(text@.subrange(0, head.len() as int) == head);
            assert(text@ =~= text@.subrange(0, head.len() as int) + behind);
        }
        law_rest_from(head, behind);
    }
}

} // verus!
