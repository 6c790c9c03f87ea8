//! What searching, trimming, splitting and joining come to, told by the parts of a text.

use vstd::prelude::*;

use crate::text::{
    after_last_line_feed, blank, chars_of, contains, equal_to, final_line, find, find_text,
    first_occurs_at, first_word, has_text, is_blank, join, joined, last_line, lemma_find_text,
    lemma_find_text_at, lemma_strip_end_to, lemma_strip_start_from, lemma_until_white_space,
    matches_at, occurs_at, same_text, starts_with_text, strip_end, text_of, texts, trim, trim_end,
    trim_end_of, trim_start, trimmed, white_space, word,
};
use crate::unicode::{ascii_lower, ascii_lowercase, is_ascii_digit, is_ascii_letter, is_white_space};

verus! {

/// Every character is white space.
pub open spec fn all_white(text: Seq<char>) -> bool {
    forall|i: int| 0 <= i < text.len() ==> is_white_space(#[trigger] text[i])
}

/// No character is white space.
pub open spec fn no_white(text: Seq<char>) -> bool {
    forall|i: int| 0 <= i < text.len() ==> !is_white_space(#[trigger] text[i])
}

/// The text, if there is one, neither begins nor ends with white space.
pub open spec fn bare(text: Seq<char>) -> bool {
    text.len() > 0 ==> !is_white_space(text[0]) && !is_white_space(text[text.len() - 1])
}

/// Every character is `c`.
pub open spec fn all_equal(text: Seq<char>, c: char) -> bool {
    forall|i: int| 0 <= i < text.len() ==> #[trigger] text[i] == c
}

/// No character is `c`.
pub open spec fn free_of(text: Seq<char>, c: char) -> bool {
    forall|i: int| 0 <= i < text.len() ==> #[trigger] text[i] != c
}

/// `pattern` is nowhere a part of `text`.
pub open spec fn lacks(text: Seq<char>, pattern: Seq<char>) -> bool {
    forall|before: Seq<char>, after: Seq<char>|
        text != #[trigger] (before + pattern + after)
}

/// `before` is followed by `pattern` in `text`, and no shorter beginning is.
pub open spec fn first_behind(text: Seq<char>, before: Seq<char>, pattern: Seq<char>) -> bool {
    &&& (before + pattern).is_prefix_of(text)
    &&& forall|other: Seq<char>, after: Seq<char>|
        text == #[trigger] (other + pattern + after) ==> before.len() <= other.len()
}

// Characters.

/// White space is the tabulators, the line ends and the blank of ASCII, and nineteen kinds of space
/// and line end outside it.
pub proof fn law_white_space(c: char)
    ensures
        c < ' ' ==> (is_white_space(c) <==> c == '\t' || c == '\n' || c == '\u{b}' || c == '\u{c}'
            || c == '\r'),
        is_white_space(' '),
        '!' <= c <= '~' ==> !is_white_space(c),
        c == '\u{7f}' ==> !is_white_space(c),
        c > '\u{7f}' ==> (is_white_space(c) <==> c == '\u{85}' || c == '\u{a0}' || c == '\u{1680}'
            || c == '\u{2000}' || c == '\u{2001}' || c == '\u{2002}' || c == '\u{2003}' || c
            == '\u{2004}' || c == '\u{2005}' || c == '\u{2006}' || c == '\u{2007}' || c
            == '\u{2008}' || c == '\u{2009}' || c == '\u{200a}' || c == '\u{2028}' || c
            == '\u{2029}' || c == '\u{202f}' || c == '\u{205f}' || c == '\u{3000}'),
{
}

/// A capital becomes the small letter at its place in the alphabet; nothing else changes.
pub proof fn law_ascii_lower(c: char)
    ensures
        'A' <= c <= 'Z' ==> 'a' <= ascii_lower(c) <= 'z' && (ascii_lower(c) as int) - ('a' as int)
            == (c as int) - ('A' as int),
        !('A' <= c <= 'Z') ==> ascii_lower(c) == c,
{
}

/// A text in small letters has a letter for each of its letters.
pub proof fn law_ascii_lowercase(text: Seq<char>)
    ensures
        ascii_lowercase(text).len() == text.len(),
        forall|i: int|
            0 <= i < text.len() ==> #[trigger] ascii_lowercase(text)[i] == ascii_lower(text[i]),
{
}

/// The digits and the letters of ASCII, and nothing between them.
pub proof fn law_ascii_kinds(c: char)
    ensures
        is_ascii_digit(c) <==> c == '0' || c == '1' || c == '2' || c == '3' || c == '4' || c == '5'
            || c == '6' || c == '7' || c == '8' || c == '9',
        is_ascii_letter(c) <==> ('a' <= ascii_lower(c) <= 'z'),
        is_ascii_letter(c) ==> !is_ascii_digit(c),
{
}

// Searching.

/// A text holds each of its parts, at the place where the part begins.
pub proof fn law_parts_are_found(before: Seq<char>, pattern: Seq<char>, after: Seq<char>)
    ensures
        occurs_at(before + pattern + after, pattern, before.len() as int),
        has_text(before + pattern + after, pattern),
        starts_with_text(pattern + after, pattern),
{
    let text = before + pattern + after;
    let n = before.len() as int;
    assert(text.subrange(n, n + pattern.len()) =~= pattern);
    assert(occurs_at(text, pattern, n));
    assert((pattern + after).subrange(0, pattern.len() as int) =~= pattern);
}

/// What is found in a text is one of its parts.
pub proof fn law_found_parts(text: Seq<char>, pattern: Seq<char>, at: int)
    requires
        occurs_at(text, pattern, at),
    ensures
        0 <= at,
        at + pattern.len() <= text.len(),
        text == text.take(at) + pattern + text.skip(at + pattern.len()),
{
    assert(text =~= text.take(at) + text.subrange(at, at + pattern.len()) + text.skip(
        at + pattern.len(),
    ));
}

/// To hold a text is to have it as a part.
pub proof fn law_has_text(text: Seq<char>, pattern: Seq<char>)
    ensures
        has_text(text, pattern) <==> !lacks(text, pattern),
{
    if has_text(text, pattern) {
        let at = choose|at: int| occurs_at(text, pattern, at);
        law_found_parts(text, pattern, at);
        let before = text.take(at);
        let after = text.skip(at + pattern.len());
        assert(text == before + pattern + after);
    }
    if !lacks(text, pattern) {
        let (before, after) = choose|before: Seq<char>, after: Seq<char>|
            text == #[trigger] (before + pattern + after);
        law_parts_are_found(before, pattern, after);
    }
}

/// To begin with a text is to have it as the first part.
pub proof fn law_starts_with(text: Seq<char>, pattern: Seq<char>)
    ensures
        starts_with_text(text, pattern) <==> pattern.is_prefix_of(text),
{
    assert(text.take(pattern.len() as int) =~= text.subrange(0, pattern.len() as int));
}

/// The first place is the one with the shortest beginning.
pub proof fn law_find_text(text: Seq<char>, pattern: Seq<char>)
    ensures
        match find_text(text, pattern) {
            Some(at) => 0 <= at && at + pattern.len() <= text.len() && first_behind(
                text,
                text.take(at),
                pattern,
            ),
            None => lacks(text, pattern),
        },
{
    lemma_find_text(text, pattern);
    match find_text(text, pattern) {
        Some(at) => {
            law_found_parts(text, pattern, at);
            let before = text.take(at);
            assert((before + pattern).is_prefix_of(text)) by {
                assert(text.subrange(0, (before + pattern).len() as int) =~= before + pattern);
            }
            assert forall|other: Seq<char>, after: Seq<char>|
                text == #[trigger] (other + pattern + after) implies before.len() <= other.len() by {
                law_parts_are_found(other, pattern, after);
                if other.len() < at {
                    assert(!occurs_at(text, pattern, other.len() as int));
                }
            }
        },
        None => {
            assert forall|before: Seq<char>, after: Seq<char>|
                text != #[trigger] (before + pattern + after) by {
                if text == before + pattern + after {
                    law_parts_are_found(before, pattern, after);
                }
            }
        },
    }
}

/// A beginning that is the shortest one leads to the first place.
pub proof fn law_find_text_at(text: Seq<char>, before: Seq<char>, pattern: Seq<char>)
    requires
        first_behind(text, before, pattern),
    ensures
        find_text(text, pattern) == Some(before.len() as int),
{
    let n = before.len() as int;
    let head = before + pattern;
    let after = text.skip(head.len() as int);
    assert(text =~= before + pattern + after) by {
        assert(text.subrange(0, head.len() as int) == head);
        assert(text =~= text.subrange(0, head.len() as int) + after);
    }
    law_parts_are_found(before, pattern, after);
    assert forall|at: int| 0 <= at < n implies !occurs_at(text, pattern, at) by {
        if occurs_at(text, pattern, at) {
            law_found_parts(text, pattern, at);
            let other = text.take(at);
            assert(text == other + pattern + text.skip(at + pattern.len()));
        }
    }
    assert(first_occurs_at(text, pattern, n));
    lemma_find_text_at(text, pattern, n);
}

/// `find` gives the shortest beginning behind which the pattern stands.
pub proof fn law_find(text: &[char], pattern: &[char], at: Option<usize>)
    requires
        call_ensures(find, (text, pattern), at),
    ensures
        match at {
            Some(i) => i + pattern@.len() <= text@.len() && first_behind(
                text@,
                text@.take(i as int),
                pattern@,
            ),
            None => lacks(text@, pattern@),
        },
{
    law_find_text(text@, pattern@);
}

/// `contains` tells whether a text has a pattern as a part.
pub proof fn law_contains(text: &[char], pattern: &[char], found: bool)
    requires
        call_ensures(contains, (text, pattern), found),
    ensures
        found <==> !lacks(text@, pattern@),
{
    law_has_text(text@, pattern@);
}

/// `matches_at` tells whether the part at a place is the pattern.
pub proof fn law_matches_at(text: &[char], pattern: &[char], at: usize, found: bool)
    requires
        call_ensures(matches_at, (text, pattern, at), found),
    ensures
        found <==> at <= text@.len() && pattern@.is_prefix_of(text@.skip(at as int)),
{
    let rest = text@.skip(at as int);
    if at <= text@.len() && pattern@.len() <= rest.len() {
        assert(rest.subrange(0, pattern@.len() as int) =~= text@.subrange(
            at as int,
            at + pattern@.len(),
        ));
    }
}

/// `same_text` tells whether two texts are the same.
pub proof fn law_same_text(left: &str, right: &str, same: bool)
    requires
        call_ensures(same_text, (left, right), same),
    ensures
        same <==> left@ =~= right@,
{
}

/// A text and its characters are the same sequence.
pub proof fn law_characters(text: &str, chars: Vec<char>, slice: &[char], back: String)
    requires
        call_ensures(chars_of, (text,), chars),
        call_ensures(text_of, (slice,), back),
    ensures
        chars@ =~= text@,
        back@ =~= slice@,
{
}

// Trimming.

/// To trim is to take the white space off both ends, and nothing else.
pub proof fn law_trimmed(before: Seq<char>, core: Seq<char>, after: Seq<char>)
    requires
        all_white(before),
        all_white(after),
        bare(core),
    ensures
        trimmed(before + core + after) == core,
{
    let text = before + core + after;
    if core.len() > 0 {
        let n = before.len() as int;
        assert forall|j: int| 0 <= j < n implies white_space()(#[trigger] text[j]) by {
            assert(text[j] == before[j]);
        }
        assert(text[n] == core[0]);
        lemma_strip_start_from(text, white_space(), n);
        let begun = text.skip(n);
        assert(begun =~= core + after);
        assert forall|j: int| core.len() <= j < begun.len() implies white_space()(
            #[trigger] begun[j],
        ) by {
            assert(begun[j] == after[j - core.len()]);
        }
        assert(begun[core.len() - 1] == core[core.len() - 1]);
        lemma_strip_end_to(begun, white_space(), core.len() as int);
        assert(begun.take(core.len() as int) =~= core);
    } else {
        assert forall|j: int| 0 <= j < text.len() implies white_space()(#[trigger] text[j]) by {
            if j < before.len() {
                assert(text[j] == before[j]);
            } else {
                assert(text[j] == after[j - before.len()]);
            }
        }
        lemma_strip_start_from(text, white_space(), text.len() as int);
        assert(text.skip(text.len() as int) =~= core);
    }
}

/// `trim` takes the white space off both ends of a text, and nothing else.
pub proof fn law_trim(
    before: Seq<char>,
    core: Seq<char>,
    after: Seq<char>,
    text: &[char],
    rest: &[char],
)
    requires
        call_ensures(trim, (text,), rest),
        text@ == before + core + after,
        all_white(before),
        all_white(after),
        bare(core),
    ensures
        rest@ == core,
{
    law_trimmed(before, core, after);
}

/// `trim_start` takes the white space off the beginning of a text, and nothing else.
pub proof fn law_trim_start(white: Seq<char>, core: Seq<char>, text: &[char], rest: &[char])
    requires
        call_ensures(trim_start, (text,), rest),
        text@ == white + core,
        all_white(white),
        core.len() > 0 ==> !is_white_space(core[0]),
    ensures
        rest@ == core,
{
    let n = white.len() as int;
    assert forall|j: int| 0 <= j < n implies white_space()(#[trigger] text@[j]) by {
        assert(text@[j] == white[j]);
    }
    assert(core.len() > 0 ==> text@[n] == core[0]);
    lemma_strip_start_from(text@, white_space(), n);
    assert(text@.skip(n) =~= core);
}

/// `trim_end` takes the white space off the end of a text, and nothing else.
pub proof fn law_trim_end(core: Seq<char>, white: Seq<char>, text: &[char], rest: &[char])
    requires
        call_ensures(trim_end, (text,), rest),
        text@ == core + white,
        all_white(white),
        core.len() > 0 ==> !is_white_space(core[core.len() - 1]),
    ensures
        rest@ == core,
{
    let m = core.len() as int;
    assert forall|j: int| m <= j < text@.len() implies white_space()(#[trigger] text@[j]) by {
        assert(text@[j] == white[j - m]);
    }
    assert(m > 0 ==> text@[m - 1] == core[m - 1]);
    lemma_strip_end_to(text@, white_space(), m);
    assert(text@.take(m) =~= core);
}

/// To strip a character from the end is to take off the run of it there, and nothing else.
pub proof fn law_strip_end(core: Seq<char>, run: Seq<char>, c: char)
    requires
        all_equal(run, c),
        core.len() > 0 ==> core[core.len() - 1] != c,
    ensures
        strip_end(core + run, equal_to(c)) == core,
{
    let text = core + run;
    let m = core.len() as int;
    assert forall|j: int| m <= j < text.len() implies equal_to(c)(#[trigger] text[j]) by {
        assert(text[j] == run[j - m]);
    }
    assert(m > 0 ==> text[m - 1] == core[m - 1]);
    lemma_strip_end_to(text, equal_to(c), m);
    assert(text.take(m) =~= core);
}

/// `trim_end_of` takes the run of a character off the end of a text, and nothing else.
pub proof fn law_trim_end_of(
    core: Seq<char>,
    run: Seq<char>,
    text: &[char],
    c: char,
    rest: &[char],
)
    requires
        call_ensures(trim_end_of, (text, c), rest),
        text@ == core + run,
        all_equal(run, c),
        core.len() > 0 ==> core[core.len() - 1] != c,
    ensures
        rest@ == core,
{
    law_strip_end(core, run, c);
}

/// A text is blank exactly if all of it is white space.
pub proof fn law_blank(text: &str, b: bool)
    requires
        call_ensures(blank, (text,), b),
    ensures
        b <==> all_white(text@),
        is_blank(text@) <==> all_white(text@),
{
}

// Words and lines.

/// The first word is the run of characters between the first white space and the next.
pub proof fn law_first_word(before: Seq<char>, first: Seq<char>, after: Seq<char>)
    requires
        all_white(before),
        first.len() > 0,
        no_white(first),
        after.len() > 0 ==> is_white_space(after[0]),
    ensures
        first_word(before + first + after) == Some(first),
{
    let text = before + first + after;
    let n = before.len() as int;
    assert forall|j: int| 0 <= j < n implies white_space()(#[trigger] text[j]) by {
        assert(text[j] == before[j]);
    }
    assert(text[n] == first[0]);
    lemma_strip_start_from(text, white_space(), n);
    let begun = text.skip(n);
    assert(begun =~= first + after);
    assert forall|j: int| 0 <= j < first.len() implies !is_white_space(#[trigger] begun[j]) by {
        assert(begun[j] == first[j]);
    }
    assert(after.len() > 0 ==> begun[first.len() as int] == after[0]);
    lemma_until_white_space(begun, first.len() as int);
    assert(begun.take(first.len() as int) =~= first);
}

/// White space holds no word.
pub proof fn law_no_word(text: Seq<char>)
    requires
        all_white(text),
    ensures
        first_word(text) is None,
{
    assert forall|j: int| 0 <= j < text.len() implies white_space()(#[trigger] text[j]) by {}
    lemma_strip_start_from(text, white_space(), text.len() as int);
    assert(text.skip(text.len() as int).len() == 0);
}

/// `word` gives the first run of characters between white space.
pub proof fn law_word(
    before: Seq<char>,
    first: Seq<char>,
    after: Seq<char>,
    text: &[char],
    found: Option<&[char]>,
)
    requires
        call_ensures(word, (text,), found),
        text@ == before + first + after,
        all_white(before),
        no_white(first),
        after.len() > 0 ==> is_white_space(after[0]),
        first.len() == 0 ==> after.len() == 0,
    ensures
        first.len() > 0 ==> (found matches Some(w) && w@ == first),
        first.len() == 0 ==> found is None,
{
    if first.len() > 0 {
        law_first_word(before, first, after);
    } else {
        assert(text@ =~= before);
        law_no_word(before);
    }
}

/// The last line is what stands behind the last line feed that is not the end of the text, and no
/// line end belongs to it.
pub proof fn law_last_line(before: Seq<char>, line: Seq<char>)
    requires
        free_of(line, '\n'),
        before.len() > 0 ==> before[before.len() - 1] == '\n',
    ensures
        line.len() > 0 ==> last_line(before + line) == Some(line),
        last_line(before + line + "\r\n"@) == Some(line),
        line.len() > 0 && line[line.len() - 1] == '\r' || last_line(before + line + "\n"@) == Some(
            line,
        ),
        last_line(Seq::empty()) is None,
{
    reveal_strlit("\n");
    reveal_strlit("\r\n");
    lemma_behind_last_line_feed(before, line);
    if line.len() > 0 {
        assert((before + line).last() == line.last());
        assert(line.last() == line[line.len() - 1]);
    }
    let fed = before + line + "\n"@;
    assert(fed.drop_last() =~= before + line);
    assert(fed.last() == '\n');
    let returned = line.push('\r');
    lemma_behind_last_line_feed(before, returned);
    let both = before + line + "\r\n"@;
    assert(both.last() == '\n');
    assert(both.drop_last() =~= before + returned);
    assert(returned.drop_last() =~= line);
}

proof fn lemma_behind_last_line_feed(before: Seq<char>, line: Seq<char>)
    requires
        free_of(line, '\n'),
        before.len() > 0 ==> before[before.len() - 1] == '\n',
    ensures
        after_last_line_feed(before + line) == line,
    decreases line.len(),
{
    let text = before + line;
    if line.len() > 0 {
        let rest = line.drop_last();
        assert(line[line.len() - 1] != '\n');
        assert(text.last() == line.last());
        assert(text.drop_last() =~= before + rest);
        assert forall|i: int| 0 <= i < rest.len() implies #[trigger] rest[i] != '\n' by {
            assert(rest[i] == line[i]);
        }
        lemma_behind_last_line_feed(before, rest);
        assert(rest.push(line.last()) =~= line);
    } else {
        assert(text =~= before);
        if before.len() > 0 {
            assert(text.last() == '\n');
        }
        assert(line =~= Seq::<char>::empty());
    }
}

/// `final_line` gives the last line.
pub proof fn law_final_line(text: &[char], line: Option<&[char]>)
    requires
        call_ensures(final_line, (text,), line),
    ensures
        match line {
            Some(l) => last_line(text@) == Some(l@),
            None => last_line(text@) is None,
        },
{
}

// Joining.

/// Two runs of parts that are joined have the separator between them.
pub proof fn law_joined(left: Seq<Seq<char>>, right: Seq<Seq<char>>, separator: Seq<char>)
    requires
        left.len() > 0,
        right.len() > 0,
    ensures
        joined(left + right, separator) == joined(left, separator) + separator + joined(
            right,
            separator,
        ),
    decreases right.len(),
{
    let all = left + right;
    assert(all.last() == right.last());
    if right.len() == 1 {
        assert(all.drop_last() =~= left);
    } else {
        let rest = right.drop_last();
        law_joined(left, rest, separator);
        assert(all.drop_last() =~= left + rest);
        assert(joined(all, separator) =~= joined(left, separator) + separator + joined(
            right,
            separator,
        ));
    }
}

/// One part is joined to itself, and no part to nothing.
pub proof fn law_joined_alone(part: Seq<char>, separator: Seq<char>)
    ensures
        joined(seq![part], separator) == part,
        joined(Seq::empty(), separator) == Seq::<char>::empty(),
{
}

/// `join` joins the texts of the strings, in their order.
pub proof fn law_join(items: Vec<String>, separator: &str, text: String)
    requires
        call_ensures(join, (&items, separator), text),
    ensures
        text@ == joined(Seq::new(items@.len(), |i: int| items@[i]@), separator@),
{
    assert(Seq::new(items@.len(), |i: int| items@[i]@) =~= texts(items@));
}

/// The texts of some strings are those that the strings hold, in their order.
pub proof fn law_texts(items: Seq<String>)
    ensures
        texts(items).len() == items.len(),
        forall|i: int| 0 <= i < items.len() ==> #[trigger] texts(items)[i] == items[i]@,
{
}

} // verus!
