//! Searching, trimming, splitting and joining of text.
//!
//! A text is a sequence of characters. Where an offset counts bytes, it counts the bytes of the
//! text's UTF-8 encoding.

use vstd::prelude::*;
use vstd::slice::slice_subrange;
use vstd::string::*;

use crate::unicode::is_white_space;

verus! {

// Searching.

/// `pattern` stands in `text` at the character index `at`.
pub open spec fn occurs_at(text: Seq<char>, pattern: Seq<char>, at: int) -> bool {
    &&& 0 <= at
    &&& at + pattern.len() <= text.len()
    &&& text.subrange(at, at + pattern.len()) == pattern
}

/// `pattern` stands somewhere in `text`.
pub open spec fn has_text(text: Seq<char>, pattern: Seq<char>) -> bool {
    exists|at: int| occurs_at(text, pattern, at)
}

/// `pattern` stands in `text` at `at`, and nowhere before.
pub open spec fn first_occurs_at(text: Seq<char>, pattern: Seq<char>, at: int) -> bool {
    &&& occurs_at(text, pattern, at)
    &&& forall|before: int| 0 <= before < at ==> !occurs_at(text, pattern, before)
}

/// The character index at which `pattern` stands in `text` for the first time.
pub open spec fn find_text(text: Seq<char>, pattern: Seq<char>) -> Option<int> {
    if has_text(text, pattern) {
        Some(choose|at: int| first_occurs_at(text, pattern, at))
    } else {
        None
    }
}

/// `text` begins with `pattern`.
pub open spec fn starts_with_text(text: Seq<char>, pattern: Seq<char>) -> bool {
    occurs_at(text, pattern, 0)
}

/// A first occurrence is the one that `find_text` gives.
pub proof fn lemma_find_text_at(text: Seq<char>, pattern: Seq<char>, at: int)
    requires
        first_occurs_at(text, pattern, at),
    ensures
        find_text(text, pattern) == Some(at),
{
    let found = choose|i: int| first_occurs_at(text, pattern, i);
    assert(first_occurs_at(text, pattern, found));
    assert(found == at);
}

proof fn lemma_first_occurrence_exists(text: Seq<char>, pattern: Seq<char>, at: int)
    requires
        occurs_at(text, pattern, at),
    ensures
        exists|i: int| first_occurs_at(text, pattern, i),
    decreases at,
{
    if exists|before: int| 0 <= before < at && occurs_at(text, pattern, before) {
        let before = choose|before: int| 0 <= before < at && occurs_at(text, pattern, before);
        lemma_first_occurrence_exists(text, pattern, before);
    } else {
        assert(first_occurs_at(text, pattern, at));
    }
}

/// What `find_text` gives is a first occurrence; where it gives nothing, there is none.
pub proof fn lemma_find_text(text: Seq<char>, pattern: Seq<char>)
    ensures
        match find_text(text, pattern) {
            Some(at) => first_occurs_at(text, pattern, at),
            None => forall|at: int| !occurs_at(text, pattern, at),
        },
{
    if has_text(text, pattern) {
        let at = choose|at: int| occurs_at(text, pattern, at);
        lemma_first_occurrence_exists(text, pattern, at);
    }
}

/// Whether `pattern` stands in `text` at `at`.
pub fn matches_at(text: &[char], pattern: &[char], at: usize) -> (found: bool)
    ensures
        found == occurs_at(text@, pattern@, at as int),
{
    if at > text.len() || pattern.len() > text.len() - at {
        return false;
    }
    let mut i: usize = 0;
    while i < pattern.len()
        invariant
            0 <= i <= pattern@.len(),
            at + pattern@.len() <= text@.len() <= usize::MAX,
            forall|j: int| 0 <= j < i ==> text@[at + j] == pattern@[j],
        decreases pattern@.len() - i,
    {
        if text[at + i] != pattern[i] {
            assert(text@.subrange(at as int, at + pattern@.len())[i as int] != pattern@[i as int]);
            return false;
        }
        i = i + 1;
    }
    assert(text@.subrange(at as int, at + pattern@.len()) =~= pattern@);
    true
}

/// Where `pattern` stands in `text` for the first time.
pub fn find(text: &[char], pattern: &[char]) -> (at: Option<usize>)
    ensures
        match at {
            Some(i) => find_text(text@, pattern@) == Some(i as int),
            None => find_text(text@, pattern@) is None,
        },
{
    if pattern.len() > text.len() {
        assert(forall|at: int| !occurs_at(text@, pattern@, at));
        return None;
    }
    let last: usize = text.len() - pattern.len();
    let mut i: usize = 0;
    loop
        invariant
            i <= last,
            last == text@.len() - pattern@.len(),
            forall|before: int| 0 <= before < i ==> !occurs_at(text@, pattern@, before),
        decreases last - i,
    {
        if matches_at(text, pattern, i) {
            proof {
                lemma_find_text_at(text@, pattern@, i as int);
            }
            return Some(i);
        }
        if i == last {
            assert(forall|at: int| !occurs_at(text@, pattern@, at));
            return None;
        }
        i = i + 1;
    }
}

/// Whether `pattern` stands in `text`.
pub fn contains(text: &[char], pattern: &[char]) -> (found: bool)
    ensures
        found == has_text(text@, pattern@),
{
    find(text, pattern).is_some()
}

// Texts and their characters.

/// The characters of a text, one by one.
pub fn chars_of(text: &str) -> (chars: Vec<char>)
    ensures
        chars@ == text@,
{
    let mut chars: Vec<char> = Vec::new();
    for c in iter: text.chars()
        invariant
            iter.seq() == text@,
            chars@ == text@.take(iter.index()),
    {
        chars.push(c);
        assert(text@.take(iter.index() + 1) =~= text@.take(iter.index()).push(c));
    }
    assert(text@.take(text@.len() as int) =~= text@);
    chars
}

/// The text that some characters spell.
pub fn text_of(chars: &[char]) -> (text: String)
    ensures
        text@ == chars@,
{
    let mut text: String = String::new();
    let mut i: usize = 0;
    while i < chars.len()
        invariant
            0 <= i <= chars@.len(),
            text@ == chars@.take(i as int),
        decreases chars@.len() - i,
    {
        text.push(chars[i]);
        assert(chars@.take(i + 1) =~= chars@.take(i as int).push(chars@[i as int]));
        i = i + 1;
    }
    assert(chars@.take(i as int) =~= chars@);
    text
}


/// Whether two texts are the same.
pub fn same_text(left: &str, right: &str) -> (same: bool)
    ensures
        same == (left@ == right@),
{
    let left_chars = chars_of(left);
    let right_chars = chars_of(right);
    let same = left_chars.len() == right_chars.len() && matches_at(
        left_chars.as_slice(),
        right_chars.as_slice(),
        0,
    );
    assert(left@.subrange(0, left@.len() as int) =~= left@);
    same
}

// Trimming.

/// `text` without the characters at its start of which `drops` holds.
pub open spec fn strip_start(text: Seq<char>, drops: spec_fn(char) -> bool) -> Seq<char>
    decreases text.len(),
{
    if text.len() > 0 && drops(text[0]) {
        strip_start(text.drop_first(), drops)
    } else {
        text
    }
}

/// `text` without the characters at its end of which `drops` holds.
pub open spec fn strip_end(text: Seq<char>, drops: spec_fn(char) -> bool) -> Seq<char>
    decreases text.len(),
{
    if text.len() > 0 && drops(text.last()) {
        strip_end(text.drop_last(), drops)
    } else {
        text
    }
}

/// The white space characters.
pub open spec fn white_space() -> spec_fn(char) -> bool {
    |c: char| is_white_space(c)
}

/// The characters that equal `c`.
pub open spec fn equal_to(c: char) -> spec_fn(char) -> bool {
    |d: char| d == c
}

/// `text` without the white space at its two ends.
pub open spec fn trimmed(text: Seq<char>) -> Seq<char> {
    strip_end(strip_start(text, white_space()), white_space())
}

/// Nothing but white space, or nothing at all.
pub open spec fn is_blank(text: Seq<char>) -> bool {
    forall|i: int| 0 <= i < text.len() ==> is_white_space(#[trigger] text[i])
}

/// The white space, or whatever is dropped, ends where the first other character stands.
pub proof fn lemma_strip_start_from(text: Seq<char>, drops: spec_fn(char) -> bool, i: int)
    requires
        0 <= i <= text.len(),
        forall|j: int| 0 <= j < i ==> drops(#[trigger] text[j]),
        i < text.len() ==> !drops(text[i]),
    ensures
        strip_start(text, drops) == text.skip(i),
    decreases i,
{
    if i > 0 {
        let rest = text.drop_first();
        assert(drops(text[0]));
        assert forall|j: int| 0 <= j < i - 1 implies drops(#[trigger] rest[j]) by {
            assert(rest[j] == text[j + 1]);
        }
        lemma_strip_start_from(rest, drops, i - 1);
        assert(rest.skip(i - 1) =~= text.skip(i));
    } else {
        assert(text.skip(0) =~= text);
    }
}

/// What is dropped at the end begins behind the last other character.
pub proof fn lemma_strip_end_to(text: Seq<char>, drops: spec_fn(char) -> bool, i: int)
    requires
        0 <= i <= text.len(),
        forall|j: int| i <= j < text.len() ==> drops(#[trigger] text[j]),
        i > 0 ==> !drops(text[i - 1]),
    ensures
        strip_end(text, drops) == text.take(i),
    decreases text.len(),
{
    if i < text.len() {
        let rest = text.drop_last();
        assert(drops(text[text.len() - 1]));
        assert forall|j: int| i <= j < rest.len() implies drops(#[trigger] rest[j]) by {
            assert(rest[j] == text[j]);
        }
        lemma_strip_end_to(rest, drops, i);
        assert(rest.take(i) =~= text.take(i));
    } else {
        assert(text.take(i) =~= text);
    }
}

/// Drops the white space at the start of a text.
pub fn trim_start<'a>(text: &'a [char]) -> (rest: &'a [char])
    ensures
        rest@ == strip_start(text@, white_space()),
{
    let mut i: usize = 0;
    while i < text.len() && text[i].is_whitespace()
        invariant
            0 <= i <= text@.len(),
            forall|j: int| 0 <= j < i ==> is_white_space(#[trigger] text@[j]),
        decreases text@.len() - i,
    {
        i = i + 1;
    }
    proof {
        lemma_strip_start_from(text@, white_space(), i as int);
    }
    slice_subrange(text, i, text.len())
}

/// Drops the white space at the end of a text.
pub fn trim_end<'a>(text: &'a [char]) -> (rest: &'a [char])
    ensures
        rest@ == strip_end(text@, white_space()),
{
    let mut i: usize = text.len();
    while i > 0 && text[i - 1].is_whitespace()
        invariant
            0 <= i <= text@.len(),
            forall|j: int| i <= j < text@.len() ==> is_white_space(#[trigger] text@[j]),
        decreases i,
    {
        i = i - 1;
    }
    proof {
        lemma_strip_end_to(text@, white_space(), i as int);
    }
    slice_subrange(text, 0, i)
}

/// Drops the characters at the end of a text that equal `c`.
pub fn trim_end_of<'a>(text: &'a [char], c: char) -> (rest: &'a [char])
    ensures
        rest@ == strip_end(text@, equal_to(c)),
{
    let mut i: usize = text.len();
    while i > 0 && text[i - 1] == c
        invariant
            0 <= i <= text@.len(),
            forall|j: int| i <= j < text@.len() ==> #[trigger] text@[j] == c,
        decreases i,
    {
        i = i - 1;
    }
    proof {
        lemma_strip_end_to(text@, equal_to(c), i as int);
    }
    slice_subrange(text, 0, i)
}

/// Drops the white space at both ends of a text.
pub fn trim<'a>(text: &'a [char]) -> (rest: &'a [char])
    ensures
        rest@ == trimmed(text@),
{
    trim_end(trim_start(text))
}

/// `text` begins and ends, if it holds anything, with a character that is no white space.
pub open spec fn has_bare_ends(text: Seq<char>) -> bool {
    text.len() > 0 ==> !is_white_space(text[0]) && !is_white_space(text.last())
}

proof fn lemma_strip_start_shape(text: Seq<char>, drops: spec_fn(char) -> bool)
    ensures
        strip_start(text, drops).len() > 0 ==> !drops(strip_start(text, drops)[0]),
        exists|i: int| #![trigger text.skip(i)]
            0 <= i <= text.len() && strip_start(text, drops) == text.skip(i) && (forall|j: int|
                0 <= j < i ==> drops(#[trigger] text[j])),
    decreases text.len(),
{
    if text.len() > 0 && drops(text[0]) {
        let rest = text.drop_first();
        lemma_strip_start_shape(rest, drops);
        let i = choose|i: int| #![trigger rest.skip(i)]
            0 <= i <= rest.len() && strip_start(rest, drops) == rest.skip(i) && (forall|j: int|
                0 <= j < i ==> drops(#[trigger] rest[j]));
        assert(rest.skip(i) =~= text.skip(i + 1));
        assert forall|j: int| 0 <= j < i + 1 implies drops(#[trigger] text[j]) by {
            if j > 0 {
                assert(text[j] == rest[j - 1]);
            }
        }
    } else {
        assert(text.skip(0) =~= text);
    }
}

proof fn lemma_strip_end_shape(text: Seq<char>, drops: spec_fn(char) -> bool)
    ensures
        strip_end(text, drops).len() > 0 ==> !drops(strip_end(text, drops).last()),
        exists|i: int| #![trigger text.take(i)]
            0 <= i <= text.len() && strip_end(text, drops) == text.take(i) && (forall|j: int|
                i <= j < text.len() ==> drops(#[trigger] text[j])),
    decreases text.len(),
{
    if text.len() > 0 && drops(text.last()) {
        let rest = text.drop_last();
        lemma_strip_end_shape(rest, drops);
        let i = choose|i: int| #![trigger rest.take(i)]
            0 <= i <= rest.len() && strip_end(rest, drops) == rest.take(i) && (forall|j: int|
                i <= j < rest.len() ==> drops(#[trigger] rest[j]));
        assert(rest.take(i) =~= text.take(i));
        assert forall|j: int| i <= j < text.len() implies drops(#[trigger] text[j]) by {
            if j < rest.len() {
                assert(text[j] == rest[j]);
            }
        }
    } else {
        assert(text.take(text.len() as int) =~= text);
    }
}

/// A trimmed text has no white space at its ends, and to trim it again changes nothing.
pub proof fn law_trimmed_has_bare_ends(text: Seq<char>)
    ensures
        has_bare_ends(trimmed(text)),
        trimmed(trimmed(text)) == trimmed(text),
{
    let begun = strip_start(text, white_space());
    let done = trimmed(text);
    lemma_strip_start_shape(text, white_space());
    lemma_strip_end_shape(begun, white_space());
    let i = choose|i: int| #![trigger begun.take(i)]
        0 <= i <= begun.len() && strip_end(begun, white_space()) == begun.take(i);
    if done.len() > 0 {
        assert(done == begun.take(i));
        assert(done[0] == begun[0]);
        assert(!white_space()(done[0]));
        assert(!white_space()(done.last()));
    }
    lemma_strip_start_from(done, white_space(), 0);
    assert(done.skip(0) =~= done);
    lemma_strip_end_to(done, white_space(), done.len() as int);
    assert(done.take(done.len() as int) =~= done);
}

/// A text is blank exactly if nothing of it is left once it is trimmed.
pub proof fn lemma_blank_iff_trimmed_empty(text: Seq<char>)
    ensures
        is_blank(text) <==> trimmed(text).len() == 0,
{
    let begun = strip_start(text, white_space());
    lemma_strip_start_shape(text, white_space());
    lemma_strip_end_shape(begun, white_space());
    let i = choose|i: int| #![trigger text.skip(i)]
        0 <= i <= text.len() && begun == text.skip(i) && (forall|j: int|
            0 <= j < i ==> white_space()(#[trigger] text[j]));
    let k = choose|k: int| #![trigger begun.take(k)]
        0 <= k <= begun.len() && trimmed(text) == begun.take(k) && (forall|j: int|
            k <= j < begun.len() ==> white_space()(#[trigger] begun[j]));
    if is_blank(text) {
        if begun.len() > 0 {
            assert(begun[0] == text[i]);
            assert(white_space()(begun[0]));
        }
    }
    if trimmed(text).len() == 0 {
        assert forall|j: int| 0 <= j < text.len() implies is_white_space(#[trigger] text[j]) by {
            if j < i {
                assert(white_space()(text[j]));
            } else {
                assert(begun[j - i] == text[j]);
                assert(white_space()(begun[j - i]));
            }
        }
    }
}

/// Whether a text is blank.
pub fn blank(text: &str) -> (b: bool)
    ensures
        b == is_blank(text@),
{
    let chars = chars_of(text);
    proof {
        lemma_blank_iff_trimmed_empty(text@);
    }
    trim(chars.as_slice()).len() == 0
}

// Words and lines.

/// The characters of `text` before its first white space.
pub open spec fn until_white_space(text: Seq<char>) -> Seq<char>
    decreases text.len(),
{
    if text.len() == 0 || is_white_space(text[0]) {
        Seq::empty()
    } else {
        seq![text[0]] + until_white_space(text.drop_first())
    }
}

/// The first of the words that white space separates.
pub open spec fn first_word(text: Seq<char>) -> Option<Seq<char>> {
    let begun = strip_start(text, white_space());
    if begun.len() == 0 {
        None
    } else {
        Some(until_white_space(begun))
    }
}

/// A word ends where the next white space stands.
pub proof fn lemma_until_white_space(text: Seq<char>, i: int)
    requires
        0 <= i <= text.len(),
        forall|j: int| 0 <= j < i ==> !is_white_space(#[trigger] text[j]),
        i < text.len() ==> is_white_space(text[i]),
    ensures
        until_white_space(text) == text.take(i),
    decreases i,
{
    if i > 0 {
        let rest = text.drop_first();
        assert forall|j: int| 0 <= j < i - 1 implies !is_white_space(#[trigger] rest[j]) by {
            assert(rest[j] == text[j + 1]);
        }
        lemma_until_white_space(rest, i - 1);
        assert(text.take(i) =~= seq![text[0]] + rest.take(i - 1));
    } else {
        assert(text.take(0) =~= Seq::<char>::empty());
    }
}

/// The first word of a text is a part of it.
pub proof fn lemma_word_of(text: Seq<char>)
    ensures
        first_word(text) matches Some(w) ==> exists|from: int, to: int|
            #![trigger text.subrange(from, to)]
            0 <= from < to <= text.len() && w == text.subrange(from, to),
{
    let begun = strip_start(text, white_space());
    lemma_strip_start_shape(text, white_space());
    if begun.len() > 0 {
        let from = choose|i: int| #![trigger text.skip(i)]
            0 <= i <= text.len() && begun == text.skip(i);
        let k = lemma_until_white_space_is_prefix(begun);
        assert(!white_space()(begun[0]));
        assert(until_white_space(begun).len() > 0);
        assert(begun.take(k) =~= text.subrange(from, from + k));
    }
}

proof fn lemma_until_white_space_is_prefix(text: Seq<char>) -> (k: int)
    ensures
        0 <= k <= text.len(),
        until_white_space(text) == text.take(k),
    decreases text.len(),
{
    if text.len() == 0 || is_white_space(text[0]) {
        assert(text.take(0) =~= Seq::<char>::empty());
        0
    } else {
        let k = lemma_until_white_space_is_prefix(text.drop_first());
        assert(text.take(k + 1) =~= seq![text[0]] + text.drop_first().take(k));
        k + 1
    }
}

/// The first word of a text, if it has one.
pub fn word<'a>(text: &'a [char]) -> (found: Option<&'a [char]>)
    ensures
        match found {
            Some(w) => first_word(text@) == Some(w@),
            None => first_word(text@) is None,
        },
{
    let begun = trim_start(text);
    if begun.len() == 0 {
        return None;
    }
    let mut i: usize = 0;
    while i < begun.len() && !begun[i].is_whitespace()
        invariant
            0 <= i <= begun@.len(),
            forall|j: int| 0 <= j < i ==> !is_white_space(#[trigger] begun@[j]),
        decreases begun@.len() - i,
    {
        i = i + 1;
    }
    proof {
        lemma_until_white_space(begun@, i as int);
    }
    Some(slice_subrange(begun, 0, i))
}

/// The characters of `text` behind its last line feed, or all of them if it has none.
pub open spec fn after_last_line_feed(text: Seq<char>) -> Seq<char>
    decreases text.len(),
{
    if text.len() == 0 || text.last() == '\n' {
        Seq::empty()
    } else {
        after_last_line_feed(text.drop_last()).push(text.last())
    }
}

/// The last of the lines of `text`. A line ends with a line feed, or with a carriage return and a
/// line feed, and these do not belong to it; the end of the text ends its last line too.
pub open spec fn last_line(text: Seq<char>) -> Option<Seq<char>> {
    if text.len() == 0 {
        None
    } else if text.last() != '\n' {
        Some(after_last_line_feed(text))
    } else {
        let line = after_last_line_feed(text.drop_last());
        if line.len() > 0 && line.last() == '\r' {
            Some(line.drop_last())
        } else {
            Some(line)
        }
    }
}

proof fn lemma_after_last_line_feed(text: Seq<char>, i: int)
    requires
        0 <= i <= text.len(),
        forall|j: int| i <= j < text.len() ==> #[trigger] text[j] != '\n',
        i > 0 ==> text[i - 1] == '\n',
    ensures
        after_last_line_feed(text) == text.skip(i),
    decreases text.len(),
{
    if i < text.len() {
        let rest = text.drop_last();
        assert(text[text.len() - 1] != '\n');
        assert forall|j: int| i <= j < rest.len() implies #[trigger] rest[j] != '\n' by {
            assert(rest[j] == text[j]);
        }
        lemma_after_last_line_feed(rest, i);
        assert(text.skip(i) =~= rest.skip(i).push(text.last()));
    } else {
        assert(text.skip(i) =~= Seq::<char>::empty());
    }
}

/// The last line of a text, if it has one.
pub fn final_line<'a>(text: &'a [char]) -> (line: Option<&'a [char]>)
    ensures
        match line {
            Some(l) => last_line(text@) == Some(l@),
            None => last_line(text@) is None,
        },
{
    if text.len() == 0 {
        return None;
    }
    let ended = text[text.len() - 1] == '\n';
    let body = if ended {
        slice_subrange(text, 0, text.len() - 1)
    } else {
        text
    };
    assert(ended ==> body@ =~= text@.drop_last());
    let mut i: usize = body.len();
    while i > 0 && body[i - 1] != '\n'
        invariant
            0 <= i <= body@.len(),
            forall|j: int| i <= j < body@.len() ==> #[trigger] body@[j] != '\n',
        decreases i,
    {
        i = i - 1;
    }
    proof {
        lemma_after_last_line_feed(body@, i as int);
    }
    let line = slice_subrange(body, i, body.len());
    if ended && line.len() > 0 && line[line.len() - 1] == '\r' {
        let bare = slice_subrange(line, 0, line.len() - 1);
        assert(bare@ =~= line@.drop_last());
        Some(bare)
    } else {
        Some(line)
    }
}

// Joining.

/// The texts that some strings hold.
pub open spec fn texts(items: Seq<String>) -> Seq<Seq<char>> {
    items.map_values(|item: String| item@)
}

/// The parts in their order, with `separator` between each two of them.
pub open spec fn joined(parts: Seq<Seq<char>>, separator: Seq<char>) -> Seq<char>
    decreases parts.len(),
{
    if parts.len() == 0 {
        Seq::empty()
    } else if parts.len() == 1 {
        parts[0]
    } else {
        joined(parts.drop_last(), separator) + separator + parts.last()
    }
}

/// Joins some strings, with `separator` between each two of them.
pub fn join(items: &Vec<String>, separator: &str) -> (text: String)
    ensures
        text@ == joined(texts(items@), separator@),
{
    let ghost parts = texts(items@);
    let mut text: String = String::new();
    let mut i: usize = 0;
    while i < items.len()
        invariant
            0 <= i <= items@.len(),
            parts == texts(items@),
            text@ == joined(parts.take(i as int), separator@),
        decreases items@.len() - i,
    {
        let ghost seen = parts.take(i + 1);
        assert(seen.drop_last() =~= parts.take(i as int));
        assert(seen.last() == items@[i as int]@);
        if i > 0 {
            text.append(separator);
            text.append(items[i].as_str());
        } else {
            text.append(items[i].as_str());
            assert(text@ =~= items@[0]@);
        }
        i = i + 1;
    }
    assert(parts.take(i as int) =~= parts);
    text
}

// Parts of a text.

/// A run of a text's characters stands in it.
pub proof fn lemma_subrange_is_part(text: Seq<char>, from: int, to: int)
    requires
        0 <= from <= to <= text.len(),
    ensures
        has_text(text, text.subrange(from, to)),
{
    assert(occurs_at(text, text.subrange(from, to), from));
}

/// What stands in a part of a text stands in the text.
pub proof fn lemma_part_of_part(text: Seq<char>, part: Seq<char>, smaller: Seq<char>)
    requires
        has_text(text, part),
        has_text(part, smaller),
    ensures
        has_text(text, smaller),
{
    let i = choose|i: int| occurs_at(text, part, i);
    let j = choose|j: int| occurs_at(part, smaller, j);
    assert(text.subrange(i + j, i + j + smaller.len()) =~= part.subrange(j, j + smaller.len()));
    assert(occurs_at(text, smaller, i + j));
}

/// What is left of a text when its end is stripped stands in it.
pub proof fn lemma_strip_end_is_part(text: Seq<char>, drops: spec_fn(char) -> bool)
    ensures
        has_text(text, strip_end(text, drops)),
{
    lemma_strip_end_shape(text, drops);
    let i = choose|i: int| #![trigger text.take(i)]
        0 <= i <= text.len() && strip_end(text, drops) == text.take(i);
    lemma_subrange_is_part(text, 0, i);
}

/// What is left of a text when it is trimmed stands in it.
pub proof fn lemma_trimmed_is_part(text: Seq<char>)
    ensures
        has_text(text, trimmed(text)),
{
    let begun = strip_start(text, white_space());
    lemma_strip_start_shape(text, white_space());
    let i = choose|i: int| #![trigger text.skip(i)]
        0 <= i <= text.len() && begun == text.skip(i);
    lemma_subrange_is_part(text, i, text.len() as int);
    lemma_strip_end_is_part(begun, white_space());
    lemma_part_of_part(text, begun, trimmed(text));
}

proof fn lemma_after_last_line_feed_is_part(text: Seq<char>)
    ensures
        has_text(text, after_last_line_feed(text)),
        exists|i: int| #![trigger text.skip(i)]
            0 <= i <= text.len() && after_last_line_feed(text) == text.skip(i),
    decreases text.len(),
{
    if text.len() == 0 || text.last() == '\n' {
        assert(text.skip(text.len() as int) =~= Seq::<char>::empty());
        lemma_subrange_is_part(text, text.len() as int, text.len() as int);
    } else {
        let rest = text.drop_last();
        lemma_after_last_line_feed_is_part(rest);
        let i = choose|i: int| #![trigger rest.skip(i)]
            0 <= i <= rest.len() && after_last_line_feed(rest) == rest.skip(i);
        assert(rest.skip(i).push(text.last()) =~= text.skip(i));
        lemma_subrange_is_part(text, i, text.len() as int);
    }
}

/// The last line of a text stands in it.
pub proof fn lemma_last_line_is_part(text: Seq<char>)
    ensures
        last_line(text) matches Some(line) ==> has_text(text, line),
{
    lemma_after_last_line_feed_is_part(text);
    if text.len() > 0 && text.last() == '\n' {
        let body = text.drop_last();
        let line = after_last_line_feed(body);
        lemma_subrange_is_part(text, 0, text.len() - 1);
        lemma_after_last_line_feed_is_part(body);
        lemma_part_of_part(text, body, line);
        if line.len() > 0 && line.last() == '\r' {
            lemma_subrange_is_part(line, 0, line.len() - 1);
            lemma_part_of_part(text, line, line.drop_last());
        }
    }
}

/// The last line of a text is what was put behind a line feed, if it holds no line feed itself.
pub proof fn lemma_last_line_behind(before: Seq<char>, line: Seq<char>)
    requires
        line.len() > 0,
        forall|i: int| 0 <= i < line.len() ==> #[trigger] line[i] != '\n',
    ensures
        last_line(before.push('\n') + line) == Some(line),
{
    let text = before.push('\n') + line;
    let i = (before.len() + 1) as int;
    assert forall|j: int| i <= j < text.len() implies #[trigger] text[j] != '\n' by {
        assert(text[j] == line[j - i]);
    }
    assert(text[text.len() - 1] != '\n');
    lemma_after_last_line_feed(text, i);
    assert(text.skip(i) =~= line);
}

} // verus!
