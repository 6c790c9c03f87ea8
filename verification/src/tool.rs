//! Which tool a prompt asks for, and with what.

use vstd::prelude::*;
use vstd::string::*;
use vstd::utf8::is_ascii_chars;

use crate::offset::{cut, ends_char, find_offset, is_boundary, lemma_ascii_offset, offset_behind, rest_from};
use crate::text::{
    chars_of, contains, equal_to, find_text, first_word, has_bare_ends, has_text, law_trimmed_has_bare_ends,
    lemma_find_text, lemma_part_of_part, lemma_strip_end_is_part, lemma_subrange_is_part,
    lemma_trimmed_is_part, lemma_word_of, matches_at, starts_with_text, strip_end, text_of, trim,
    trim_end_of, trimmed, word,
};
use crate::unicode::{
    ascii_lower, ascii_lowercase, is_ascii_digit, is_ascii_letter, to_lowercase,
    unicode_alphabetic, unicode_lowercase, unicode_numeric,
};

verus! {

/// A tool, and what to hand to it.
#[derive(Debug, Clone, PartialEq, Eq)]
pub enum ToolCall {
    Weather { location: String },
    Calculator { expression: String },
}

/// A tool call by its texts.
pub enum ToolCallView {
    Weather { location: Seq<char> },
    Calculator { expression: Seq<char> },
}

impl View for ToolCall {
    type V = ToolCallView;

    open spec fn view(&self) -> ToolCallView {
        match self {
            ToolCall::Weather { location } => ToolCallView::Weather { location: location@ },
            ToolCall::Calculator { expression } => ToolCallView::Calculator {
                expression: expression@,
            },
        }
    }
}

/// What a tool call that may be missing looks like.
pub open spec fn call_view(call: Option<ToolCall>) -> Option<ToolCallView> {
    match call {
        Some(c) => Some(c@),
        None => None,
    }
}

/// What a tool came back with.
#[derive(Debug, Clone, PartialEq, Eq)]
pub struct ToolResult {
    pub success: bool,
    pub content: String,
}

/// A tool's result by its text.
pub struct ToolResultView {
    pub success: bool,
    pub content: Seq<char>,
}

impl View for ToolResult {
    type V = ToolResultView;

    open spec fn view(&self) -> ToolResultView {
        ToolResultView { success: self.success, content: self.content@ }
    }
}

/// A result that says that the tool succeeded.
pub open spec fn succeeded(content: Seq<char>) -> ToolResultView {
    ToolResultView { success: true, content }
}

/// A result that says that the tool failed.
pub open spec fn failed(content: Seq<char>) -> ToolResultView {
    ToolResultView { success: false, content }
}

/// Which characters count as numbers and which as letters.
pub struct CharClasses {
    pub numeric: spec_fn(char) -> bool,
    pub alphabetic: spec_fn(char) -> bool,
}

/// Numbers and letters by the Unicode tables.
pub open spec fn unicode_classes() -> CharClasses {
    CharClasses {
        numeric: |c: char| unicode_numeric(c),
        alphabetic: |c: char| unicode_alphabetic(c),
    }
}

/// Numbers and letters of ASCII alone.
pub open spec fn ascii_classes() -> CharClasses {
    CharClasses {
        numeric: |c: char| is_ascii_digit(c),
        alphabetic: |c: char| is_ascii_letter(c),
    }
}

// Mathematics.

/// The characters that mark a prompt as mathematics.
pub open spec fn is_math_operator(c: char) -> bool {
    c == '+' || c == '-' || c == '*' || c == '/' || c == '^' || c == '(' || c == ')'
}

/// The prompt, in small letters, begins as a question or an order to calculate.
pub open spec fn opens_math_question(lower: Seq<char>) -> bool {
    ||| starts_with_text(lower, "what is "@)
    ||| starts_with_text(lower, "what's "@)
    ||| starts_with_text(lower, "calculate "@)
    ||| starts_with_text(lower, "solve "@)
}

/// The prompt, in small letters, holds an operator and a number, and either opens as a question
/// or has very few letters.
pub open spec fn asks_for_math(lower: Seq<char>, classes: CharClasses) -> bool {
    &&& exists|i: int| 0 <= i < lower.len() && is_math_operator(#[trigger] lower[i])
    &&& lower.filter(classes.numeric).len() > 0
    &&& opens_math_question(lower) || lower.filter(classes.alphabetic).len() < 5
}

/// The first of two offsets, or the second if there is no first.
pub open spec fn first_of(left: Option<nat>, right: Option<nat>) -> Option<nat> {
    match left {
        Some(n) => Some(n),
        None => right,
    }
}

/// The offset at which the expression begins, if one of the question's openings stands in the
/// prompt.
pub open spec fn math_offset(lower: Seq<char>) -> Option<nat> {
    first_of(
        offset_behind(lower, "calculate "@),
        first_of(
            offset_behind(lower, "what is "@),
            first_of(offset_behind(lower, "what's "@), offset_behind(lower, "solve "@)),
        ),
    )
}

/// `text` without the marks that end a question, and without white space around.
pub open spec fn without_question_end(text: Seq<char>) -> Seq<char> {
    trimmed(strip_end(strip_end(trimmed(text), equal_to('?')), equal_to('.')))
}

/// What stands in `prompt` from the offset on, or all of it.
pub open spec fn cut_prompt(prompt: Seq<char>, offset: Option<nat>) -> Seq<char> {
    match offset {
        Some(n) => rest_from(prompt, n),
        None => prompt,
    }
}

// Weather.

/// The offset at which the place begins, if the prompt names one.
pub open spec fn place_offset(lower: Seq<char>) -> Option<nat> {
    first_of(offset_behind(lower, "weather in "@), offset_behind(lower, "weather for "@))
}

/// The place that the prompt names, or London.
pub open spec fn named_place(prompt: Seq<char>, offset: Option<nat>) -> Seq<char> {
    match offset {
        Some(n) => match first_word(rest_from(prompt, n)) {
            Some(place) => place,
            None => "London"@,
        },
        None => "London"@,
    }
}

/// A character that may stand in the path of an URL as it is.
pub open spec fn keeps_in_place(classes: CharClasses) -> spec_fn(char) -> bool {
    |c: char| (classes.alphabetic)(c) || (classes.numeric)(c) || c == '-' || c == '_'
}

/// The place without the characters that could spoil an URL.
pub open spec fn clean_place(place: Seq<char>, classes: CharClasses) -> Seq<char> {
    place.filter(keeps_in_place(classes))
}

// The decision.

/// The offset at which the prompt is cut, if it is.
pub open spec fn cut_offset(lower: Seq<char>, classes: CharClasses) -> Option<nat> {
    if asks_for_math(lower, classes) {
        math_offset(lower)
    } else if has_text(lower, "weather"@) {
        place_offset(lower)
    } else {
        None
    }
}

/// The offset, which is found in the prompt's small letters, is one at which the prompt itself can
/// be cut.
pub open spec fn can_cut(prompt: Seq<char>, lower: Seq<char>, classes: CharClasses) -> bool {
    match cut_offset(lower, classes) {
        Some(n) => is_boundary(prompt, n),
        None => true,
    }
}

/// The tool that `prompt` asks for, where `lower` is `prompt` in small letters.
pub open spec fn tool_call_for(
    prompt: Seq<char>,
    lower: Seq<char>,
    classes: CharClasses,
) -> Option<ToolCallView> {
    if asks_for_math(lower, classes) {
        Some(
            ToolCallView::Calculator {
                expression: without_question_end(cut_prompt(prompt, math_offset(lower))),
            },
        )
    } else if has_text(lower, "weather"@) {
        Some(
            ToolCallView::Weather {
                location: clean_place(named_place(prompt, place_offset(lower)), classes),
            },
        )
    } else {
        None
    }
}

fn math_operator(c: char) -> (b: bool)
    ensures
        b == is_math_operator(c),
{
    c == '+' || c == '-' || c == '*' || c == '/' || c == '^' || c == '(' || c == ')'
}

fn math_opening(lower: &[char]) -> (b: bool)
    ensures
        b == opens_math_question(lower@),
{
    matches_at(lower, chars_of("what is ").as_slice(), 0) || matches_at(
        lower,
        chars_of("what's ").as_slice(),
        0,
    ) || matches_at(lower, chars_of("calculate ").as_slice(), 0) || matches_at(
        lower,
        chars_of("solve ").as_slice(),
        0,
    )
}

/// Whether a prompt, in small letters, asks for mathematics.
fn math_request(lower: &[char]) -> (b: bool)
    ensures
        b == asks_for_math(lower@, unicode_classes()),
        is_ascii_chars(lower@) ==> b == asks_for_math(lower@, ascii_classes()),
{
    let ghost unicode = unicode_classes();
    let ghost ascii = ascii_classes();
    let mut operators: bool = false;
    let mut numbers: usize = 0;
    let mut letters: usize = 0;
    let mut i: usize = 0;
    assert(lower@.take(0) =~= Seq::<char>::empty());
    proof {
        reveal(Seq::filter);
    }
    while i < lower.len()
        invariant
            0 <= i <= lower@.len(),
            unicode == unicode_classes(),
            ascii == ascii_classes(),
            operators == exists|j: int| 0 <= j < i && is_math_operator(#[trigger] lower@[j]),
            numbers <= i,
            letters <= i,
            numbers == lower@.take(i as int).filter(unicode.numeric).len(),
            letters == lower@.take(i as int).filter(unicode.alphabetic).len(),
            is_ascii_chars(lower@) ==> numbers == lower@.take(i as int).filter(ascii.numeric).len(),
            is_ascii_chars(lower@) ==> letters == lower@.take(i as int).filter(
                ascii.alphabetic,
            ).len(),
        decreases lower@.len() - i,
    {
        let c: char = lower[i];
        proof {
            let seen = lower@.take(i as int);
            assert(lower@.take(i + 1) =~= seen.push(c));
            seen.lemma_filter_push(c, unicode.numeric);
            seen.lemma_filter_push(c, unicode.alphabetic);
            seen.lemma_filter_push(c, ascii.numeric);
            seen.lemma_filter_push(c, ascii.alphabetic);
        }
        if math_operator(c) {
            operators = true;
        }
        if c.is_numeric() {
            numbers = numbers + 1;
        }
        if c.is_alphabetic() {
            letters = letters + 1;
        }
        i = i + 1;
    }
    assert(lower@.take(i as int) =~= lower@);
    operators && numbers > 0 && (math_opening(lower) || letters < 5)
}

fn find_math_offset(lower: &[char]) -> (offset: Option<u128>)
    ensures
        match offset {
            Some(n) => math_offset(lower@) == Some(n as nat),
            None => math_offset(lower@) is None,
        },
{
    let calculate = find_offset(lower, chars_of("calculate ").as_slice());
    if calculate.is_some() {
        return calculate;
    }
    let what_is = find_offset(lower, chars_of("what is ").as_slice());
    if what_is.is_some() {
        return what_is;
    }
    let whats = find_offset(lower, chars_of("what's ").as_slice());
    if whats.is_some() {
        return whats;
    }
    find_offset(lower, chars_of("solve ").as_slice())
}

fn find_place_offset(lower: &[char]) -> (offset: Option<u128>)
    ensures
        match offset {
            Some(n) => place_offset(lower@) == Some(n as nat),
            None => place_offset(lower@) is None,
        },
{
    let within = find_offset(lower, chars_of("weather in ").as_slice());
    if within.is_some() {
        return within;
    }
    find_offset(lower, chars_of("weather for ").as_slice())
}

fn question_text(text: &[char]) -> (expression: String)
    ensures
        expression@ == without_question_end(text@),
{
    text_of(trim(trim_end_of(trim_end_of(trim(text), '?'), '.')))
}

fn place_text(place: &[char]) -> (location: String)
    ensures
        location@ == clean_place(place@, unicode_classes()),
        is_ascii_chars(place@) ==> location@ == clean_place(place@, ascii_classes()),
{
    let ghost unicode = keeps_in_place(unicode_classes());
    let ghost ascii = keeps_in_place(ascii_classes());
    let mut location: String = String::new();
    let mut i: usize = 0;
    assert(place@.take(0) =~= Seq::<char>::empty());
    proof {
        reveal(Seq::filter);
    }
    while i < place.len()
        invariant
            0 <= i <= place@.len(),
            unicode == keeps_in_place(unicode_classes()),
            ascii == keeps_in_place(ascii_classes()),
            location@ == place@.take(i as int).filter(unicode),
            is_ascii_chars(place@) ==> location@ == place@.take(i as int).filter(ascii),
        decreases place@.len() - i,
    {
        let c: char = place[i];
        proof {
            let seen = place@.take(i as int);
            assert(place@.take(i + 1) =~= seen.push(c));
            seen.lemma_filter_push(c, unicode);
            seen.lemma_filter_push(c, ascii);
        }
        if c.is_alphanumeric() || c == '-' || c == '_' {
            location.push(c);
        }
        i = i + 1;
    }
    assert(place@.take(i as int) =~= place@);
    location
}

fn offset_of_cut(lower: &[char]) -> (offset: Option<u128>)
    ensures
        match offset {
            Some(n) => cut_offset(lower@, unicode_classes()) == Some(n as nat),
            None => cut_offset(lower@, unicode_classes()) is None,
        },
        is_ascii_chars(lower@) ==> cut_offset(lower@, unicode_classes()) == cut_offset(
            lower@,
            ascii_classes(),
        ),
{
    if math_request(lower) {
        find_math_offset(lower)
    } else if contains(lower, chars_of("weather").as_slice()) {
        find_place_offset(lower)
    } else {
        None
    }
}

/// Whether the prompt can be cut where its small letters say that it must be.
pub fn is_cuttable(prompt: &str, lower: &str) -> (b: bool)
    ensures
        b == can_cut(prompt@, lower@, unicode_classes()),
        is_ascii_chars(lower@) ==> b == can_cut(prompt@, lower@, ascii_classes()),
{
    let small = chars_of(lower);
    match offset_of_cut(small.as_slice()) {
        Some(n) => cut(chars_of(prompt).as_slice(), n).is_some(),
        None => true,
    }
}

/// The tool that `prompt` asks for, where `lower` is `prompt` in small letters.
pub fn detect_in_lowered(prompt: &str, lower: &str) -> (call: Option<ToolCall>)
    requires
        can_cut(prompt@, lower@, unicode_classes()),
    ensures
        call_view(call) == tool_call_for(prompt@, lower@, unicode_classes()),
        is_ascii_chars(prompt@) && is_ascii_chars(lower@) ==> call_view(call) == tool_call_for(
            prompt@,
            lower@,
            ascii_classes(),
        ),
{
    let written = chars_of(prompt);
    let small = chars_of(lower);
    if math_request(small.as_slice()) {
        let question = match find_math_offset(small.as_slice()) {
            Some(n) => cut(written.as_slice(), n),
            None => Some(written.as_slice()),
        };
        match question {
            Some(text) => Some(ToolCall::Calculator { expression: question_text(text) }),
            None => None,
        }
    } else if contains(small.as_slice(), chars_of("weather").as_slice()) {
        let london = chars_of("London");
        let place = match find_place_offset(small.as_slice()) {
            Some(n) => match cut(written.as_slice(), n) {
                Some(rest) => match word(rest) {
                    Some(w) => w,
                    None => london.as_slice(),
                },
                None => london.as_slice(),
            },
            None => london.as_slice(),
        };
        proof {
            if is_ascii_chars(prompt@) {
                lemma_ascii_place(prompt@, place_offset(lower@));
            }
        }
        Some(ToolCall::Weather { location: place_text(place) })
    } else {
        None
    }
}

proof fn lemma_ascii_place(prompt: Seq<char>, offset: Option<nat>)
    requires
        is_ascii_chars(prompt),
        offset matches Some(n) ==> is_boundary(prompt, n),
    ensures
        is_ascii_chars(named_place(prompt, offset)),
{
    reveal_strlit("London");
    if let Some(n) = offset {
        let k = choose|k: int| ends_char(prompt, n, k);
        let rest = rest_from(prompt, n);
        assert(rest == prompt.skip(k));
        lemma_word_of(rest);
        if let Some(w) = first_word(rest) {
            let (from, to) = choose|from: int, to: int|
                #![trigger rest.subrange(from, to)]
                0 <= from < to <= rest.len() && w == rest.subrange(from, to);
            assert forall|i: int| 0 <= i < w.len() implies '\0' <= #[trigger] w[i] <= '\u{7f}' by {
                assert(w[i] == prompt[k + from + i]);
            }
        }
    }
}

/// The tool that a prompt asks for.
///
/// The prompt is searched in small letters, and cut at the offset that was found there. Some
/// characters take more or fewer bytes in small letters, so there are prompts outside ASCII that
/// cannot be cut at that offset; these are left to `try_detect_tool_call`.
pub fn detect_tool_call(prompt: &str) -> (call: Option<ToolCall>)
    requires
        can_cut(prompt@, unicode_lowercase(prompt@), unicode_classes()),
    ensures
        call_view(call) == tool_call_for(prompt@, unicode_lowercase(prompt@), unicode_classes()),
        is_ascii_chars(prompt@) ==> call_view(call) == tool_call_for(
            prompt@,
            ascii_lowercase(prompt@),
            ascii_classes(),
        ),
{
    let lower = to_lowercase(prompt);
    proof {
        if is_ascii_chars(prompt@) {
            lemma_ascii_lowercase(prompt@);
        }
    }
    detect_in_lowered(prompt, lower.as_str())
}

/// A prompt that cannot be cut at the offset that was found in its small letters.
#[derive(Debug, Clone, Copy, PartialEq, Eq, Structural)]
pub struct UncuttablePrompt;

/// The tool that a prompt asks for, unless the prompt cannot be cut.
pub fn try_detect_tool_call(prompt: &str) -> (found: Result<Option<ToolCall>, UncuttablePrompt>)
    ensures
        match found {
            Ok(call) => {
                &&& can_cut(prompt@, unicode_lowercase(prompt@), unicode_classes())
                &&& call_view(call) == tool_call_for(
                    prompt@,
                    unicode_lowercase(prompt@),
                    unicode_classes(),
                )
            },
            Err(_) => !can_cut(prompt@, unicode_lowercase(prompt@), unicode_classes()),
        },
        is_ascii_chars(prompt@) ==> (found matches Ok(call) && call_view(call) == tool_call_for(
            prompt@,
            ascii_lowercase(prompt@),
            ascii_classes(),
        )),
{
    let lower = to_lowercase(prompt);
    proof {
        if is_ascii_chars(prompt@) {
            lemma_ascii_lowercase(prompt@);
            law_ascii_prompt_can_be_cut(prompt@, unicode_classes());
        }
    }
    if is_cuttable(prompt, lower.as_str()) {
        Ok(detect_tool_call(prompt))
    } else {
        Err(UncuttablePrompt)
    }
}

proof fn lemma_ascii_lowercase(text: Seq<char>)
    requires
        is_ascii_chars(text),
    ensures
        is_ascii_chars(ascii_lowercase(text)),
        ascii_lowercase(text).len() == text.len(),
{
    let lower = ascii_lowercase(text);
    assert forall|i: int| 0 <= i < lower.len() implies '\0' <= #[trigger] lower[i] <= '\u{7f}' by {
        assert(lower[i] == ascii_lower(text[i]));
    }
}

proof fn lemma_ascii_offset_behind(text: Seq<char>, marker: Seq<char>)
    requires
        is_ascii_chars(text),
    ensures
        offset_behind(text, marker) matches Some(n) ==> n <= text.len(),
{
    lemma_find_text(text, marker);
    if let Some(at) = find_text(text, marker) {
        lemma_ascii_offset(text, at + marker.len());
    }
}

/// A prompt in ASCII can always be cut: its small letters stand where its letters stand.
pub proof fn law_ascii_prompt_can_be_cut(prompt: Seq<char>, classes: CharClasses)
    requires
        is_ascii_chars(prompt),
    ensures
        can_cut(prompt, ascii_lowercase(prompt), classes),
{
    let lower = ascii_lowercase(prompt);
    lemma_ascii_lowercase(prompt);
    lemma_ascii_offset_behind(lower, "calculate "@);
    lemma_ascii_offset_behind(lower, "what is "@);
    lemma_ascii_offset_behind(lower, "what's "@);
    lemma_ascii_offset_behind(lower, "solve "@);
    lemma_ascii_offset_behind(lower, "weather in "@);
    lemma_ascii_offset_behind(lower, "weather for "@);
    if let Some(n) = cut_offset(lower, classes) {
        lemma_ascii_offset(prompt, n as int);
    }
}

/// The place that is handed to the weather tool holds only letters, numbers, `-` and `_`.
pub proof fn law_weather_location_is_clean(
    prompt: Seq<char>,
    lower: Seq<char>,
    classes: CharClasses,
)
    ensures
        tool_call_for(prompt, lower, classes) matches Some(ToolCallView::Weather { location })
            ==> forall|i: int|
            0 <= i < location.len() ==> keeps_in_place(classes)(#[trigger] location[i]),
{
    let place = named_place(prompt, place_offset(lower));
    let keeps = keeps_in_place(classes);
    let location = clean_place(place, classes);
    assert forall|i: int| 0 <= i < location.len() implies keeps(#[trigger] location[i]) by {
        place.lemma_filter_pred(keeps, i);
    }
}

/// The expression that is handed to the calculator has no white space at its ends.
pub proof fn law_expression_is_trimmed(prompt: Seq<char>, lower: Seq<char>, classes: CharClasses)
    ensures
        tool_call_for(prompt, lower, classes) matches Some(
            ToolCallView::Calculator { expression },
        ) ==> has_bare_ends(expression),
{
    let text = cut_prompt(prompt, math_offset(lower));
    law_trimmed_has_bare_ends(
        strip_end(strip_end(trimmed(text), equal_to('?')), equal_to('.')),
    );
}

/// The expression that is handed to the calculator stands in the prompt as it is.
pub proof fn law_expression_stands_in_the_prompt(
    prompt: Seq<char>,
    lower: Seq<char>,
    classes: CharClasses,
)
    requires
        can_cut(prompt, lower, classes),
    ensures
        tool_call_for(prompt, lower, classes) matches Some(
            ToolCallView::Calculator { expression },
        ) ==> has_text(prompt, expression),
{
    if asks_for_math(lower, classes) {
        let text = cut_prompt(prompt, math_offset(lower));
        if let Some(n) = math_offset(lower) {
            let k = choose|k: int| ends_char(prompt, n, k);
            lemma_subrange_is_part(prompt, k, prompt.len() as int);
        } else {
            lemma_subrange_is_part(prompt, 0, prompt.len() as int);
            assert(prompt.subrange(0, prompt.len() as int) =~= prompt);
        }
        let a = trimmed(text);
        let b = strip_end(a, equal_to('?'));
        let c = strip_end(b, equal_to('.'));
        lemma_trimmed_is_part(text);
        lemma_part_of_part(prompt, text, a);
        lemma_strip_end_is_part(a, equal_to('?'));
        lemma_part_of_part(prompt, a, b);
        lemma_strip_end_is_part(b, equal_to('.'));
        lemma_part_of_part(prompt, b, c);
        lemma_trimmed_is_part(c);
        lemma_part_of_part(prompt, c, trimmed(c));
    }
}

/// Mathematics comes before the weather: a prompt that asks for both goes to the calculator.
pub proof fn law_math_before_weather(prompt: Seq<char>, lower: Seq<char>, classes: CharClasses)
    requires
        asks_for_math(lower, classes),
    ensures
        tool_call_for(prompt, lower, classes) matches Some(ToolCallView::Calculator { .. }),
{
}

/// Which tool an ASCII prompt asks for does not depend on the case of its letters.
pub proof fn law_tool_ignores_case(left: Seq<char>, right: Seq<char>, classes: CharClasses)
    requires
        ascii_lowercase(left) == ascii_lowercase(right),
    ensures
        ({
            let a = tool_call_for(left, ascii_lowercase(left), classes);
            let b = tool_call_for(right, ascii_lowercase(right), classes);
            match a {
                Some(ToolCallView::Calculator { .. }) => b matches Some(
                    ToolCallView::Calculator { .. },
                ),
                Some(ToolCallView::Weather { .. }) => b matches Some(ToolCallView::Weather { .. }),
                None => b is None,
            }
        }),
{
}

} // verus!
