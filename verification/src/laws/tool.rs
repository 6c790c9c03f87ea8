//! When a prompt calls a tool, and with what, told by the characters of the prompt.

use vstd::prelude::*;
use vstd::utf8::is_ascii_chars;

use crate::laws::offset::{law_boundary, law_offset_behind, law_rest_from};
use crate::laws::text::{
    all_equal, all_white, bare, first_behind, lacks, law_first_word, law_has_text, law_no_word,
    law_starts_with, law_strip_end, law_trimmed, no_white,
};
use crate::offset::byte_len;
use crate::text::has_text;
use crate::tool::{
    ascii_classes, asks_for_math, can_cut, clean_place, detect_in_lowered, detect_tool_call,
    is_cuttable, is_math_operator, keeps_in_place, math_offset, place_offset, tool_call_for,
    try_detect_tool_call, unicode_classes, without_question_end, CharClasses, ToolCall,
    ToolCallView, UncuttablePrompt,
};
use crate::unicode::{
    ascii_lower, ascii_lowercase, is_white_space, unicode_alphabetic, unicode_lowercase,
    unicode_numeric,
};

verus! {

// Which tool.

/// Numbers and letters are those of the Unicode tables, or those of ASCII.
pub proof fn law_classes(c: char)
    ensures
        (unicode_classes().numeric)(c) == unicode_numeric(c),
        (unicode_classes().alphabetic)(c) == unicode_alphabetic(c),
        (ascii_classes().numeric)(c) <==> '0' <= c <= '9',
        (ascii_classes().alphabetic)(c) <==> 'a' <= c <= 'z' || 'A' <= c <= 'Z',
{
}

/// A prompt without one of the characters `+ - * / ^ ( )` never goes to the calculator.
pub proof fn law_no_operator_no_calculator(
    prompt: Seq<char>,
    lower: Seq<char>,
    classes: CharClasses,
)
    requires
        forall|i: int|
            0 <= i < lower.len() ==> #[trigger] lower[i] != '+' && lower[i] != '-' && lower[i]
                != '*' && lower[i] != '/' && lower[i] != '^' && lower[i] != '(' && lower[i] != ')',
    ensures
        !(tool_call_for(prompt, lower, classes) matches Some(ToolCallView::Calculator { .. })),
{
}

/// A prompt without a number never goes to the calculator.
pub proof fn law_no_number_no_calculator(
    prompt: Seq<char>,
    lower: Seq<char>,
    classes: CharClasses,
)
    requires
        forall|i: int| 0 <= i < lower.len() ==> !(classes.numeric)(#[trigger] lower[i]),
    ensures
        !(tool_call_for(prompt, lower, classes) matches Some(ToolCallView::Calculator { .. })),
{
    if lower.filter(classes.numeric).len() > 0 {
        let found = lower.filter(classes.numeric)[0];
        lower.lemma_filter_pred(classes.numeric, 0);
        assert(lower.filter(classes.numeric).contains(found));
        lower.lemma_filter_contains_rev(classes.numeric, found);
        let k = choose|k: int| 0 <= k < lower.len() && lower[k] == found;
        assert(!(classes.numeric)(lower[k]));
    }
}

/// A prompt with five letters or more goes to the calculator only if it begins as a question.
pub proof fn law_many_letters_need_a_question(
    prompt: Seq<char>,
    lower: Seq<char>,
    classes: CharClasses,
)
    requires
        lower.filter(classes.alphabetic).len() >= 5,
        !"what is "@.is_prefix_of(lower),
        !"what's "@.is_prefix_of(lower),
        !"calculate "@.is_prefix_of(lower),
        !"solve "@.is_prefix_of(lower),
    ensures
        !(tool_call_for(prompt, lower, classes) matches Some(ToolCallView::Calculator { .. })),
{
    law_starts_with(lower, "what is "@);
    law_starts_with(lower, "what's "@);
    law_starts_with(lower, "calculate "@);
    law_starts_with(lower, "solve "@);
}

/// A prompt with an operator and a number goes to the calculator if it has fewer than five letters
/// or begins as a question: each of the seven operators and each of the four beginnings will do.
pub proof fn law_mathematics_calls_the_calculator(
    prompt: Seq<char>,
    lower: Seq<char>,
    classes: CharClasses,
    i: int,
    j: int,
)
    requires
        0 <= i < lower.len(),
        lower[i] == '+' || lower[i] == '-' || lower[i] == '*' || lower[i] == '/' || lower[i] == '^'
            || lower[i] == '(' || lower[i] == ')',
        0 <= j < lower.len(),
        (classes.numeric)(lower[j]),
        lower.filter(classes.alphabetic).len() < 5 || "what is "@.is_prefix_of(lower)
            || "what's "@.is_prefix_of(lower) || "calculate "@.is_prefix_of(lower)
            || "solve "@.is_prefix_of(lower),
    ensures
        tool_call_for(prompt, lower, classes) matches Some(ToolCallView::Calculator { .. }),
{
    assert(is_math_operator(lower[i]));
    lower.lemma_filter_contains(classes.numeric, j);
    law_starts_with(lower, "what is "@);
    law_starts_with(lower, "what's "@);
    law_starts_with(lower, "calculate "@);
    law_starts_with(lower, "solve "@);
}

/// What does not go to the calculator goes to the weather service exactly if it speaks of the
/// weather, and calls no tool else.
pub proof fn law_weather_is_asked_by_name(
    prompt: Seq<char>,
    lower: Seq<char>,
    classes: CharClasses,
)
    requires
        !(tool_call_for(prompt, lower, classes) matches Some(ToolCallView::Calculator { .. })),
    ensures
        tool_call_for(prompt, lower, classes) is None <==> lacks(lower, "weather"@),
        (tool_call_for(prompt, lower, classes) matches Some(ToolCallView::Weather { .. }))
            <==> !lacks(lower, "weather"@),
{
    law_has_text(lower, "weather"@);
}

// With which expression.

/// The openings, in the order in which they are sought: this is the first that stands in the
/// prompt.
pub open spec fn is_opening(lower: Seq<char>, marker: Seq<char>) -> bool {
    ||| marker == "calculate "@
    ||| marker == "what is "@ && lacks(lower, "calculate "@)
    ||| marker == "what's "@ && lacks(lower, "calculate "@) && lacks(lower, "what is "@)
    ||| marker == "solve "@ && lacks(lower, "calculate "@) && lacks(lower, "what is "@) && lacks(
        lower,
        "what's "@,
    )
}

/// `core`, white space, full stops and question marks, such that none of `core` is taken for the
/// end of a question.
pub open spec fn ends_question(
    core: Seq<char>,
    gap: Seq<char>,
    stops: Seq<char>,
    marks: Seq<char>,
) -> bool {
    &&& bare(core)
    &&& all_white(gap)
    &&& all_equal(stops, '.')
    &&& all_equal(marks, '?')
    &&& core.len() > 0 && gap.len() > 0 ==> stops.len() + marks.len() > 0
    &&& core.len() > 0 && gap.len() == 0 ==> core[core.len() - 1] != '.' && (core[core.len() - 1]
        == '?' ==> stops.len() > 0)
}

/// The end of a question is its question marks, the full stops before them, and white space.
pub proof fn law_question_end(
    before: Seq<char>,
    core: Seq<char>,
    gap: Seq<char>,
    stops: Seq<char>,
    marks: Seq<char>,
    after: Seq<char>,
)
    requires
        all_white(before),
        all_white(after),
        ends_question(core, gap, stops, marks),
    ensures
        without_question_end(before + core + gap + stops + marks + after) == core,
{
    let text = before + core + gap + stops + marks + after;
    let empty = Seq::<char>::empty();
    if stops.len() + marks.len() == 0 {
        if core.len() == 0 {
            let white = before + gap;
            assert(all_white(white)) by {
                assert forall|i: int| 0 <= i < white.len() implies is_white_space(
                    #[trigger] white[i],
                ) by {
                    if i < before.len() {
                        assert(white[i] == before[i]);
                    } else {
                        assert(white[i] == gap[i - before.len()]);
                    }
                }
            }
            assert(text =~= white + core + after);
            law_trimmed(white, core, after);
        } else {
            assert(text =~= before + core + after);
            law_trimmed(before, core, after);
        }
        law_strip_end(core, empty, '?');
        assert(core + empty =~= core);
        law_strip_end(core, empty, '.');
        law_trimmed(empty, core, empty);
        assert(empty + core + empty =~= core);
    } else if core.len() == 0 {
        let white = before + gap;
        assert(all_white(white)) by {
            assert forall|i: int| 0 <= i < white.len() implies is_white_space(
                #[trigger] white[i],
            ) by {
                if i < before.len() {
                    assert(white[i] == before[i]);
                } else {
                    assert(white[i] == gap[i - before.len()]);
                }
            }
        }
        let middle = stops + marks;
        lemma_marks_are_bare(empty, stops, marks);
        assert(empty + stops + marks =~= middle);
        assert(text =~= white + middle + after);
        law_trimmed(white, middle, after);
        assert(stops.len() > 0 ==> stops[stops.len() - 1] == '.');
        law_strip_end(stops, marks, '?');
        assert(empty + stops =~= stops);
        law_strip_end(empty, stops, '.');
        law_trimmed(empty, empty, empty);
        assert(empty + empty + empty =~= empty);
        assert(core =~= empty);
    } else {
        let begun = core + gap;
        let stopped = begun + stops;
        let middle = stopped + marks;
        lemma_marks_are_bare(begun, stops, marks);
        assert(begun + stops + marks =~= middle);
        assert(begun[0] == core[0]);
        assert(bare(middle)) by {
            assert(middle[0] == core[0]);
        }
        assert(text =~= before + middle + after);
        law_trimmed(before, middle, after);
        assert(begun[begun.len() - 1] == if gap.len() > 0 {
            gap[gap.len() - 1]
        } else {
            core[core.len() - 1]
        });
        assert(stopped[stopped.len() - 1] == if stops.len() > 0 {
            stops[stops.len() - 1]
        } else {
            begun[begun.len() - 1]
        });
        assert(stops.len() > 0 ==> stops[stops.len() - 1] == '.');
        assert(gap.len() > 0 ==> is_white_space(gap[gap.len() - 1]));
        law_strip_end(stopped, marks, '?');
        law_strip_end(begun, stops, '.');
        assert(empty + core + gap =~= begun);
        law_trimmed(empty, core, gap);
    }
}

proof fn lemma_marks_are_bare(begun: Seq<char>, stops: Seq<char>, marks: Seq<char>)
    requires
        all_equal(stops, '.'),
        all_equal(marks, '?'),
        stops.len() + marks.len() > 0,
    ensures
        ({
            let all = begun + stops + marks;
            !is_white_space(all[all.len() - 1]) && (begun.len() == 0 ==> !is_white_space(all[0]))
        }),
{
    let all = begun + stops + marks;
    if marks.len() > 0 {
        assert(all[all.len() - 1] == marks[marks.len() - 1]);
    } else {
        assert(all[all.len() - 1] == stops[stops.len() - 1]);
    }
    if begun.len() == 0 {
        if stops.len() > 0 {
            assert(all[0] == stops[0]);
        } else {
            assert(all[0] == marks[0]);
        }
    }
}

proof fn lemma_math_offset(lower: Seq<char>, before: Seq<char>, marker: Seq<char>)
    requires
        is_opening(lower, marker),
        first_behind(lower, before, marker),
    ensures
        math_offset(lower) == Some(byte_len(before) + byte_len(marker)),
{
    law_offset_behind(lower, before, marker);
    law_offset_behind(lower, before, "calculate "@);
    law_offset_behind(lower, before, "what is "@);
    law_offset_behind(lower, before, "what's "@);
}

proof fn lemma_no_math_offset(lower: Seq<char>)
    requires
        lacks(lower, "calculate "@),
        lacks(lower, "what is "@),
        lacks(lower, "what's "@),
        lacks(lower, "solve "@),
    ensures
        math_offset(lower) is None,
{
    law_offset_behind(lower, lower, "calculate "@);
    law_offset_behind(lower, lower, "what is "@);
    law_offset_behind(lower, lower, "what's "@);
    law_offset_behind(lower, lower, "solve "@);
}

/// The expression begins in the prompt behind as many bytes as the opening ends behind in the
/// small letters, and is what stands there but for white space and the end of the question.
pub proof fn law_expression_follows_the_opening(
    head: Seq<char>,
    before: Seq<char>,
    core: Seq<char>,
    gap: Seq<char>,
    stops: Seq<char>,
    marks: Seq<char>,
    after: Seq<char>,
    lower: Seq<char>,
    lower_head: Seq<char>,
    marker: Seq<char>,
    classes: CharClasses,
)
    requires
        tool_call_for(
            head + (before + core + gap + stops + marks + after),
            lower,
            classes,
        ) matches Some(ToolCallView::Calculator { .. }),
        is_opening(lower, marker),
        first_behind(lower, lower_head, marker),
        byte_len(head) == byte_len(lower_head) + byte_len(marker),
        all_white(before),
        all_white(after),
        ends_question(core, gap, stops, marks),
    ensures
        tool_call_for(head + (before + core + gap + stops + marks + after), lower, classes)
            == Some(ToolCallView::Calculator { expression: core }),
{
    let rest = before + core + gap + stops + marks + after;
    lemma_math_offset(lower, lower_head, marker);
    law_rest_from(head, rest);
    law_question_end(before, core, gap, stops, marks, after);
}

/// Without an opening the expression is the prompt, but for white space and the end of a question.
pub proof fn law_expression_is_the_prompt(
    before: Seq<char>,
    core: Seq<char>,
    gap: Seq<char>,
    stops: Seq<char>,
    marks: Seq<char>,
    after: Seq<char>,
    lower: Seq<char>,
    classes: CharClasses,
)
    requires
        tool_call_for(before + core + gap + stops + marks + after, lower, classes) matches Some(
            ToolCallView::Calculator { .. },
        ),
        lacks(lower, "calculate "@),
        lacks(lower, "what is "@),
        lacks(lower, "what's "@),
        lacks(lower, "solve "@),
        all_white(before),
        all_white(after),
        ends_question(core, gap, stops, marks),
    ensures
        tool_call_for(before + core + gap + stops + marks + after, lower, classes) == Some(
            ToolCallView::Calculator { expression: core },
        ),
{
    lemma_no_math_offset(lower);
    law_question_end(before, core, gap, stops, marks, after);
}

// With which place.

/// The markers of a place, in the order in which they are sought.
pub open spec fn is_place_marker(lower: Seq<char>, marker: Seq<char>) -> bool {
    ||| marker == "weather in "@
    ||| marker == "weather for "@ && lacks(lower, "weather in "@)
}

/// Letters, numbers, `-` and `_` stay in a place, and all else is left out.
pub proof fn law_clean_place(left: Seq<char>, c: char, classes: CharClasses)
    ensures
        clean_place(Seq::empty(), classes) == Seq::<char>::empty(),
        clean_place(left.push(c), classes) == if (classes.alphabetic)(c) || (classes.numeric)(c)
            || c == '-' || c == '_' {
            clean_place(left, classes).push(c)
        } else {
            clean_place(left, classes)
        },
{
    reveal(Seq::filter);
    left.lemma_filter_push(c, keeps_in_place(classes));
}

/// A place that holds nothing else stays as it is.
pub proof fn law_clean_place_stays(place: Seq<char>, classes: CharClasses)
    requires
        forall|i: int|
            0 <= i < place.len() ==> (classes.alphabetic)(#[trigger] place[i]) || (
            classes.numeric)(place[i]) || place[i] == '-' || place[i] == '_',
    ensures
        clean_place(place, classes) == place,
    decreases place.len(),
{
    if place.len() > 0 {
        let rest = place.drop_last();
        assert forall|i: int| 0 <= i < rest.len() implies (classes.alphabetic)(#[trigger] rest[i])
            || (classes.numeric)(rest[i]) || rest[i] == '-' || rest[i] == '_' by {
            assert(rest[i] == place[i]);
        }
        law_clean_place_stays(rest, classes);
        assert(place =~= rest.push(place[place.len() - 1]));
        law_clean_place(rest, place[place.len() - 1], classes);
    } else {
        assert(place =~= Seq::<char>::empty());
        law_clean_place(place, ' ', classes);
    }
}

proof fn lemma_place_offset(lower: Seq<char>, before: Seq<char>, marker: Seq<char>)
    requires
        is_place_marker(lower, marker),
        first_behind(lower, before, marker),
    ensures
        place_offset(lower) == Some(byte_len(before) + byte_len(marker)),
{
    law_offset_behind(lower, before, marker);
    law_offset_behind(lower, before, "weather in "@);
}

/// The place is the first word in the prompt behind as many bytes as the marker ends behind in the
/// small letters, and London where there is no word.
pub proof fn law_place_follows_the_marker(
    head: Seq<char>,
    before: Seq<char>,
    first: Seq<char>,
    after: Seq<char>,
    lower: Seq<char>,
    lower_head: Seq<char>,
    marker: Seq<char>,
    classes: CharClasses,
)
    requires
        tool_call_for(head + (before + first + after), lower, classes) matches Some(
            ToolCallView::Weather { .. },
        ),
        is_place_marker(lower, marker),
        first_behind(lower, lower_head, marker),
        byte_len(head) == byte_len(lower_head) + byte_len(marker),
        all_white(before),
        no_white(first),
        after.len() > 0 ==> is_white_space(after[0]),
        first.len() == 0 ==> after.len() == 0,
    ensures
        tool_call_for(head + (before + first + after), lower, classes) == Some(
            ToolCallView::Weather {
                location: if first.len() > 0 {
                    clean_place(first, classes)
                } else {
                    clean_place("London"@, classes)
                },
            },
        ),
{
    let rest = before + first + after;
    lemma_place_offset(lower, lower_head, marker);
    law_rest_from(head, rest);
    if first.len() > 0 {
        law_first_word(before, first, after);
    } else {
        assert(rest =~= before);
        law_no_word(before);
    }
}

/// Where no place is named, it is London.
pub proof fn law_place_is_london(prompt: Seq<char>, lower: Seq<char>, classes: CharClasses)
    requires
        tool_call_for(prompt, lower, classes) matches Some(ToolCallView::Weather { .. }),
        lacks(lower, "weather in "@),
        lacks(lower, "weather for "@),
    ensures
        tool_call_for(prompt, lower, classes) == Some(
            ToolCallView::Weather { location: clean_place("London"@, classes) },
        ),
{
    law_offset_behind(lower, lower, "weather in "@);
    law_offset_behind(lower, lower, "weather for "@);
}

// Where the prompt is cut.

/// A prompt that goes to a tool behind a marker can be cut exactly if one of its beginnings takes
/// as many bytes as the small letters take up to the end of the marker.
pub proof fn law_can_cut_behind(
    prompt: Seq<char>,
    lower: Seq<char>,
    lower_head: Seq<char>,
    marker: Seq<char>,
    classes: CharClasses,
)
    requires
        first_behind(lower, lower_head, marker),
        match tool_call_for(prompt, lower, classes) {
            Some(ToolCallView::Calculator { .. }) => is_opening(lower, marker),
            Some(ToolCallView::Weather { .. }) => is_place_marker(lower, marker),
            None => false,
        },
    ensures
        can_cut(prompt, lower, classes) <==> exists|k: int|
            0 <= k <= prompt.len() && #[trigger] byte_len(prompt.take(k)) == byte_len(lower_head)
                + byte_len(marker),
{
    if asks_for_math(lower, classes) {
        lemma_math_offset(lower, lower_head, marker);
    } else {
        lemma_place_offset(lower, lower_head, marker);
    }
    law_boundary(prompt, byte_len(lower_head) + byte_len(marker));
}

/// A prompt that calls no tool, or holds no marker, need not be cut.
pub proof fn law_can_stay_whole(prompt: Seq<char>, lower: Seq<char>, classes: CharClasses)
    requires
        match tool_call_for(prompt, lower, classes) {
            Some(ToolCallView::Calculator { .. }) => lacks(lower, "calculate "@) && lacks(
                lower,
                "what is "@,
            ) && lacks(lower, "what's "@) && lacks(lower, "solve "@),
            Some(ToolCallView::Weather { .. }) => lacks(lower, "weather in "@) && lacks(
                lower,
                "weather for "@,
            ),
            None => true,
        },
    ensures
        can_cut(prompt, lower, classes),
{
    if asks_for_math(lower, classes) {
        lemma_no_math_offset(lower);
    } else if has_text(lower, "weather"@) {
        law_offset_behind(lower, lower, "weather in "@);
        law_offset_behind(lower, lower, "weather for "@);
    }
}

// What the functions give.

/// The call that a function gives is the one that the prompt and its small letters ask for.
pub open spec fn is_call(call: Option<ToolCall>, view: Option<ToolCallView>) -> bool {
    match (call, view) {
        (None, None) => true,
        (
            Some(ToolCall::Calculator { expression }),
            Some(ToolCallView::Calculator { expression: text }),
        ) => expression@ == text,
        (
            Some(ToolCall::Weather { location }),
            Some(ToolCallView::Weather { location: text }),
        ) => location@ == text,
        _ => false,
    }
}

/// `detect_in_lowered` and `is_cuttable` go by the small letters that they are given.
pub proof fn law_detect_in_lowered(prompt: &str, lower: &str, call: Option<ToolCall>, b: bool)
    requires
        call_ensures(detect_in_lowered, (prompt, lower), call),
        call_ensures(is_cuttable, (prompt, lower), b),
    ensures
        is_call(call, tool_call_for(prompt@, lower@, unicode_classes())),
        b == can_cut(prompt@, lower@, unicode_classes()),
        is_ascii_chars(prompt@) && is_ascii_chars(lower@) ==> is_call(
            call,
            tool_call_for(prompt@, lower@, ascii_classes()),
        ),
        is_ascii_chars(lower@) ==> b == can_cut(prompt@, lower@, ascii_classes()),
{
}

/// `detect_tool_call` and `try_detect_tool_call` go by the prompt's small letters, and give the
/// same call unless the prompt cannot be cut.
pub proof fn law_detect_tool_call(
    prompt: &str,
    call: Option<ToolCall>,
    found: Result<Option<ToolCall>, UncuttablePrompt>,
)
    requires
        call_ensures(detect_tool_call, (prompt,), call),
        call_ensures(try_detect_tool_call, (prompt,), found),
    ensures
        is_call(call, tool_call_for(prompt@, unicode_lowercase(prompt@), unicode_classes())),
        found is Ok <==> can_cut(prompt@, unicode_lowercase(prompt@), unicode_classes()),
        found matches Ok(other) ==> is_call(
            other,
            tool_call_for(prompt@, unicode_lowercase(prompt@), unicode_classes()),
        ),
        is_ascii_chars(prompt@) ==> is_call(
            call,
            tool_call_for(prompt@, ascii_lowercase(prompt@), ascii_classes()),
        ),
        is_ascii_chars(prompt@) ==> (found matches Ok(other) && is_call(
            other,
            tool_call_for(prompt@, ascii_lowercase(prompt@), ascii_classes()),
        )),
{
}

/// A prompt in ASCII always gets an answer, which never is the calculator if none of the
/// characters `+ - * / ^ ( )` stands in it, or no digit.
pub proof fn law_ascii_prompt_without_mathematics(
    prompt: &str,
    found: Result<Option<ToolCall>, UncuttablePrompt>,
)
    requires
        call_ensures(try_detect_tool_call, (prompt,), found),
        is_ascii_chars(prompt@),
        (forall|i: int|
            0 <= i < prompt@.len() ==> #[trigger] prompt@[i] != '+' && prompt@[i] != '-'
                && prompt@[i] != '*' && prompt@[i] != '/' && prompt@[i] != '^' && prompt@[i] != '('
                && prompt@[i] != ')') || (forall|i: int|
            0 <= i < prompt@.len() ==> !('0' <= #[trigger] prompt@[i] <= '9')),
    ensures
        found matches Ok(call) && !(call matches Some(ToolCall::Calculator { .. })),
{
    let lower = ascii_lowercase(prompt@);
    assert forall|i: int| 0 <= i < lower.len() implies #[trigger] lower[i] == ascii_lower(
        prompt@[i],
    ) by {}
    if forall|i: int|
        0 <= i < prompt@.len() ==> #[trigger] prompt@[i] != '+' && prompt@[i] != '-' && prompt@[i]
            != '*' && prompt@[i] != '/' && prompt@[i] != '^' && prompt@[i] != '(' && prompt@[i]
            != ')' {
        assert forall|i: int| 0 <= i < lower.len() implies #[trigger] lower[i] != '+' && lower[i]
            != '-' && lower[i] != '*' && lower[i] != '/' && lower[i] != '^' && lower[i] != '('
            && lower[i] != ')' by {
            assert(lower[i] == ascii_lower(prompt@[i]));
        }
        law_no_operator_no_calculator(prompt@, lower, ascii_classes());
    } else {
        assert forall|i: int| 0 <= i < lower.len() implies !(ascii_classes().numeric)(
            #[trigger] lower[i],
        ) by {
            assert(lower[i] == ascii_lower(prompt@[i]));
            assert(!('0' <= prompt@[i] <= '9'));
        }
        law_no_number_no_calculator(prompt@, lower, ascii_classes());
    }
}

} // verus!
