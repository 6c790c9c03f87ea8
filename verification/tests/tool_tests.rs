use brok::tool::{
    detect_in_lowered, detect_tool_call, is_cuttable, try_detect_tool_call, ToolCall,
    UncuttablePrompt,
};

fn calculator(expression: &str) -> Option<ToolCall> {
    Some(ToolCall::Calculator { expression: expression.to_string() })
}

fn weather(location: &str) -> Option<ToolCall> {
    Some(ToolCall::Weather { location: location.to_string() })
}

#[test]
fn math_questions_go_to_the_calculator() {
    assert_eq!(detect_tool_call("what is 2+2?"), calculator("2+2"));
    assert_eq!(detect_tool_call("What's (1 + 2) * 3 ?"), calculator("(1 + 2) * 3"));
    assert_eq!(detect_tool_call("Calculate 10/4."), calculator("10/4"));
    assert_eq!(detect_tool_call("solve 2^10"), calculator("2^10"));
    assert_eq!(detect_tool_call("SOLVE 2^10"), calculator("2^10"));
}

#[test]
fn bare_math_goes_to_the_calculator() {
    assert_eq!(detect_tool_call(" 2 * 3 "), calculator("2 * 3"));
    assert_eq!(detect_tool_call("2*3??.."), calculator("2*3??"));
    assert_eq!(detect_tool_call("2*3..??"), calculator("2*3"));
    assert_eq!(detect_tool_call("abcd 1+1"), calculator("abcd 1+1"));
    assert_eq!(detect_tool_call("abcde 1+1"), None);
}

#[test]
fn math_needs_an_operator_and_a_number() {
    assert_eq!(detect_tool_call("what is love"), None);
    assert_eq!(detect_tool_call("what is 42"), None);
    assert_eq!(detect_tool_call("what is a+b"), None);
    assert_eq!(detect_tool_call(""), None);
}

#[test]
fn the_opening_is_sought_in_a_fixed_order() {
    assert_eq!(detect_tool_call("what is calculate 1+1"), calculator("1+1"));
    assert_eq!(detect_tool_call("solve what is 1+1"), calculator("1+1"));
    assert_eq!(detect_tool_call("solve what's 1+1"), calculator("1+1"));
}

#[test]
fn weather_requests_name_a_place() {
    assert_eq!(detect_tool_call("weather in Paris please"), weather("Paris"));
    assert_eq!(detect_tool_call("how is the weather for Oslo?"), weather("Oslo"));
    assert_eq!(detect_tool_call("WEATHER IN PARIS"), weather("PARIS"));
    assert_eq!(detect_tool_call("nice weather"), weather("London"));
    assert_eq!(detect_tool_call("weather in   "), weather("London"));
    assert_eq!(detect_tool_call("weather for Oslo, weather in Rome"), weather("Rome"));
}

#[test]
fn places_are_cleaned() {
    assert_eq!(detect_tool_call("weather in ../a?b#c"), weather("abc"));
    assert_eq!(detect_tool_call("weather in New_York-City!"), weather("New_York-City"));
    assert_eq!(detect_tool_call("weather in São-Paulo!"), weather("São-Paulo"));
    assert_eq!(detect_tool_call("weather in ???"), weather(""));
    assert_eq!(detect_tool_call("weather in 東京٣"), weather("東京٣"));
}

#[test]
fn math_comes_before_the_weather() {
    assert_eq!(detect_tool_call("what is weather in 1+1"), calculator("weather in 1+1"));
}

#[test]
fn numbers_and_letters_are_those_of_unicode() {
    assert_eq!(detect_tool_call("٣+٤"), calculator("٣+٤"));
    assert_eq!(detect_tool_call("доброе 1+1"), None);
    assert_eq!(detect_tool_call("добр 1+1"), calculator("добр 1+1"));
}

#[test]
fn other_prompts_ask_for_no_tool() {
    assert_eq!(try_detect_tool_call("hello there"), Ok(None));
}

#[test]
fn the_cut_counts_the_bytes_of_the_small_letters() {
    // One byte more in small letters, so one character of the place is lost.
    assert_eq!(try_detect_tool_call("İ weather in Paris"), Ok(weather("aris")));
    // Two bytes fewer in small letters, so the cut falls before the place.
    assert_eq!(try_detect_tool_call("\u{212a} weather in Oslo"), Ok(weather("n")));
}

#[test]
fn a_prompt_may_be_uncuttable() {
    assert_eq!(try_detect_tool_call("İ weather in é"), Err(UncuttablePrompt));
    assert_eq!(try_detect_tool_call("İ weather in "), Err(UncuttablePrompt));
    assert!(!is_cuttable("İ weather in é", "i\u{307} weather in é"));
    assert!(is_cuttable("weather in é", "weather in é"));
}

#[test]
fn ascii_prompts_are_always_cuttable() {
    for prompt in ["calculate ", "1+1 calculate ", "weather for ", "what is 1+1", ""] {
        assert!(try_detect_tool_call(prompt).is_ok());
    }
    assert_eq!(try_detect_tool_call("1+1 Calculate "), Ok(None));
}

#[test]
fn the_small_letters_can_be_given() {
    assert_eq!(detect_in_lowered("What Is 3-1", "what is 3-1"), calculator("3-1"));
    assert_eq!(detect_in_lowered("What Is 3-1", "nothing"), None);
}

#[test]
fn expressions_stand_in_their_prompt() {
    for prompt in ["Calculate  (1 + 2) * 3 . ??", "what is 2+2?", " 7-7 ", "SOLVE 1/3..."] {
        match detect_tool_call(prompt) {
            Some(ToolCall::Calculator { expression }) => {
                assert_eq!(expression.trim(), expression);
                assert!(prompt.contains(&expression));
            }
            _ => panic!("{prompt} is mathematics"),
        }
    }
}

#[test]
fn the_tool_does_not_depend_on_case() {
    assert_eq!(detect_tool_call("wHaT iS 1+1"), detect_tool_call("what is 1+1"));
    assert_eq!(detect_tool_call("Weather In Rome"), detect_tool_call("weather in Rome"));
    assert_eq!(detect_tool_call("HELLO"), None);
}
