use brok::calculator::CalculatorOutcome;
use brok::response::{
    after_calculation, after_weather, begin_response, enhanced_prompt, inference_answer,
    plan_response, ResponseStep, ToolKind,
};
use brok::tool::{ToolCall, ToolResult, UncuttablePrompt};
use brok::weather::WeatherReply;

#[test]
fn plain_prompts_go_to_the_model() {
    assert_eq!(
        plan_response("hello"),
        Ok(ResponseStep::AskModel { prompt: "hello".to_string() })
    );
}

#[test]
fn weather_prompts_go_to_the_service() {
    assert_eq!(
        plan_response("weather in Paris"),
        Ok(ResponseStep::FetchWeather {
            location: "Paris".to_string(),
            url: "https://wttr.in/Paris?format=j1".to_string(),
        })
    );
}

#[test]
fn math_prompts_go_to_the_calculator() {
    assert_eq!(
        plan_response("what is 2+2?"),
        Ok(ResponseStep::Calculate {
            expression: "2+2".to_string(),
            input: "2+2\nquit\n".to_string(),
        })
    );
}

#[test]
fn unsafe_expressions_never_reach_the_calculator() {
    assert_eq!(
        plan_response("calculate 4//2"),
        Ok(ResponseStep::AskModel {
            prompt: "The user asked: \"calculate 4//2\" but the calculation failed: Tool call failed: Expression contains unsafe patterns or is too long.. Please provide an appropriate error response.".to_string(),
        })
    );
    let call = ToolCall::Calculator { expression: "rm -rf 1".to_string() };
    assert_eq!(
        begin_response("p", Some(call)),
        ResponseStep::AskModel {
            prompt: "The user asked: \"p\" but the calculation failed: Tool call failed: Invalid characters in expression. Only numbers, +, -, *, /, ^, (, ), and spaces are allowed.. Please provide an appropriate error response.".to_string(),
        }
    );
}

#[test]
fn uncuttable_prompts_are_not_planned() {
    assert_eq!(plan_response("İ weather in é"), Err(UncuttablePrompt));
}

#[test]
fn enhanced_prompts_tell_the_result() {
    let good: Result<ToolResult, String> =
        Ok(ToolResult { success: true, content: "C".to_string() });
    let bad: Result<ToolResult, String> =
        Ok(ToolResult { success: false, content: "C".to_string() });
    let error: Result<ToolResult, String> = Err("E".to_string());
    assert_eq!(
        enhanced_prompt(ToolKind::Weather, "P", &good),
        "The user asked: \"P\" and I retrieved this information: Tool call result: C. Please provide a natural response."
    );
    assert_eq!(
        enhanced_prompt(ToolKind::Weather, "P", &bad),
        "The user asked: \"P\" but the tool call failed: Tool call failed: C. Please provide an appropriate error response."
    );
    assert_eq!(
        enhanced_prompt(ToolKind::Weather, "P", &error),
        "The user asked: \"P\" but I encountered an error: Tool call error: E. Please provide an appropriate error response."
    );
    assert_eq!(
        enhanced_prompt(ToolKind::Calculator, "P", &good),
        "The user asked: \"P\" and I calculated: Tool call result: C. Please provide a natural response."
    );
    assert_eq!(
        enhanced_prompt(ToolKind::Calculator, "P", &bad),
        "The user asked: \"P\" but the calculation failed: Tool call failed: C. Please provide an appropriate error response."
    );
    assert_eq!(
        enhanced_prompt(ToolKind::Calculator, "P", &error),
        "The user asked: \"P\" but I encountered an error: Tool call error: E. Please provide an appropriate error response."
    );
}

#[test]
fn tools_lead_back_to_the_model() {
    let outcome =
        CalculatorOutcome::Finished { success: true, stdout: b"4\n".to_vec(), stderr: Vec::new() };
    assert_eq!(
        after_calculation("what is 2+2", "2+2", &outcome),
        "The user asked: \"what is 2+2\" and I calculated: Tool call result: 2+2 = 4. Please provide a natural response."
    );
    assert_eq!(
        after_weather("weather?", "London", &WeatherReply::BadStatus),
        "The user asked: \"weather?\" but the tool call failed: Tool call failed: Failed to fetch weather data. Please provide an appropriate error response."
    );
    assert_eq!(
        after_weather("weather?", "London", &WeatherReply::Failed { error: "down".to_string() }),
        "The user asked: \"weather?\" but I encountered an error: Tool call error: down. Please provide an appropriate error response."
    );
}

#[test]
fn a_failed_request_is_answered_with_an_apology() {
    assert_eq!(inference_answer(Ok("yes".to_string())), "yes");
    assert_eq!(
        inference_answer(Err("no".to_string())),
        "Sorry, I encountered an error processing your request."
    );
}
