//! How a prompt is answered, told by what goes in and comes out.

use vstd::prelude::*;

use crate::calculator::{finish_calculation, refusal, CalculatorOutcome};
use crate::laws::calculator::law_refusal;
use crate::response::{
    after_calculation, after_weather, begin_response, enhanced_prompt, inference_answer,
    plan_response, ResponseStep, ToolKind,
};
use crate::tool::{try_detect_tool_call, ToolCall, ToolResult, UncuttablePrompt};
use crate::weather::{finish_weather, WeatherReply};

verus! {

/// The model is told the prompt and the tool's words, each whole, and whether the tool succeeded.
pub proof fn law_enhanced_prompt(
    kind: ToolKind,
    prompt: &str,
    result: Result<ToolResult, String>,
    enhanced: String,
)
    requires
        call_ensures(enhanced_prompt, (kind, prompt, &result), enhanced),
    ensures
        kind is Weather && (result matches Ok(r) && r.success) ==> enhanced@
            == "The user asked: \""@ + prompt@
            + "\" and I retrieved this information: Tool call result: "@ + result->Ok_0.content@
            + ". Please provide a natural response."@,
        kind is Calculator && (result matches Ok(r) && r.success) ==> enhanced@
            == "The user asked: \""@ + prompt@ + "\" and I calculated: Tool call result: "@
            + result->Ok_0.content@ + ". Please provide a natural response."@,
        kind is Weather && (result matches Ok(r) && !r.success) ==> enhanced@
            == "The user asked: \""@ + prompt@ + "\" but the tool call failed: Tool call failed: "@
            + result->Ok_0.content@ + ". Please provide an appropriate error response."@,
        kind is Calculator && (result matches Ok(r) && !r.success) ==> enhanced@
            == "The user asked: \""@ + prompt@
            + "\" but the calculation failed: Tool call failed: "@ + result->Ok_0.content@
            + ". Please provide an appropriate error response."@,
        result is Err ==> enhanced@ == "The user asked: \""@ + prompt@
            + "\" but I encountered an error: Tool call error: "@ + result->Err_0@
            + ". Please provide an appropriate error response."@,
{
}

/// A prompt without a tool goes to the model as it is.
pub proof fn law_plain_prompt_stays(prompt: &str, step: ResponseStep)
    requires
        call_ensures(begin_response, (prompt, None::<ToolCall>), step),
    ensures
        step matches ResponseStep::AskModel { prompt: asked } && asked@ == prompt@,
{
}

/// The weather is asked for at the place's URL.
pub proof fn law_weather_is_fetched(prompt: &str, location: String, step: ResponseStep)
    requires
        call_ensures(begin_response, (prompt, Some(ToolCall::Weather { location })), step),
    ensures
        step matches ResponseStep::FetchWeather { location: place, url } && place@ == location@
            && url@ == "https://wttr.in/"@ + location@ + "?format=j1"@,
{
}

/// An expression is calculated as it is, or the model is told why it is not.
pub proof fn law_expression_is_calculated(prompt: &str, expression: String, step: ResponseStep)
    requires
        call_ensures(begin_response, (prompt, Some(ToolCall::Calculator { expression })), step),
    ensures
        match refusal(expression@) {
            None => step matches ResponseStep::Calculate { expression: kept, input } && kept@
                == expression@ && input@ == expression@ + "\nquit\n"@,
            Some(answer) => step matches ResponseStep::AskModel { prompt: asked } && asked@
                == "The user asked: \""@ + prompt@
                + "\" but the calculation failed: Tool call failed: "@ + answer
                + ". Please provide an appropriate error response."@,
        },
{
    law_refusal(expression@);
}

/// `plan_response` begins with the tool that `try_detect_tool_call` finds, and fails where it does.
pub proof fn law_plan_response(
    prompt: &str,
    found: Result<Option<ToolCall>, UncuttablePrompt>,
    planned: Result<ResponseStep, UncuttablePrompt>,
    step: ResponseStep,
)
    requires
        call_ensures(try_detect_tool_call, (prompt,), found),
        call_ensures(plan_response, (prompt,), planned),
        found matches Ok(call) ==> call_ensures(begin_response, (prompt, call), step),
    ensures
        planned is Ok <==> found is Ok,
        planned matches Ok(first) ==> first@ == step@,
{
}

/// `after_weather` asks the model with what `finish_weather` makes of the reply.
pub proof fn law_after_weather(
    prompt: &str,
    location: &str,
    reply: WeatherReply,
    result: Result<ToolResult, String>,
    asked: String,
    enhanced: String,
)
    requires
        call_ensures(after_weather, (prompt, location, &reply), asked),
        call_ensures(finish_weather, (location, &reply), result),
        call_ensures(enhanced_prompt, (ToolKind::Weather, prompt, &result), enhanced),
    ensures
        asked@ == enhanced@,
{
}

/// `after_calculation` asks the model with what `finish_calculation` makes of the outcome.
pub proof fn law_after_calculation(
    prompt: &str,
    expression: &str,
    outcome: CalculatorOutcome,
    result: ToolResult,
    asked: String,
    enhanced: String,
)
    requires
        call_ensures(after_calculation, (prompt, expression, &outcome), asked),
        call_ensures(finish_calculation, (expression, &outcome), result),
        call_ensures(
            enhanced_prompt,
            (ToolKind::Calculator, prompt, &Ok::<ToolResult, String>(result)),
            enhanced,
        ),
    ensures
        asked@ == enhanced@,
{
}

/// A reply is sent back as it is, and an apology for every error.
pub proof fn law_inference_answer(reply: Result<String, String>, answer: String)
    requires
        call_ensures(inference_answer, (reply,), answer),
    ensures
        match reply {
            Ok(text) => answer@ == text@,
            Err(_) => answer@ == "Sorry, I encountered an error processing your request."@,
        },
{
}

} // verus!
