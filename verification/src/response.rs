//! How a prompt is answered: by the model alone, or by a tool first and the model then.

use vstd::prelude::*;
use vstd::string::*;
use vstd::utf8::is_ascii_chars;

use crate::calculator::{
    begin_calculation, calculation_result, calculator_input, finish_calculation,
    is_safe_expression, refusal, CalculatorOutcome, CalculatorStep,
};
use crate::text::{has_text, occurs_at};
use crate::tool::{
    ascii_classes, call_view, can_cut, failed, tool_call_for, try_detect_tool_call,
    unicode_classes, ToolCall, ToolCallView, ToolResult, ToolResultView, UncuttablePrompt,
};
use crate::unicode::{ascii_lowercase, unicode_lowercase};
use crate::weather::{
    finish_weather, result_view, weather_result, weather_url, weather_url_for, WeatherReply,
};

verus! {

/// A tool, without what is handed to it.
#[derive(Debug, Clone, Copy, PartialEq, Eq, Structural)]
pub enum ToolKind {
    Weather,
    Calculator,
}

/// What stands between the prompt and the tool's result, and what ends the sentence.
pub open spec fn tool_report(
    kind: ToolKind,
    result: Result<ToolResultView, Seq<char>>,
) -> (Seq<char>, Seq<char>, Seq<char>) {
    match result {
        Ok(r) => if r.success {
            match kind {
                ToolKind::Weather => (
                    "\" and I retrieved this information: Tool call result: "@,
                    r.content,
                    ". Please provide a natural response."@,
                ),
                ToolKind::Calculator => (
                    "\" and I calculated: Tool call result: "@,
                    r.content,
                    ". Please provide a natural response."@,
                ),
            }
        } else {
            match kind {
                ToolKind::Weather => (
                    "\" but the tool call failed: Tool call failed: "@,
                    r.content,
                    ". Please provide an appropriate error response."@,
                ),
                ToolKind::Calculator => (
                    "\" but the calculation failed: Tool call failed: "@,
                    r.content,
                    ". Please provide an appropriate error response."@,
                ),
            }
        },
        Err(error) => (
            "\" but I encountered an error: Tool call error: "@,
            error,
            ". Please provide an appropriate error response."@,
        ),
    }
}

/// What the model is asked once a tool has come back.
pub open spec fn enhanced_prompt_for(
    kind: ToolKind,
    prompt: Seq<char>,
    result: Result<ToolResultView, Seq<char>>,
) -> Seq<char> {
    let (link, content, close) = tool_report(kind, result);
    "The user asked: \""@ + prompt + link + content + close
}

/// Makes the prompt that the model is asked once a tool has come back.
pub fn enhanced_prompt(
    kind: ToolKind,
    prompt: &str,
    result: &Result<ToolResult, String>,
) -> (enhanced: String)
    ensures
        enhanced@ == enhanced_prompt_for(kind, prompt@, result_view(*result)),
{
    let mut enhanced: String = "The user asked: \"".to_string();
    enhanced.append(prompt);
    match result {
        Ok(r) => {
            if r.success {
                match kind {
                    ToolKind::Weather => {
                        enhanced.append(
                            "\" and I retrieved this information: Tool call result: ",
                        );
                    },
                    ToolKind::Calculator => {
                        enhanced.append("\" and I calculated: Tool call result: ");
                    },
                }
                enhanced.append(r.content.as_str());
                enhanced.append(". Please provide a natural response.");
            } else {
                match kind {
                    ToolKind::Weather => {
                        enhanced.append("\" but the tool call failed: Tool call failed: ");
                    },
                    ToolKind::Calculator => {
                        enhanced.append("\" but the calculation failed: Tool call failed: ");
                    },
                }
                enhanced.append(r.content.as_str());
                enhanced.append(". Please provide an appropriate error response.");
            }
        },
        Err(error) => {
            enhanced.append("\" but I encountered an error: Tool call error: ");
            enhanced.append(error.as_str());
            enhanced.append(". Please provide an appropriate error response.");
        },
    }
    enhanced
}

/// What to do first to answer a prompt.
#[derive(Debug, Clone, PartialEq, Eq)]
pub enum ResponseStep {
    /// Ask the model this.
    AskModel { prompt: String },
    /// Ask the weather service at this URL, and hand its reply to `after_weather`.
    FetchWeather { location: String, url: String },
    /// Let the calculator read this, and hand what became of it to `after_calculation`.
    Calculate { expression: String, input: String },
}

/// A step by its texts.
pub enum ResponseStepView {
    AskModel { prompt: Seq<char> },
    FetchWeather { location: Seq<char>, url: Seq<char> },
    Calculate { expression: Seq<char>, input: Seq<char> },
}

impl View for ResponseStep {
    type V = ResponseStepView;

    open spec fn view(&self) -> ResponseStepView {
        match self {
            ResponseStep::AskModel { prompt } => ResponseStepView::AskModel { prompt: prompt@ },
            ResponseStep::FetchWeather { location, url } => ResponseStepView::FetchWeather {
                location: location@,
                url: url@,
            },
            ResponseStep::Calculate { expression, input } => ResponseStepView::Calculate {
                expression: expression@,
                input: input@,
            },
        }
    }
}

/// What to do first to answer a prompt that asks for `call`.
pub open spec fn first_step(prompt: Seq<char>, call: Option<ToolCallView>) -> ResponseStepView {
    match call {
        None => ResponseStepView::AskModel { prompt },
        Some(ToolCallView::Weather { location }) => ResponseStepView::FetchWeather {
            location,
            url: weather_url_for(location),
        },
        Some(ToolCallView::Calculator { expression }) => match refusal(expression) {
            Some(answer) => ResponseStepView::AskModel {
                prompt: enhanced_prompt_for(ToolKind::Calculator, prompt, Ok(failed(answer))),
            },
            None => ResponseStepView::Calculate {
                expression,
                input: calculator_input(expression),
            },
        },
    }
}

/// Says what to do first to answer a prompt that asks for `call`.
pub fn begin_response(prompt: &str, call: Option<ToolCall>) -> (step: ResponseStep)
    ensures
        step@ == first_step(prompt@, call_view(call)),
{
    match call {
        None => ResponseStep::AskModel { prompt: prompt.to_string() },
        Some(ToolCall::Weather { location }) => {
            let url = weather_url(location.as_str());
            ResponseStep::FetchWeather { location, url }
        },
        Some(ToolCall::Calculator { expression }) => match begin_calculation(
            expression.as_str(),
        ) {
            CalculatorStep::Refuse(result) => {
                let refused: Result<ToolResult, String> = Ok(result);
                ResponseStep::AskModel {
                    prompt: enhanced_prompt(ToolKind::Calculator, prompt, &refused),
                }
            },
            CalculatorStep::Run(input) => ResponseStep::Calculate { expression, input },
        },
    }
}

/// Says what to do first to answer a prompt, unless the prompt cannot be cut.
pub fn plan_response(prompt: &str) -> (step: Result<ResponseStep, UncuttablePrompt>)
    ensures
        match step {
            Ok(s) => {
                &&& can_cut(prompt@, unicode_lowercase(prompt@), unicode_classes())
                &&& s@ == first_step(
                    prompt@,
                    tool_call_for(prompt@, unicode_lowercase(prompt@), unicode_classes()),
                )
            },
            Err(_) => !can_cut(prompt@, unicode_lowercase(prompt@), unicode_classes()),
        },
        is_ascii_chars(prompt@) ==> (step matches Ok(s) && s@ == first_step(
            prompt@,
            tool_call_for(prompt@, ascii_lowercase(prompt@), ascii_classes()),
        )),
{
    match try_detect_tool_call(prompt) {
        Ok(call) => Ok(begin_response(prompt, call)),
        Err(e) => Err(e),
    }
}

/// What to ask the model once the weather service has replied.
pub fn after_weather(prompt: &str, location: &str, reply: &WeatherReply) -> (enhanced: String)
    ensures
        enhanced@ == enhanced_prompt_for(
            ToolKind::Weather,
            prompt@,
            weather_result(location@, *reply),
        ),
{
    let result = finish_weather(location, reply);
    enhanced_prompt(ToolKind::Weather, prompt, &result)
}

/// What to ask the model once the calculator has ended.
pub fn after_calculation(prompt: &str, expression: &str, outcome: &CalculatorOutcome) -> (enhanced:
    String)
    ensures
        enhanced@ == enhanced_prompt_for(
            ToolKind::Calculator,
            prompt@,
            Ok(calculation_result(expression@, *outcome)),
        ),
{
    let result: Result<ToolResult, String> = Ok(finish_calculation(expression, outcome));
    enhanced_prompt(ToolKind::Calculator, prompt, &result)
}

/// What is sent back where the model could not be asked.
pub const APOLOGY: &'static str = "Sorry, I encountered an error processing your request.";

/// What is sent back to the chat: the model's reply, or an apology.
pub fn inference_answer(reply: Result<String, String>) -> (answer: String)
    ensures
        answer@ == match reply {
            Ok(text) => text@,
            Err(_) => APOLOGY@,
        },
{
    match reply {
        Ok(text) => text,
        Err(_) => APOLOGY.to_string(),
    }
}

// Laws.

/// Whatever a tool came back with, the model is shown the prompt and the tool's words.
pub proof fn law_model_sees_prompt_and_result(
    kind: ToolKind,
    prompt: Seq<char>,
    result: Result<ToolResultView, Seq<char>>,
)
    ensures
        occurs_at(
            enhanced_prompt_for(kind, prompt, result),
            prompt,
            "The user asked: \""@.len() as int,
        ),
        has_text(
            enhanced_prompt_for(kind, prompt, result),
            match result {
                Ok(r) => r.content,
                Err(e) => e,
            },
        ),
{
    let enhanced = enhanced_prompt_for(kind, prompt, result);
    let (link, content, close) = tool_report(kind, result);
    let open = "The user asked: \""@;
    let n = open.len() as int;
    let m = n + prompt.len() + link.len();
    assert(enhanced.subrange(n, n + prompt.len()) =~= prompt);
    assert(enhanced.subrange(m, m + content.len()) =~= content);
    assert(occurs_at(enhanced, content, m));
}

/// The calculator is started only for an expression that is safe.
pub proof fn law_calculator_starts_on_safe_expressions(
    prompt: Seq<char>,
    call: Option<ToolCallView>,
)
    ensures
        first_step(prompt, call) matches ResponseStepView::Calculate { expression, input }
            ==> is_safe_expression(expression) && input == calculator_input(
            expression,
        ),
{
}

} // verus!
