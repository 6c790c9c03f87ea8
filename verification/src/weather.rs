//! The weather: where to ask for it, and what the report says.

use vstd::prelude::*;
use vstd::string::*;

use crate::text::{find_text, lemma_find_text_at, occurs_at};
use crate::tool::{failed, keeps_in_place, succeeded, CharClasses, ToolResult, ToolResultView};

verus! {

/// A word of description.
#[derive(Debug, Clone, PartialEq, Eq)]
pub struct WeatherDesc {
    pub value: String,
}

/// What a report says of one place at one time.
#[derive(Debug, Clone, PartialEq, Eq)]
pub struct CurrentCondition {
    pub temp_c: String,
    pub observation_time: String,
    pub weather_desc: Vec<WeatherDesc>,
}

/// A weather report.
#[derive(Debug, Clone, PartialEq, Eq)]
pub struct WeatherResponse {
    pub current_condition: Vec<CurrentCondition>,
}

/// What came back from the weather service.
#[derive(Debug, Clone, PartialEq, Eq)]
pub enum WeatherReply {
    /// The service was not reached, or what it sent could not be read or understood.
    Failed { error: String },
    /// The service was reached, and did not report success.
    BadStatus,
    /// The service sent a report.
    Report(WeatherResponse),
}

/// The status of a reply that reports success.
pub open spec fn is_success(status: u16) -> bool {
    200 <= status < 300
}

/// What to do once the weather service has replied with a status.
#[derive(Debug, Clone, PartialEq, Eq)]
pub enum WeatherStep {
    /// Read the report that follows.
    ReadReport,
    /// Read no further: this is what came back.
    GiveUp(WeatherReply),
}

/// Calls `StatusCode::is_success` of `reqwest`, on the status that `StatusCode::from_u16` makes of
/// the number.
///
/// It holds of the numbers from 200 to 299. A number that `from_u16` does not take for a status,
/// one below 100 or above 999, is no success.
#[verifier::external_body]
fn status_is_success(status: u16) -> (b: bool)
    ensures
        b == is_success(status),
{
    match reqwest::StatusCode::from_u16(status) {
        Ok(code) => code.is_success(),
        Err(_) => false,
    }
}

/// Says what to do once the weather service has replied with a status.
pub fn judge_status(status: u16) -> (step: WeatherStep)
    ensures
        is_success(status) ==> step is ReadReport,
        !is_success(status) ==> step == WeatherStep::GiveUp(WeatherReply::BadStatus),
{
    if status_is_success(status) {
        WeatherStep::ReadReport
    } else {
        WeatherStep::GiveUp(WeatherReply::BadStatus)
    }
}

/// Where the weather of a place is found.
pub open spec fn weather_url_for(location: Seq<char>) -> Seq<char> {
    "https://wttr.in/"@ + location + "?format=j1"@
}

/// The first description, or `Unknown`.
pub open spec fn description(condition: CurrentCondition) -> Seq<char> {
    if condition.weather_desc@.len() > 0 {
        condition.weather_desc@[0].value@
    } else {
        "Unknown"@
    }
}

/// A report in one sentence.
pub open spec fn weather_sentence(location: Seq<char>, condition: CurrentCondition) -> Seq<char> {
    "Current weather in "@ + location + ": "@ + description(condition) + " with temperature "@
        + condition.temp_c@ + "°C (observed at "@ + condition.observation_time@ + ")"@
}

/// What a report says of a place: its first condition counts.
pub open spec fn report_result(location: Seq<char>, report: WeatherResponse) -> ToolResultView {
    if report.current_condition@.len() > 0 {
        succeeded(weather_sentence(location, report.current_condition@[0]))
    } else {
        failed("No weather data available"@)
    }
}

/// What the reply of the weather service comes to.
pub open spec fn weather_result(location: Seq<char>, reply: WeatherReply) -> Result<
    ToolResultView,
    Seq<char>,
> {
    match reply {
        WeatherReply::Failed { error } => Err(error@),
        WeatherReply::BadStatus => Ok(failed("Failed to fetch weather data"@)),
        WeatherReply::Report(report) => Ok(report_result(location, report)),
    }
}

/// A tool's result, or an error, by its texts.
pub open spec fn result_view(result: Result<ToolResult, String>) -> Result<
    ToolResultView,
    Seq<char>,
> {
    match result {
        Ok(r) => Ok(r@),
        Err(e) => Err(e@),
    }
}

/// Says where to ask for the weather of a place.
pub fn weather_url(location: &str) -> (url: String)
    ensures
        url@ == weather_url_for(location@),
{
    let mut url: String = "https://wttr.in/".to_string();
    url.append(location);
    url.append("?format=j1");
    url
}

/// Says what a report tells of a place.
pub fn read_report(location: &str, report: &WeatherResponse) -> (result: ToolResult)
    ensures
        result@ == report_result(location@, *report),
{
    if report.current_condition.len() > 0 {
        let current = &report.current_condition[0];
        let mut content: String = "Current weather in ".to_string();
        content.append(location);
        content.append(": ");
        if current.weather_desc.len() > 0 {
            content.append(current.weather_desc[0].value.as_str());
        } else {
            content.append("Unknown");
        }
        content.append(" with temperature ");
        content.append(current.temp_c.as_str());
        content.append("°C (observed at ");
        content.append(current.observation_time.as_str());
        content.append(")");
        ToolResult { success: true, content }
    } else {
        ToolResult { success: false, content: "No weather data available".to_string() }
    }
}

/// Says what the reply of the weather service comes to.
pub fn finish_weather(location: &str, reply: &WeatherReply) -> (result: Result<ToolResult, String>)
    ensures
        result_view(result) == weather_result(location@, *reply),
{
    match reply {
        WeatherReply::Failed { error } => Err(error.clone()),
        WeatherReply::BadStatus => Ok(
            ToolResult { success: false, content: "Failed to fetch weather data".to_string() },
        ),
        WeatherReply::Report(report) => Ok(read_report(location, report)),
    }
}

/// The weather tool succeeds exactly if the service sent a report with a condition in it.
pub proof fn law_weather_succeeds_with_a_condition(location: Seq<char>, reply: WeatherReply)
    ensures
        (weather_result(location, reply) matches Ok(result) && result.success) <==> (
        reply matches WeatherReply::Report(report) && report.current_condition@.len() > 0),
{
}

/// A clean place cannot end the path of the URL: the first question mark is the one behind it.
pub proof fn law_clean_location_keeps_the_query(location: Seq<char>, classes: CharClasses)
    requires
        !keeps_in_place(classes)('?'),
        forall|i: int| 0 <= i < location.len() ==> keeps_in_place(classes)(#[trigger] location[i]),
    ensures
        find_text(weather_url_for(location), "?"@) == Some(
            ("https://wttr.in/"@.len() + location.len()) as int,
        ),
{
    let url = weather_url_for(location);
    let head = "https://wttr.in/"@;
    let n: int = (head.len() + location.len()) as int;
    reveal_strlit("https://wttr.in/");
    reveal_strlit("?format=j1");
    reveal_strlit("?");
    assert(url.subrange(n, n + 1) =~= "?"@);
    assert forall|before: int| 0 <= before < n implies !occurs_at(url, "?"@, before) by {
        if before < head.len() {
            assert(url[before] == head[before]);
        } else {
            assert(url[before] == location[before - head.len()]);
        }
        if occurs_at(url, "?"@, before) {
            assert(url.subrange(before, before + 1)[0] == "?"@[0]);
        }
    }
    lemma_find_text_at(url, "?"@, n);
}

} // verus!
