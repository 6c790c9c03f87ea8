//! What is asked of the weather service and told of its reply, by the fields of the report.

use vstd::prelude::*;

use crate::tool::ToolResult;
use crate::weather::{
    finish_weather, is_success, judge_status, read_report, report_result, weather_url,
    weather_url_for, WeatherReply, WeatherResponse, WeatherStep,
};

verus! {

/// The place stands in the URL as it is, between the service's name and the format.
pub proof fn law_url(location: &str, url: String)
    requires
        call_ensures(weather_url, (location,), url),
    ensures
        url@ == "https://wttr.in/"@ + location@ + "?format=j1"@,
        weather_url_for(location@) == url@,
{
}

/// A report with a condition succeeds, and tells the first description, the temperature and the
/// time of the first condition, each as it is.
pub proof fn law_report_is_told_whole(location: Seq<char>, report: WeatherResponse)
    requires
        report.current_condition@.len() > 0,
    ensures
        report_result(location, report).success,
        report.current_condition@[0].weather_desc@.len() > 0 ==> report_result(
            location,
            report,
        ).content == "Current weather in "@ + location + ": "@
            + report.current_condition@[0].weather_desc@[0].value@ + " with temperature "@
            + report.current_condition@[0].temp_c@ + "°C (observed at "@
            + report.current_condition@[0].observation_time@ + ")"@,
        report.current_condition@[0].weather_desc@.len() == 0 ==> report_result(
            location,
            report,
        ).content == "Current weather in "@ + location + ": "@ + "Unknown"@
            + " with temperature "@ + report.current_condition@[0].temp_c@ + "°C (observed at "@
            + report.current_condition@[0].observation_time@ + ")"@,
{
}

/// `read_report` tells the first condition whole, or that there is none.
pub proof fn law_read_report(location: &str, report: WeatherResponse, result: ToolResult)
    requires
        call_ensures(read_report, (location, &report), result),
    ensures
        result.success <==> report.current_condition@.len() > 0,
        report.current_condition@.len() > 0 && report.current_condition@[0].weather_desc@.len() > 0
            ==> result.content@ == "Current weather in "@ + location@ + ": "@
            + report.current_condition@[0].weather_desc@[0].value@ + " with temperature "@
            + report.current_condition@[0].temp_c@ + "°C (observed at "@
            + report.current_condition@[0].observation_time@ + ")"@,
        report.current_condition@.len() > 0 && report.current_condition@[0].weather_desc@.len() == 0
            ==> result.content@ == "Current weather in "@ + location@ + ": "@ + "Unknown"@
            + " with temperature "@ + report.current_condition@[0].temp_c@ + "°C (observed at "@
            + report.current_condition@[0].observation_time@ + ")"@,
        report.current_condition@.len() == 0 ==> result.content@ == "No weather data available"@,
{
    if report.current_condition@.len() > 0 {
        law_report_is_told_whole(location@, report);
    }
}

/// `finish_weather` hands on an error as it is, tells a bad status, and tells a report as
/// `read_report` does.
pub proof fn law_finish_weather(
    location: &str,
    reply: WeatherReply,
    result: Result<ToolResult, String>,
    read: ToolResult,
)
    requires
        call_ensures(finish_weather, (location, &reply), result),
        reply matches WeatherReply::Report(report) ==> call_ensures(
            read_report,
            (location, &report),
            read,
        ),
    ensures
        match reply {
            WeatherReply::Failed { error } => result matches Err(e) && e@ == error@,
            WeatherReply::BadStatus => result matches Ok(r) && !r.success && r.content@
                == "Failed to fetch weather data"@,
            WeatherReply::Report(_) => result matches Ok(r) && r.success == read.success
                && r.content@ == read.content@,
        },
{
}

/// A report is read if the status is one of those from 200 to 299, and only then.
pub proof fn law_judge_status(status: u16, step: WeatherStep)
    requires
        call_ensures(judge_status, (status,), step),
    ensures
        200 <= status <= 299 ==> step is ReadReport,
        status < 200 || status > 299 ==> step == WeatherStep::GiveUp(WeatherReply::BadStatus),
        is_success(status) <==> 200 <= status <= 299,
{
}

} // verus!
