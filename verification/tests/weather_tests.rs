use brok::tool::ToolResult;
use brok::weather::{
    finish_weather, judge_status, read_report, weather_url, CurrentCondition, WeatherDesc,
    WeatherReply, WeatherResponse, WeatherStep,
};

fn condition(descriptions: &[&str], temp_c: &str) -> CurrentCondition {
    CurrentCondition {
        temp_c: temp_c.to_string(),
        observation_time: "01:30 PM".to_string(),
        weather_desc: descriptions.iter().map(|d| WeatherDesc { value: d.to_string() }).collect(),
    }
}

#[test]
fn the_url_holds_the_place() {
    assert_eq!(weather_url("Paris"), "https://wttr.in/Paris?format=j1");
    assert_eq!(weather_url(""), "https://wttr.in/?format=j1");
}

#[test]
fn a_clean_place_stays_before_the_query() {
    let url = weather_url("New_York-1");
    assert_eq!(url.find('?'), Some("https://wttr.in/New_York-1".len()));
}

#[test]
fn the_first_condition_is_told() {
    let report = WeatherResponse {
        current_condition: vec![condition(&["Sunny", "Hot"], "21"), condition(&["Rain"], "3")],
    };
    assert_eq!(
        read_report("Paris", &report),
        ToolResult {
            success: true,
            content: "Current weather in Paris: Sunny with temperature 21°C (observed at 01:30 PM)"
                .to_string(),
        }
    );
}

#[test]
fn a_condition_may_lack_a_description() {
    let report = WeatherResponse { current_condition: vec![condition(&[], "-4")] };
    assert_eq!(
        finish_weather("Oslo", &WeatherReply::Report(report)),
        Ok(ToolResult {
            success: true,
            content: "Current weather in Oslo: Unknown with temperature -4°C (observed at 01:30 PM)"
                .to_string(),
        })
    );
}

#[test]
fn failures_are_told() {
    let empty = WeatherResponse { current_condition: Vec::new() };
    assert_eq!(
        finish_weather("Oslo", &WeatherReply::Report(empty)),
        Ok(ToolResult { success: false, content: "No weather data available".to_string() })
    );
    assert_eq!(
        finish_weather("Oslo", &WeatherReply::BadStatus),
        Ok(ToolResult { success: false, content: "Failed to fetch weather data".to_string() })
    );
    assert_eq!(
        finish_weather("Oslo", &WeatherReply::Failed { error: "timeout".to_string() }),
        Err("timeout".to_string())
    );
}

#[test]
fn a_report_is_read_on_success_only() {
    for status in 0..=u16::MAX {
        let expected = if (200..300).contains(&status) {
            WeatherStep::ReadReport
        } else {
            WeatherStep::GiveUp(WeatherReply::BadStatus)
        };
        assert_eq!(judge_status(status), expected);
    }
}
