//! The `WeatherData` topic.
use vstd::prelude::*;

use crate::json::{Json, JsonView};
use crate::parsing::decode::{self, read_req_text, FeedError};

verus! {

/// The weather as the feed sends it: every reading as text.
#[allow(non_snake_case)]
#[derive(Clone, Debug, PartialEq, Eq)]
pub struct RawWeatherData {
    pub AirTemp: String,
    pub Humidity: String,
    pub Pressure: String,
    pub Rainfall: String,
    pub TrackTemp: String,
    pub WindDirection: String,
    pub WindSpeed: String,
}

/// Whether `v` holds every reading as text.
pub open spec fn raw_weather_ok(v: JsonView) -> bool {
    &&& decode::req_text(v, "AirTemp"@) is Some
    &&& decode::req_text(v, "Humidity"@) is Some
    &&& decode::req_text(v, "Pressure"@) is Some
    &&& decode::req_text(v, "Rainfall"@) is Some
    &&& decode::req_text(v, "TrackTemp"@) is Some
    &&& decode::req_text(v, "WindDirection"@) is Some
    &&& decode::req_text(v, "WindSpeed"@) is Some
}

/// Whether `r` holds the readings of `v`.
pub open spec fn raw_weather_of(v: JsonView, r: RawWeatherData) -> bool {
    &&& decode::req_text(v, "AirTemp"@) == Some(r.AirTemp@)
    &&& decode::req_text(v, "Humidity"@) == Some(r.Humidity@)
    &&& decode::req_text(v, "Pressure"@) == Some(r.Pressure@)
    &&& decode::req_text(v, "Rainfall"@) == Some(r.Rainfall@)
    &&& decode::req_text(v, "TrackTemp"@) == Some(r.TrackTemp@)
    &&& decode::req_text(v, "WindDirection"@) == Some(r.WindDirection@)
    &&& decode::req_text(v, "WindSpeed"@) == Some(r.WindSpeed@)
}

/// Reads the `WeatherData` topic.
pub fn parse_raw_weather_data(val: &Json) -> (r: Result<RawWeatherData, FeedError>)
    ensures
        !raw_weather_ok(val@) ==> r == Err::<RawWeatherData, FeedError>(FeedError::InvalidRecord),
        raw_weather_ok(val@) ==> r is Ok && raw_weather_of(val@, r->Ok_0),
{
    let air = read_req_text(val, "AirTemp");
    let humidity = read_req_text(val, "Humidity");
    let pressure = read_req_text(val, "Pressure");
    let rainfall = read_req_text(val, "Rainfall");
    let track = read_req_text(val, "TrackTemp");
    let direction = read_req_text(val, "WindDirection");
    let speed = read_req_text(val, "WindSpeed");
    match (air, humidity, pressure, rainfall, track, direction, speed) {
        (Some(a), Some(h), Some(p), Some(r), Some(t), Some(d), Some(s)) => Ok(
            RawWeatherData {
                AirTemp: a,
                Humidity: h,
                Pressure: p,
                Rainfall: r,
                TrackTemp: t,
                WindDirection: d,
                WindSpeed: s,
            },
        ),
        _ => Err(FeedError::InvalidRecord),
    }
}

} // verus!
