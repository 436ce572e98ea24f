//! Reading the feed's topics out of JSON documents.
pub mod decode;
pub mod driver_list;
pub mod extrapolated_clock;
pub mod lap_count;
pub mod race_control_messages;
pub mod session_data;
pub mod session_info;
pub mod stints;
pub mod teams;
pub mod timing_data;
pub mod track_status;
pub mod weather_data;
