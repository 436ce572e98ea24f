//! The telemetry that the library hands out: drivers, teams, timing, stints,
//! race control, circuit, session and clock.
pub mod circuit;
pub mod driver;
pub mod lap_time;
pub mod race_control;
pub mod session_info;
pub mod status;
pub mod stint;
pub mod team;
pub mod timing;
pub mod telemetry;
pub mod telemetry_state;
