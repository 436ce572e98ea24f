//! From the feed's records to the library's model.
pub mod timing;
pub mod circuit;
pub mod race_control_message;
pub mod keyed;
pub mod stint;
pub mod driver;
pub mod team;
pub mod session;
pub mod clock;
pub mod lap_count;
pub mod track_status;
