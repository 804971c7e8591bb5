//! Reads the day's lowest and highest temperature for one sub-area of a regional weather
//! forecast, and turns configured actions into requests for a small display device.
//!
//! The forecast day is chosen from the local time and a rollover hour ([`clock`]); the two
//! temperature samples of that day are taken from the forecast document ([`forecast`]); each
//! action's command template is filled in and its thresholds checked ([`dispatch`]).
pub mod clock;
pub mod config;
pub mod dispatch;
pub mod forecast;
pub mod run;
pub mod text;
pub mod wifidigit;
