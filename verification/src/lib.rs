//! Desktop notifications for battery level and disk usage, with the
//! decisions (thresholds, messages, configuration merging) verified.

pub mod binary32;
pub mod battery;
pub mod common;
pub mod config;
pub mod diskspace;
pub mod rounding;
pub mod text;
