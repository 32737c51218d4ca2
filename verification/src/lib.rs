//! Platform integration logic of the BypaxDPI desktop application: the
//! decisions that configure and restore the system proxy, the commands and
//! registry values the platforms are driven with, and the text those
//! decisions are made from.

pub mod text;
pub mod platform;
