//! Serial packet protocol of a fingerprint-sensor module and the wake-driven
//! controller that drives its indicator LED.

pub mod bounded;
pub mod checksum;
pub mod frame;
pub mod catalog;
pub mod reply;
pub mod control;
