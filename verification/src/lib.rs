//! The logic of a fan daemon for Macs with the T2 chip: it averages the CPU
//! (and GPU) temperature over a sliding window, maps the average onto each
//! fan's speed range according to the fan's configuration, and watches
//! whether the fans reach the speed they were given.
//!
//! The daemon around this library reads the sensors and the fans' sysfs
//! files, evaluates the floating-point speed curves and sleeps between
//! readings; every decision in between is taken here.
pub mod config;
pub mod discovery;
pub mod error;
pub mod fan_controller;
pub mod ring_buffer;
pub mod temperature;
pub mod text;
