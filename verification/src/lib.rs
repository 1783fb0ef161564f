//! Control core of a battery-powered remote metering node.
//!
//! The node counts the pulses of six S0 channels, reads a serial energy meter
//! and the temperature of its own chip, and sends these readings over a
//! low-power radio link at a fixed interval. The counts survive a power loss
//! in a record in flash, and a downlink can set them.
//!
//! This crate is the part of the node that decides and computes. It touches
//! no hardware: the firmware around it reads pins, ports and the radio, hands
//! what it read to the functions here, and carries out what they return.
//!
//! - [`pulse`]: the counter bank with its debounce, and the persistent record
//! - [`store`]: the order in which the record is merged and written back
//! - [`iec62056`]: framing and reading of the meter's telegram
//! - [`text`]: searching bytes and reading decimal numerals
//! - [`temperature`]: median filter and calibration of the temperature sensor
//! - [`order`]: the laws of order that the median filter relies on
//! - [`frame`]: the telemetry frame and its encoding
//! - [`downlink`]: counter overrides received from the network
//! - [`cycle`]: the phases of the uplink cycle and the reaction to its outcome
//! - [`join`]: joining the network with exponential backoff
//! - [`credentials`]: the node's identifiers and key
//! - [`blinky`]: the status indicator

pub mod blinky;
pub mod credentials;
pub mod cycle;
pub mod downlink;
pub mod frame;
pub mod iec62056;
pub mod join;
pub mod order;
pub mod pulse;
pub mod store;
pub mod temperature;
pub mod text;
