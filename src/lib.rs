//! Concurrency core of a microcontroller hardware-abstraction layer: a tick
//! clock with a fixed table of software alarms, the interrupt-to-future
//! bridge used by peripheral drivers, and the small driver models built on it.

pub mod adc;
pub mod bridge;
pub mod build_cfg;
pub mod dma;
pub mod time_driver;
