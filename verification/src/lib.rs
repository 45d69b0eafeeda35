//! Verified core of the soldering-station firmware: the RGB565 colour type,
//! the ILI9341 display command encoder with a model of the panel controller
//! that reads its words, the FUSB302 USB-PD negotiation steps,
//! the FT6206 capacitive touch decoder, the resistive touch arithmetic, the
//! handle messages and the soldering controller's integer bookkeeping.
#![allow(non_camel_case_types)]

pub mod adc_monitor_link;
pub mod bus;
pub mod color;
pub mod comm;
pub mod fusb302;
pub mod ili9341;
pub mod mpu6050;
pub mod panel;
pub mod soldering;
pub mod touchbreakout;
pub mod touchbreakout_cap;

pub use color::MyColor;
