//! Data types of the ESP-IDF continuous-ADC monitor interface.
use vstd::prelude::*;

verus! {

/// Opaque monitor object of the ESP-IDF ADC driver.
#[derive(Clone, Copy, Debug)]
pub struct adc_monitor_t;

/// Event data passed to monitor callbacks (carries nothing).
#[derive(Clone, Copy, Debug)]
pub struct adc_monitor_evt_data_t {}

} // verus!
