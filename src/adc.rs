//! The ADC driver's state: its configuration, the internal channels it can
//! switch on, and the bridge cell of its end-of-conversion interrupt.
//!
//! The register writes that carry each change to the peripheral are made by
//! the owner of the hardware.
use vstd::prelude::*;
use crate::bridge::{poll_step, start_step, OperationState, WakeTarget};

verus! {

/// Analog supply voltage, in millivolts, at which the chip was calibrated.
pub const VDDA_CALIB_MV: u32 = 3300;

/// Typical internal reference voltage, in millivolts.
pub const VREF_INT: u32 = 1230;

/// ADC input of the internal voltage reference.
pub const VREF_CHANNEL: u8 = 12;

/// ADC input of the temperature sensor.
pub const TEMPERATURE_CHANNEL: u8 = 11;

/// The internal voltage reference, once switched on.
pub struct Vref;

impl Vref {
    pub fn channel(&self) -> (r: u8)
        ensures
            r == VREF_CHANNEL,
    {
        VREF_CHANNEL
    }
}

/// The internal temperature sensor, once switched on.
pub struct Temperature;

impl Temperature {
    pub fn channel(&self) -> (r: u8)
        ensures
            r == TEMPERATURE_CHANNEL,
    {
        TEMPERATURE_CHANNEL
    }
}

/// Sampling time: the 3-bit SMP field of the sampling register.
#[derive(Clone, Copy, PartialEq, Eq, Debug, Structural)]
pub struct SampleTime {
    bits: u8,
}

impl SampleTime {
    #[verifier::type_invariant]
    spec fn fits_field(&self) -> bool {
        self.bits < 8
    }

    pub closed spec fn spec_bits(&self) -> u8 {
        self.bits
    }

    /// The sampling time of field value `bits`; bits above the field are dropped.
    pub fn from_bits(bits: u8) -> (r: Self)
        ensures
            r.spec_bits() == bits % 8,
    {
        SampleTime { bits: bits % 8 }
    }

    pub fn to_bits(&self) -> (r: u8)
        ensures
            r == self.spec_bits(),
            r < 8,
    {
        proof {
            use_type_invariant(self);
        }
        self.bits
    }
}

/// Conversion resolution: the RES field of the configuration register.
#[derive(Clone, Copy, PartialEq, Eq, Debug, Structural)]
pub enum Resolution {
    Bits12,
    Bits10,
    Bits8,
    Bits6,
}

impl Resolution {
    pub open spec fn spec_to_bits(&self) -> u8 {
        match self {
            Resolution::Bits12 => 0,
            Resolution::Bits10 => 1,
            Resolution::Bits8 => 2,
            Resolution::Bits6 => 3,
        }
    }

    /// Value of the RES field.
    pub fn to_bits(&self) -> (r: u8)
        ensures
            r == self.spec_to_bits(),
    {
        match self {
            Resolution::Bits12 => 0,
            Resolution::Bits10 => 1,
            Resolution::Bits8 => 2,
            Resolution::Bits6 => 3,
        }
    }
}

/// The ADC: how it converts, which internal inputs are on, and the cell
/// that its end-of-conversion interrupt shares with the awaiting task.
pub struct Adc {
    pub sample_time: SampleTime,
    pub resolution: Resolution,
    pub vref_enabled: bool,
    pub temperature_enabled: bool,
    pub state: OperationState,
}

impl Adc {
    /// The ADC as calibration and enabling leave it: shortest sampling
    /// time, full resolution, internal inputs off, no conversion running.
    pub fn new() -> (r: Self)
        ensures
            r.sample_time.spec_bits() == 0,
            r.resolution == Resolution::Bits12,
            !r.vref_enabled,
            !r.temperature_enabled,
            !r.state@.done,
            !r.state@.irq_enabled,
            r.state@.waker.is_none(),
    {
        Adc {
            sample_time: SampleTime::from_bits(0),
            resolution: Resolution::Bits12,
            vref_enabled: false,
            temperature_enabled: false,
            state: OperationState::new(),
        }
    }

    /// Switch on the internal voltage reference, which then reads on its channel.
    pub fn enable_vref(&mut self) -> (r: Vref)
        ensures
            final(self).vref_enabled,
            final(self).temperature_enabled == old(self).temperature_enabled,
            final(self).sample_time == old(self).sample_time,
            final(self).resolution == old(self).resolution,
            final(self).state == old(self).state,
    {
        self.vref_enabled = true;
        Vref
    }

    /// Switch on the temperature sensor, which then reads on its channel.
    pub fn enable_temperature(&mut self) -> (r: Temperature)
        ensures
            final(self).temperature_enabled,
            final(self).vref_enabled == old(self).vref_enabled,
            final(self).sample_time == old(self).sample_time,
            final(self).resolution == old(self).resolution,
            final(self).state == old(self).state,
    {
        self.temperature_enabled = true;
        Temperature
    }

    /// Sampling time of the conversions to come.
    pub fn set_sample_time(&mut self, sample_time: SampleTime)
        ensures
            final(self).sample_time == sample_time,
            final(self).resolution == old(self).resolution,
            final(self).vref_enabled == old(self).vref_enabled,
            final(self).temperature_enabled == old(self).temperature_enabled,
            final(self).state == old(self).state,
    {
        self.sample_time = sample_time;
    }

    /// Resolution of the conversions to come.
    pub fn set_resolution(&mut self, resolution: Resolution)
        ensures
            final(self).resolution == resolution,
            final(self).sample_time == old(self).sample_time,
            final(self).vref_enabled == old(self).vref_enabled,
            final(self).temperature_enabled == old(self).temperature_enabled,
            final(self).state == old(self).state,
    {
        self.resolution = resolution;
    }

    /// Begin a conversion: the end-of-conversion flag is cleared and its
    /// interrupt enabled. Returns the SMP field value to program first.
    pub fn start_conversion(&mut self) -> (smp: u8)
        ensures
            smp == old(self).sample_time.spec_bits(),
            start_step(old(self).state@, final(self).state@),
            final(self).sample_time == old(self).sample_time,
            final(self).resolution == old(self).resolution,
            final(self).vref_enabled == old(self).vref_enabled,
            final(self).temperature_enabled == old(self).temperature_enabled,
    {
        self.state.start();
        self.sample_time.to_bits()
    }

    /// The awaiting task's poll of a running conversion: register `waker`,
    /// then re-check the end-of-conversion flag. True means the result is
    /// ready to read.
    pub fn poll_conversion(&mut self, waker: WakeTarget) -> (ready: bool)
        ensures
            poll_step(old(self).state@, final(self).state@, waker, ready),
            final(self).sample_time == old(self).sample_time,
            final(self).resolution == old(self).resolution,
            final(self).vref_enabled == old(self).vref_enabled,
            final(self).temperature_enabled == old(self).temperature_enabled,
    {
        self.state.poll(waker)
    }
}

} // verus!
