use vstd::prelude::*;

verus! {

/// Everything that can go wrong between reading the configuration and
/// emitting key events. Startup failures abort the process; during steady
/// state only `EventEmitError` can occur, and it too is fatal.
#[derive(Clone, Copy, Debug, PartialEq, Eq, Structural)]
pub enum JoyError {
    /// The configuration file could not be read.
    ConfigReadError,
    /// The configuration text is not a well-formed button list.
    ConfigParseError,
    /// The GPIO controller could not be locked.
    GpioUnavailableError,
    /// A configured pin is invalid or already claimed.
    PinClaimError,
    /// An edge-interrupt callback could not be installed.
    InterruptSetupError,
    /// The virtual input device could not be registered.
    DeviceCreateError,
    /// A key event could not be written to the virtual device.
    EventEmitError,
}

impl JoyError {
    /// The single diagnostic line printed when this failure aborts the run.
    pub fn message(&self) -> &'static str {
        match self {
            JoyError::ConfigReadError => "failed to read the configuration file",
            JoyError::ConfigParseError => "failed to parse the configuration file",
            JoyError::GpioUnavailableError => "failed to lock the GPIO controller",
            JoyError::PinClaimError => "failed to claim a configured pin",
            JoyError::InterruptSetupError => "failed to attach a pin interrupt",
            JoyError::DeviceCreateError => "failed to create the virtual device",
            JoyError::EventEmitError => "failed to write to the virtual device",
        }
    }
}

} // verus!
