use vstd::prelude::*;

verus! {

/// Why the controller refused to start or stopped running.
///
/// Every variant is fatal: the service harness is expected to log it and let
/// the supervisor restart the process, rather than retry in place.
#[derive(Clone, Copy, Debug, PartialEq, Eq, Structural)]
pub enum DriverError {
    /// The (vendor, model) pair matches no registered fan curve.
    Classification,
    /// No compatible fan-controller device was found at startup.
    Discovery,
    /// The sensor channel broke before a full response line arrived.
    SampleIo,
    /// The sensor channel returned a line that is not a decimal number.
    SampleParse,
    /// A duty-cycle write to a fan-controller device failed.
    Actuation,
}

impl DriverError {
    /// A short description for the harness to log.
    pub fn describe(&self) -> (r: &'static str)
        ensures
            *self is Classification ==> r@ == "unsupported hardware model"@,
            *self is Discovery ==> r@ == "no fan controller device found"@,
            *self is SampleIo ==> r@ == "sensor channel closed"@,
            *self is SampleParse ==> r@ == "sensor reported a malformed temperature"@,
            *self is Actuation ==> r@ == "failed to write duty cycle to device"@,
    {
        match self {
            DriverError::Classification => "unsupported hardware model",
            DriverError::Discovery => "no fan controller device found",
            DriverError::SampleIo => "sensor channel closed",
            DriverError::SampleParse => "sensor reported a malformed temperature",
            DriverError::Actuation => "failed to write duty cycle to device",
        }
    }
}

} // verus!
