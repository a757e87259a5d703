use vstd::prelude::*;

verus! {

/// A way of talking to the display controller.
pub trait DisplayInterface {
    /// Error of the underlying bus.
    type Error;

    /// Initializes the device.
    fn init(&mut self) -> Result<(), Self::Error>;

    /// Sends a batch of up to eight commands.
    fn send_commands(&mut self, cmd: &[u8]) -> Result<(), Self::Error>
        requires
            cmd@.len() <= 8,
    ;

    /// Sends display data.
    fn send_data(&mut self, buf: &[u8]) -> Result<(), Self::Error>;
}

} // verus!
