use vstd::prelude::*;

verus! {

/// Panel sizes that the driver supports.
#[derive(Clone, Copy, Debug, PartialEq, Eq, Structural)]
pub enum DisplaySize {
    Display128x64,
    Display128x32,
    Display128x128,
}

/// Rotation of the picture on the panel.
#[derive(Clone, Copy, Debug, PartialEq, Eq, Structural)]
pub enum DisplayRotation {
    Rotate0,
    Rotate90,
    Rotate180,
    Rotate270,
}

/// I2C address that most panels answer on.
pub const DEFAULT_I2C_ADDR: u8 = 0x3c;

/// Driver options, set one by one before the driver is connected.
#[derive(Clone, Copy)]
pub struct Builder {
    display_size: DisplaySize,
    rotation: DisplayRotation,
    i2c_addr: u8,
}

impl Builder {
    /// The panel size that will be configured.
    pub closed spec fn spec_size(self) -> DisplaySize {
        self.display_size
    }

    /// The rotation that will be configured.
    pub closed spec fn spec_rotation(self) -> DisplayRotation {
        self.rotation
    }

    /// The I2C address that will be used.
    pub closed spec fn spec_i2c_addr(self) -> u8 {
        self.i2c_addr
    }

    /// A builder for a 128 x 64 panel, not rotated, at address 0x3C.
    pub fn new() -> (b: Builder)
        ensures
            b.spec_size() == DisplaySize::Display128x64,
            b.spec_rotation() == DisplayRotation::Rotate0,
            b.spec_i2c_addr() == DEFAULT_I2C_ADDR,
    {
        Builder {
            display_size: DisplaySize::Display128x64,
            rotation: DisplayRotation::Rotate0,
            i2c_addr: DEFAULT_I2C_ADDR,
        }
    }

    /// Sets the panel size; the other options stay.
    pub fn with_size(self, display_size: DisplaySize) -> (b: Builder)
        ensures
            b.spec_size() == display_size,
            b.spec_rotation() == self.spec_rotation(),
            b.spec_i2c_addr() == self.spec_i2c_addr(),
    {
        Builder { display_size, ..self }
    }

    /// Sets the I2C address (0x3C is the common one, 0x3D the other one in
    /// the datasheet); the other options stay.
    pub fn with_i2c_addr(self, i2c_addr: u8) -> (b: Builder)
        ensures
            b.spec_i2c_addr() == i2c_addr,
            b.spec_size() == self.spec_size(),
            b.spec_rotation() == self.spec_rotation(),
    {
        Builder { i2c_addr, ..self }
    }

    /// Sets the rotation; the other options stay.
    pub fn with_rotation(self, rotation: DisplayRotation) -> (b: Builder)
        ensures
            b.spec_rotation() == rotation,
            b.spec_size() == self.spec_size(),
            b.spec_i2c_addr() == self.spec_i2c_addr(),
    {
        Builder { rotation, ..self }
    }

    /// The panel size that will be configured.
    pub fn display_size(&self) -> (s: DisplaySize)
        ensures
            s == self.spec_size(),
    {
        self.display_size
    }

    /// The rotation that will be configured.
    pub fn rotation(&self) -> (r: DisplayRotation)
        ensures
            r == self.spec_rotation(),
    {
        self.rotation
    }

    /// The I2C address that will be used.
    pub fn i2c_addr(&self) -> (a: u8)
        ensures
            a == self.spec_i2c_addr(),
    {
        self.i2c_addr
    }
}

impl Default for Builder {
    /// The same options as [`Builder::new`].
    fn default() -> (b: Builder)
        ensures
            b.spec_size() == DisplaySize::Display128x64,
            b.spec_rotation() == DisplayRotation::Rotate0,
            b.spec_i2c_addr() == DEFAULT_I2C_ADDR,
    {
        Self::new()
    }
}

} // verus!
