use vstd::prelude::*;

verus! {

/// Why a device refused a value.
#[derive(Debug, PartialEq)]
pub enum Error {
    Write(String),
    Read(String),
}

/// A peripheral that the host plugs into the machine: it takes 16-bit
/// values and may hand values back.
pub trait Device {
    fn write(&mut self, value: u16) -> Result<(), Error>;

    fn read(&mut self) -> Result<Option<u16>, Error>;
}

/// A device that keeps what it is given and hands the latest back first.
pub struct Buffer(pub Vec<u16>);

impl Device for Buffer {
    fn write(&mut self, value: u16) -> Result<(), Error> {
        self.0.push(value);
        Ok(())
    }

    fn read(&mut self) -> Result<Option<u16>, Error> {
        Ok(self.0.pop())
    }
}

} // verus!
