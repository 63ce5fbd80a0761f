//! Board support for the Daisy Seed: the audio block-exchange engine, the
//! codec register protocol, the quad-SPI flash command protocol and the SDRAM
//! memory-protection setup, stated and proved as plain logic. The code that
//! touches the hardware drives these modules and performs what they decide.
use vstd::prelude::*;

pub mod audio;
pub mod codec;
pub mod flash;
pub mod sdram;

verus! {

} // verus!
