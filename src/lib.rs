//! An interpreter for the CHIP-8 virtual machine: memory image, register
//! file, call stack, timers and a 64x32 monochrome display, advanced one
//! fetch-decode-execute cycle at a time.

pub mod display;
pub mod font;
pub mod frame;
pub mod machine;
pub mod processor;

pub use frame::draw;
pub use machine::Fault;
pub use processor::{Processor, State};
