//! A CHIP-8 virtual machine whose fetch-decode-execute cycle is specified
//! as a pure transition over an abstract machine state and verified against it.

pub mod decode;
mod entropy;
pub mod state;
pub mod machine;
pub mod laws;
