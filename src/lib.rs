//! Shape-checked tensor operations, recurrent-state layout and step scheduling
//! for an RWKV inference runtime.
pub mod builder;
pub mod command;
pub mod cpu;
pub mod model;
pub mod ops;
pub mod runtime;
pub mod shape;
pub mod state;
pub mod tensor;
