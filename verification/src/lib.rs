//! Tensor-set lifecycle and marshalling engine for a compiled-graph
//! accelerator runtime.
//!
//! The library models the device runtime's tensor primitives (allocate,
//! write, read, destroy) as an in-memory registry of named byte buffers,
//! so that the allocation, marshalling, dispatch and harvest logic around
//! them can be specified and verified.  The pieces that only the real
//! device or the host system can supply — loading a compiled artifact,
//! executing the graph — enter through the [`device::DeviceModel`]
//! capability, whose contract states what is known of every outcome.

pub mod catalog;
pub mod codec;
pub mod device;
pub mod nrt;
pub mod tensor_set;
pub mod trn;
pub mod xla_runner;
