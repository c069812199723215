//! An execution-trace recorder for a transaction-processing engine.
//!
//! While the engine executes a batch of transactions, it tells the recorder
//! which instructions start and end, which account payloads and balances
//! change, and what is logged. The recorder keeps one trace for each
//! transaction: the instruction frames as a flattened call tree, numbered in
//! the order in which they were opened. At the end of the batch it encodes
//! the traces in a length-delimited wire format and hands the bytes to the
//! caller, who writes them to stable storage and announces them.
//!
//! - [`trace`]: the data model, and the recording of changes in a frame.
//! - [`transaction`]: the call stack of one transaction and the assignment of
//!   ordinals, parents and depths.
//! - [`batch`]: the recorder of a batch and its flush.
//! - [`wire`], [`encode`]: the wire format and the encoders.
//! - [`decode`]: what a reader finds in the bytes, and the round-trip law.
//! - [`laws`]: what holds of every recording.
//! - [`identity`], [`decimal`], [`config`]: keys and hashes in text form,
//!   numbers in file names, and the switch of the legacy output.

pub mod batch;
pub mod config;
pub mod decimal;
pub mod decode;
pub mod encode;
pub mod identity;
pub mod laws;
pub mod trace;
pub mod transaction;
pub mod wire;
