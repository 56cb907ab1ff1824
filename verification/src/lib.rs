//! A client for a local model server that performs no I/O of its own.
//!
//! The client plans the request of each operation, reads the exchange that a
//! transport brings back, and decodes the stream of progress records of a
//! download as its chunks arrive. Beside it stand the log of token usage
//! with its sums per day and the reader of the accelerator report.

pub mod chunking;
pub mod client;
pub mod error;
pub mod gpu;
pub mod json;
pub mod model;
pub mod progress;
pub mod pull;
pub mod transport;
pub mod usage;
