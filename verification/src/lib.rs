//! Archival of the records of a message stream in an object store, as
//! content-addressed chunks.
//!
//! - `encoding`: chunks, the codecs that render them as bytes, and the
//!   content key that names a stored chunk.
//! - `s3`: the object-store client. Each of its operations says which
//!   requests go to the store and what the replies mean; sending them is
//!   left to the caller.
//! - `memory`: an object store held in memory, against which the client's
//!   operations can be run.
//! - `laws`: what holds of the client's operations against such a store.
//! - `jobs`: store jobs, and the loop that archives a message source.
//! - `config`: the configuration of the service.

pub mod config;
pub mod encoding;
pub mod jobs;
pub mod laws;
pub mod memory;
pub mod s3;
