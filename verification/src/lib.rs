//! Counting the live instances of a class from the native side of a Java
//! virtual machine.
//!
//! The agent asks the machine's introspection interface to visit the live
//! instances of one class, tags them up to a limit, and hands the tagged
//! objects back as an array. Everything the agent decides stands here; what
//! talks to the machine itself hands this library plain values and acts on
//! what it answers.
//!
//! - [`walk`]: the record of one heap walk, and what is decided at each
//!   instance that the walk visits.
//! - [`pipeline`]: the course of one request, as a function from what the
//!   machine answered to what to ask for next.
//! - [`utils`]: status codes, the texts of failures, and the search for a
//!   method by name.
//! - [`heap`]: a heap held in plain values, with the walk and the retrieval
//!   done on it, and what holds of them for every heap.
//! - [`request`]: a whole request run against such a heap, and what holds of
//!   its outcome.
pub mod heap;
pub mod pipeline;
pub mod request;
pub mod utils;
pub mod walk;
