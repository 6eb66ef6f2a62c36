//! A MySQL backup engine: value serialization, INSERT batching, dump
//! document layout, strategy selection and retention decisions.

pub mod batch;
pub mod dump;
pub mod error;
pub mod literal_laws;
pub mod orchestrator;
pub mod progress;
pub mod retention;
pub mod text;
pub mod value;
