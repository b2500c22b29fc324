//! Sequencing of identity commitments: a registry of provers by batch size,
//! the decisions of the insertion pipeline, and the stage model of a
//! read / progress / write lock.

pub mod prover_map;
pub mod insertion;
pub mod staged_lock;
pub mod logging;
