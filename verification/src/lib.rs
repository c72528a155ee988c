//! A verified disk-cloning engine.
//!
//! The engine copies the contents of a source disk to a destination disk
//! under one of three strategies (full copy, used-bytes-only, or
//! used-bytes-only plus a proportional rescale of the legacy MBR partition
//! table), tracks progress as an integer percentage, and reports read
//! faults as typed errors.
//!
//! Disks are modelled as in-memory byte vectors ([`disk::MemDisk`]); the
//! surrounding application layer is responsible for moving bytes between
//! real files or block devices and this model.

pub mod cloner;
pub mod disk;
pub mod errors;
pub mod table;
