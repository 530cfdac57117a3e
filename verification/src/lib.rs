//! Decoding and classification of NTFS change-journal data, and the decisions
//! of a worker that tails one volume's journal.
//!
//! Everything here works on plain values: the bytes that a journal read
//! returned, a reason bitmask, a file name. Opening volumes, issuing the
//! device-control requests, sleeping and printing are left to the caller.

pub mod file_kind;
pub mod reason;
pub mod record;
pub mod sink;
pub mod tailer;
pub mod utf16;
pub mod volume;
