//! Peer-to-peer authorization of a new device joining a sync group, and the
//! bookkeeping of background job reports.

pub mod job;
pub mod protocol;
pub mod supervisor;
