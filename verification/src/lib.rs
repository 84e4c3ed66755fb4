//! Verified core of a TV recorder back-end: the recording state machine,
//! the EIT (event information table) evaluation of `tstables` output, the
//! schedule trigger and the bookkeeping of the recording pool.
use vstd::prelude::*;

pub mod clock;
pub mod states;
pub mod text;
pub mod json;
pub mod program;
pub mod eit;
pub mod rec_task;
pub mod planner;
pub mod schedule;
pub mod rec_pool;
pub mod epg;
pub mod service;

verus! {

} // verus!
