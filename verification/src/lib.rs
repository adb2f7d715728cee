//! Transfer rules, planning and part scheduling for a Telegram client with
//! accelerated uploads and downloads.

pub mod telegram;
pub mod transfer;
pub mod planner;
pub mod runtime;
pub mod mock;
pub mod laws;
pub mod tdlib;
pub mod json;
pub mod tdlib_requests;
pub mod service;
pub mod simulation;

use vstd::prelude::*;

verus! {

} // verus!
