//! Verified logic of a terminal client for the iBroadcast music service.

use vstd::prelude::*;

pub mod api;
pub mod app;
pub mod audio;
pub mod config;
pub mod downloads;
pub mod engine;
pub mod error;
pub mod hls;
pub mod json;
pub mod laws;
pub mod library;
pub mod logging;
pub mod mpegts;
pub mod oauth;
pub mod player;
pub mod progressive;
pub mod queue;
pub mod recovery;
pub mod session;
pub mod sorting;
pub mod storage;
pub mod text;
pub mod ui;

verus! {

} // verus!
