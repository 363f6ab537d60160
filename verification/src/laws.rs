//! What holds of the library's functions, said of what goes in and what comes out.

pub mod accounts;
pub mod controller;
pub mod downloads;
pub mod engine;
pub mod keeping;
pub mod library;
pub mod playback;
pub mod queue;
pub mod screens;
pub mod streams;
pub mod text;
