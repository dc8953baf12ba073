//! Verified core of the Mosaic desktop automation engine.
use vstd::prelude::*;

pub mod text;
pub mod model;
pub mod paths;
pub mod scanner;
pub mod scheduler;
pub mod watcher;
pub mod locale;
pub mod urls;
pub mod notifications;
pub mod update;
pub mod digest;
pub mod community;
pub mod library;
pub mod runner;
pub mod channels;
pub mod seed;
pub mod entry;
pub mod order;
pub mod popo;
pub mod store;
pub mod network;
pub mod autostart;

verus! {

} // verus!
