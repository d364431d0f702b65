use vstd::prelude::*;

pub mod config;
pub mod icon;
pub mod model;
pub mod progress;
pub mod selfupdate;
pub mod source;
pub mod text;
pub mod tray;
pub mod update;
pub mod version;
pub mod window;

verus! {

/// The version of this build.
pub const VERSION: &'static str = "0.2.3";

} // verus!
