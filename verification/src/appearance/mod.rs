//! Wallpaper-driven appearance: provider detection, Caelestia operations and policy.
pub mod apply_run;
pub mod caelestia;
pub mod histogram;
pub mod engine;
pub mod model;
pub mod provider;
