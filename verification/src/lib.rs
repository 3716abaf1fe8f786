//! The logic of animated wallpapers and of a lock screen for Wayland: options, schedules, the lock
//! and its authentication, and the state and the data of the modules that are drawn.

pub mod assets;
pub mod bytes;
pub mod laws;
pub mod lock;
pub mod modules;
pub mod options;
pub mod random;
pub mod renderer;
pub mod resources;
pub mod schedule;
pub mod session;
pub mod splash;
pub mod text;
pub mod time;
pub mod wasm;
