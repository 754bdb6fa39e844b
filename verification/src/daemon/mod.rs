//! What the daemon decides: which tablets to serve, how, and when to stop.

pub mod args;
pub mod hyprland;
pub mod input;
pub mod kwin;
pub mod output;
pub mod registry;
pub mod rounds;
pub mod run;
pub mod session;
pub mod stream;
pub mod tracker;
