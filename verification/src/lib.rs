//! The verified core of a Wayland compositor that shows its clients' windows as
//! native macOS windows.

pub mod cli;
pub mod cmd;
pub mod demo;
pub mod desktop;
pub mod geometry;
pub mod host;
pub mod idmap;
pub mod input;
pub mod ipc;
pub mod keys;
pub mod pixels;
pub mod positioner;
pub mod rail;
pub mod rail_route;
pub mod router;
pub mod shm;
pub mod text;
pub mod timing;
pub mod wayland;
