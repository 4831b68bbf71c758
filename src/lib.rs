//! Battery-driven wallpaper recoloring: picks a gauge color from the battery
//! state, recolors the accent pixels of a base artwork, centers it on a
//! full-screen canvas, and decides when a new render is due.

pub mod battery;
pub mod colors;
pub mod raster;
pub mod render;
pub mod refresh;
pub mod os_release;
