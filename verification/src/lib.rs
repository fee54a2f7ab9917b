//! Cross-platform GUI automation: geometry, bitmaps and pattern search on
//! them, and the decisions behind mouse, keyboard, screen and alert requests.

pub mod alert;
pub mod bitmap;
pub mod color;
pub mod geometry;
pub mod key;
pub mod laws;
pub mod mouse;
pub mod raster;
pub mod scan;
pub mod screen;
