//! A PS/2 controller with a keyboard and a mouse.
pub mod ctrl;
pub mod keyboard;
pub mod laws;
