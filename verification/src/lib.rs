//! Camera control logic: the decisions of a V4L2 camera settings tool,
//! with the device, the window and the disk left to its caller.

pub mod text;
pub mod camera;
pub mod config;
pub mod preview;
pub mod session;
