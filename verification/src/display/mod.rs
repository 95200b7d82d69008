//! CPU-side display pipeline: framebuffer, dirty-tile tracker and the
//! encoder that turns dirty tiles into a bulk-transfer payload.
pub mod dirty;
pub mod framebuffer;
pub mod encoder;
