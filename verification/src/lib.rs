//! Host library for the Native Instruments Maschine Mk3 controller.
pub mod proto;
pub mod display;
pub mod event;
pub mod device;
pub mod text;
pub mod nks;
pub mod registry;
pub mod index;
pub mod ui;
pub mod daemon;
pub mod platform;
pub mod dext_wire;
