//! Installed-plugin registry and resolution of an NKS plugin id to an
//! installed VST3 or Audio Unit plugin.
pub mod resolve;
pub mod vst3;
pub mod au;

pub use resolve::{AuPlugin, PluginEntry, PluginKey, Registry, Vst3Plugin};
