//! NKS (Native Kontrol Standard) preset files: the RIFF/NIKS container and
//! the metadata it carries.
pub mod riff;
pub mod plid;

pub use plid::{NksPluginId, PlidFields};
pub use riff::{NksController, NksError, NksFile, NksSummary};
