//! A small verified parser for two-token money strings such as `"42 lira"`:
//! an amount followed by a currency name, each drawn from a fixed alias table.

pub mod birimi;
pub mod hata;
pub mod metin;
pub mod miktar;
pub mod para;

pub use birimi::ParaBirimi;
pub use hata::{ParaError, ParaErrorKind};
pub use miktar::Miktar;
pub use para::Para;
