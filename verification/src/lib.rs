//! Core logic of a minimal menu-bar system monitor: the System Management
//! Controller (SMC) wire format and key protocol, temperature decoding, CPU /
//! GPU / RAM usage arithmetic and the polling schedule of the status item.

pub mod fourcc;
pub mod smc_param;
pub mod smc;
pub mod temperature;
pub mod metrics;
pub mod statusbar;
pub mod schedule;

pub use smc_param::{SmcKeyInfo, SmcPLimit, SmcParam, SmcVersion};

