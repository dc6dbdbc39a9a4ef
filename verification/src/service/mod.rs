//! Installing pike as a systemd service: the units, and the checks and
//! decisions of the installer.

pub mod preflight;
pub mod units;
pub mod wizard;
