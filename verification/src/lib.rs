//! Verified core of pike: configuration resolution, sensor matching,
//! install-script rendering and the decision logic of the deployment server.

pub mod config;
pub mod digest;
pub mod error;
pub mod falcon;
pub mod gui_form;
pub mod net;
pub mod path;
pub mod scripts;
pub mod sensors;
pub mod server;
pub mod service;
pub mod startup;
pub mod text;
pub mod token;
pub mod version;

pub use error::AppError;
