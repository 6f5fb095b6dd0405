//! A scripted driver for the Xfoil aerodynamics tool.
//!
//! The library turns a typed configuration (airfoil selection, Reynolds
//! number, analysis mode, optional polar capture) into the ordered list of
//! text commands that Xfoil's interactive menu expects, and parses the
//! fixed-format polar report the tool writes back.  Spawning the process and
//! reading its files is left to the caller; everything here is plain
//! computation with a verified contract.

pub mod config;
pub mod error;
pub mod laws;
pub mod polar;
pub mod text;

pub use config::Config;
pub use config::XfoilRunner;
pub use error::XfoilError;
pub use polar::Polar;
