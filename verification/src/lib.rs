//! Sensing, estimation bookkeeping and telemetry for the ARK FPV flight controller.
//!
//! The crate holds everything the firmware and its host tool decide: which registers a driver
//! touches and in which order, how raw readings become samples, how samples are collected for
//! fusion, and which bytes go out over the serial link. Performing a bus transfer, waiting, and
//! floating-point estimation are left to the program around it.
pub mod build_info;
pub mod calls;
pub mod config;
pub mod figures;
pub mod firmware;
pub mod fusion;
pub mod i2c_regs;
pub mod sensors;
pub mod telem;
pub mod telemetry;
pub mod text;
pub mod wire;
pub mod words;
