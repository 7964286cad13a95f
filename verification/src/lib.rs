//! Crash reporting and boot logging for an OpenHCL boot shim.
//!
//! The library decides and computes; the program around it talks to the serial
//! port, the in-memory log, the processor and the host, by performing the
//! actions that the functions here return.

pub mod arch;
pub mod boot_logger;
pub mod boot_logger_laws;
pub mod build_config;
pub mod hcl;
pub mod host_params;
pub mod log_failure_laws;
pub mod memory_range;
pub mod message_writer;
pub mod output_laws;
pub mod rt;
pub mod wire;
