//! Init process of a confidential GPU virtual machine.
//!
//! Everything here decides and computes; nothing here acts. A routine gives a
//! description of what to do, and the program around the library does it:
//!
//! - [`script`] and [`trace`]: effects that depend on each other's results, for
//!   use where nothing may be allocated, and what a run of them amounts to;
//! - [`abi`]: system calls as register contents, and constants of the C library;
//! - [`number_line`] and [`early_log`]: log messages before the runtime is up;
//! - [`start`]: the entry point and the stand-ins for C library routines;
//! - [`signals`]: handlers for fatal signals;
//! - [`lockdown`]: the panic hook, and the end of module loading;
//! - [`boot`]: the steps of a boot, by mode.

pub mod abi;
pub mod boot;
pub mod early_log;
pub mod lockdown;
pub mod number_line;
pub mod script;
pub mod signals;
pub mod start;
pub mod text;
pub mod trace;
