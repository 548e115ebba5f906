//! Enumeration of locally registered printers and selection of those that
//! are connected through WSD (Web Services on Devices) network ports.
//!
//! The library holds the logic of a small one-shot query-and-report tool:
//! the decisions of the two-phase sized-buffer protocol that the operating
//! system's printer enumeration call requires, the decoding of the packed
//! buffer that the call fills, the filter that keeps the printers whose
//! port name carries the `WSD` prefix, and the rendering of the report.
//! The operating-system calls themselves and the log file live outside the
//! library; every function here works on plain values and is verified.

pub mod buffer;
pub mod decimal;
pub mod diag;
pub mod enumerate;
pub mod filter;
pub mod record;
pub mod report;
pub mod wide;
