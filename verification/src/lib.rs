//! A streaming columnar subsetting engine.
//!
//! A caller names a source file and supplies column-selection and row-filter
//! parameters; the engine re-encodes only the requested rows and columns while
//! preserving the source schema's shape and metadata. This crate holds the
//! verified core: schema reconciliation, parameter parsing, type-dispatched
//! predicate evaluation, and the batch-wise filter/project pipeline. Reading
//! and writing the on-disk format, and the transport around it, are left to
//! the surrounding application.
//!
//! The engine holds no floating-point value: float cells travel as their
//! IEEE 754 bit patterns and are compared by verified bit logic. The one
//! thing the caller parses itself is each filter literal's reading as a
//! float, handed in once per predicate beside the plan.

pub mod schema;
pub mod strutil;
pub mod error;
pub mod params;
pub mod request;
pub mod batch;
pub mod floatcmp;
pub mod eval;
pub mod pipeline;
pub mod laws;
