//! A quantity-arithmetic engine for dimensioned, precision-tracked measurements.
//!
//! The verified core covers the integer-valued parts of the engine: the
//! dimension vector and SI-prefix descriptor with its harmonization and
//! conversion algebra (`unit_system`), the significant-digit propagation,
//! round-half-to-even and digit-exact rendering policies (`sig_dig`), the
//! decimal text helpers they share (`digits`), and the named-substance record
//! (`substance`).

pub mod digits;
pub mod sig_dig;
pub mod substance;
pub mod unit_system;
