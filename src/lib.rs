//! Building named-field records from a sequence of name/value pairs.
//!
//! The [`generate`] module writes, as Rust source text, the implementation
//! block that equips a struct definition with a construction operation: the
//! emitted code drains exactly as many pairs as the struct has fields from a
//! sequence, stores them by name (a later pair overwrites an earlier one of the
//! same name), and converts each stored value into its field's type. What that
//! emitted code does when compiled is beyond what is proved here.
//!
//! The [`create`] module is the same algorithm as a verified function of its
//! own, up to the per-field conversion: it hands the values back in field
//! order. The emitted code does not call it; it stands as a proved statement
//! of the algorithm the emitted code follows, and can be used directly.
pub mod named;
pub mod store;
pub mod create;
pub mod syntax;
pub mod generate;
