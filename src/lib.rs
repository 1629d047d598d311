//! Bitflag-style value types described by an annotated enumeration.
//!
//! An enumeration declaration names a set of flags; each plain variant takes the
//! next single bit, and a variant may carry an explicit value (a combination of
//! other bits). This library computes the constants, names and operations of the
//! resulting value type, and proves them against a mathematical model.

pub mod repr;
pub mod bitfield;
pub mod flags;
pub mod text;

pub use bitfield::{bitfield_enum, BitfieldEnum, ExpandError, UnknownVariant, Variant};
pub use flags::Flags;
pub use repr::{AttrError, ReprType};
