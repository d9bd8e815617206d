//! The decisions and the generated code of the derive macros, from a plain description of
//! the item they are applied to.

pub mod error;
pub mod text;
pub mod shape;
pub mod toggle;
pub mod set_variant;
pub mod constructor;
pub mod const_assoc;
pub mod with;
pub mod empty;
pub mod from_chain;
pub mod inner;
pub mod basic;
pub mod default;
pub mod type_assoc;
pub mod item_fn;
