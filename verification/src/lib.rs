//! Shape projection: turning an inferred structural description of sample
//! data (a `Shape`) into a generic intermediate tree (a `Value`) that a
//! renderer can later serialize into a concrete type declaration.

pub mod fold;
pub mod project;
pub mod render;
pub mod shape;
pub mod singular;
pub mod value;
