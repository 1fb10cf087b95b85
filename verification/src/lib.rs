//! Lowering of a template's iteration directive into a loop node of the
//! intermediate representation.

pub mod converter;
pub mod element;
pub mod error;
pub mod ir;
pub mod text;
pub mod v_for;
