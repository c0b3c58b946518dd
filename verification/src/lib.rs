//! A schema-driven value editor core for an immediate-mode GUI.
//!
//! A [`desc::Desc`] describes the shape a value should have; a
//! [`value::Value`] is the runtime data being edited.  The engine in
//! [`engine`] walks a schema/value pair once per redraw frame, decides
//! which widget to show, applies the user's input, and surfaces
//! schema/value mismatches as explicit recovery actions.  All rendering
//! and float arithmetic is left to the host; everything decided here is
//! verified.

pub mod text;
pub mod ident;
pub mod desc;
pub mod value;
pub mod store;
pub mod engine;
pub mod rows;




