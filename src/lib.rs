//! A hex editing widget: a byte buffer shown as rows of two-digit hex tokens,
//! edited with modal (normal / insert) keyboard commands, and a lossless
//! codec between bytes and their hex text.

pub mod address;
pub mod codec;
pub mod direction;
pub mod event;
pub mod hex_area;
pub mod layout;
pub mod mode;
pub mod nav;
pub mod scroll;
pub mod text;
pub mod xy;
