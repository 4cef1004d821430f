//! Client-side encoder for a debug-visualization wire protocol.
//!
//! A running program describes drawing primitives (polylines, circles,
//! rectangles, triangles, popups, text messages) as values of a closed
//! [`request::Request`] type; [`codec::encode`] turns each request into
//! exactly one flat JSON object, with a leading `"type"` discriminant and
//! the remaining fields in a fixed order. The encoding is specified
//! character by character, so wire compatibility with an existing consumer
//! is a proved property rather than a convention.
//!
//! Transporting the encoded frames over a TCP stream is deliberately left
//! to the embedding program: the library itself only builds and encodes
//! requests.

use vstd::prelude::*;

pub mod codec;
pub mod num;
pub mod request;
pub mod text;

verus! {

/// Default port of the visualizer process on the local machine.
pub const DEFAULT_PORT: u16 = 9111;

/// Default layer that the visualizer assigns to shapes when no `options`
/// request has been sent.
pub const DEFAULT_LAYER: i32 = 3;

pub const RED: u32 = 0xff0000;

pub const GREEN: u32 = 0x00ff00;

pub const BLUE: u32 = 0x0000ff;

pub const DARK_RED: u32 = 0x770000;

pub const DARK_GREEN: u32 = 0x007700;

pub const DARK_BLUE: u32 = 0x000077;

pub const TRANSPARENT: u32 = 0x7f000000;

pub const INVISIBLE: u32 = 0x01000000;

} // verus!
