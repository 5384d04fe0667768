//! Support for the WebP format: the parameters of the conversion and the
//! processors that drive it.

use vstd::prelude::*;

pub mod parameter;
pub mod processor;

pub use parameter::WebpParameter;

verus! {

/// The encode quality that is used when none is requested.
pub const DEFAULT_QUALITY: u8 = 70;

/// The lowest encode quality the encoder accepts.
pub const MIN_QUALITY: u8 = 1;

/// The highest encode quality the encoder accepts.
pub const MAX_QUALITY: u8 = 100;

} // verus!
