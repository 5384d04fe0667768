//! Generic helper functions.

pub mod imageops;
pub mod resized_image_details;
pub mod text;

pub use resized_image_details::ResizedImageDetails;
