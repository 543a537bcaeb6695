//! An image pipeline: an image is loaded, changed by an ordered list of
//! operations (resize, crop, watermark, grayscale), encoded to a target
//! format and, where that makes sense, marked for comparison with what was
//! loaded.
//!
//! The pipeline does no input or output of its own. A run is stepped by its
//! caller: a step does the next operation, or it says which outside work it
//! needs first (a fetch, an encoder, the AVIF decoder) and takes the outcome
//! with the step that follows. Decoding, resampling, cropping, blending and
//! the least-recently-used cache are the work of the `image` and `lru`
//! crates, called through small functions whose contracts are stated but not
//! proved; everything around them is verified.

pub mod cache;
pub mod codec;
pub mod config;
pub mod encoding;
pub mod error;
pub mod number;
pub mod optim;
pub mod output;
pub mod parse;
pub mod pipeline;
pub mod process;
pub mod process_image;
pub mod raster;
pub mod task;
pub mod text;
