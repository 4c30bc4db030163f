//! Decoding and relaying of streamed lidar point-cloud frames.
//!
//! A producer sends frames either in a compact binary format (a
//! length-prefixed JSON header followed by packed little-endian point
//! records) or as a JSON text message. This crate decodes both formats
//! into one canonical frame representation, hands frames from the
//! producer to a renderer through a latest-wins relay, and thins large
//! frames by uniform stride sampling before display.
//!
//! Point coordinates are carried lossless, exactly as they stand on the
//! wire: binary frames as IEEE-754 binary32 bit patterns (`u32`), JSON
//! frames as the decimal the producer wrote. Turning either into a
//! machine float is left to the rendering layer.

pub mod bytes;
pub mod cloud;
pub mod color;
pub mod downsample;
pub mod header;
pub mod json;
pub mod lidar;
pub mod payload;
pub mod relay;
