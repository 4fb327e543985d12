//! Image batch pre-processing for text recognition: ingest base64 images,
//! downscale them into a bounding box and re-encode them as JPEG data URIs.
pub mod geometry;
pub mod text;
pub mod codec;
pub mod processor;
