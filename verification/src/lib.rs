//! A deferred image-editing pipeline: a builder accumulates an ordered chain
//! of transformations against a not-yet-available image and executes them
//! once the image is supplied, handing the result to an output encoder.
//!
//! The geometry, colour, compositing, header and ordering logic is verified;
//! pixel codecs and resampling kernels are delegated to the `image` crate
//! through a small set of trusted wrappers.

pub mod canvas;
pub mod color;
pub mod compose;
pub mod formats;
pub mod geometry;
pub mod headers;
pub mod imops;
pub mod pipeline;

pub use canvas::Canvas;
pub use color::ColorError;
pub use color::Rgba;
pub use color::rgba_string;
pub use formats::FilterType;
pub use formats::ImageFormat;
pub use formats::filter_type_from_string;
pub use formats::image_format_from_string;
pub use formats::unknown_filter_message;
pub use formats::unknown_format_message;
pub use geometry::Dim;
pub use geometry::resolve;
pub use geometry::resolve_signed;
pub use headers::Headers;
pub use pipeline::Exec;
pub use pipeline::FilterOp;
pub use pipeline::ImageState;
pub use pipeline::Need;
pub use pipeline::Op;
pub use pipeline::PipeError;
pub use pipeline::Source;
pub use pipeline::WorkingImage;
