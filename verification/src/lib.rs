//! Storage for image data: equal-length channels of samples, and the
//! formats that give those channels a meaning.

pub mod image;
pub mod format;
