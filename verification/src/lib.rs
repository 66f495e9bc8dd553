//! Core of an image conversion service: reading the `/convert` request,
//! colours and padding backgrounds, EXIF orientation, cropping, the
//! resize/fit pipeline and the choice of output format.
//!
//! Decoding and resampling are done by the `image` crate and EXIF reading by
//! `kamadak-exif`, behind the trusted functions of [`picture`]; everything
//! else is verified.
pub mod text;
pub mod fit;
pub mod color;
pub mod picture;
pub mod background;
pub mod orientation;
pub mod pipeline;
pub mod request;
pub mod crop;
pub mod format;
