//! Reading and removing capture metadata of image files.
//!
//! The library works on bytes that the caller has already read: it finds the
//! tag-structured metadata block inside an image, walks its directories,
//! renders each tag for display, and produces a copy of the image that
//! carries no such block.
//!
//! - `filter`: which paths are taken for images, by their extension.
//! - `container`: finding the metadata container in the bytes of an image.
//! - `tag`, `resolve`, `walker`: the entries of a container and their values.
//! - `names`, `format`, `text`: rendering a tag as a name and a text.
//! - `reader`: the tags and the pixel shape of an image, ready to report.
//! - `naming`, `codec`, `strip`: the copy of an image without metadata.

pub mod bytes;
pub mod codec;
pub mod container;
pub mod error;
pub mod filter;
pub mod format;
pub mod names;
pub mod naming;
pub mod reader;
pub mod resolve;
pub mod strip;
pub mod tag;
pub mod text;
pub mod walker;
