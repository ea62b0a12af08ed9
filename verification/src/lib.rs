//! Capture a single web page as a self-contained local copy: discover the
//! image, stylesheet and script references in its markup, resolve them
//! against the origin, and rewrite the body so each localized reference
//! points at the saved file.

pub mod archiver;
pub mod fetch;
pub mod html;
pub mod text;
pub mod urls;
