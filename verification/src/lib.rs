//! Serving the resources of an EPUB archive under virtual request paths.
//!
//! A request path names an archive file and, behind the archive's extension,
//! an entry inside it. The [`path`] module splits such a path, the [`server`]
//! module answers the request from the archive's bytes.

pub mod archive;
pub mod fingerprint;
pub mod greeting;
pub mod media;
pub mod metadata;
pub mod path;
pub mod server;
pub mod text;
