//! Core of a static-site builder: a content pipeline that turns a markdown
//! token stream into final HTML while extracting document metadata,
//! highlighting code, embedding and optimizing images, rendering mathematics,
//! and feeding a content-addressed asset store.

pub mod datetime;
pub mod hashing;
pub mod highlight;
pub mod mathml;
pub mod meta;
pub mod pipeline;
pub mod post;
pub mod raster;
pub mod server;
pub mod store;
pub mod strutil;
pub mod svg;
pub mod tokens;
pub mod urlcheck;
