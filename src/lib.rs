//! Compiles a directory of markdown pages into precomputed, hardened HTML
//! responses, inlining small stylesheets and SVG images and computing the
//! preload hints of each page.
pub mod text;
pub mod assets;
pub mod config;
pub mod css;
pub mod error;
pub mod markdown;
pub mod preload;
pub mod site;
pub mod stylesheet;
pub mod svg;
