//! Escape-time evaluation of Mandelbrot points at caller-chosen precision,
//! with content-addressed memoisation of the results.

pub mod compute;
pub mod decimal;
pub mod evaluate;
pub mod http;
pub mod key;
pub mod render;
pub mod text;
pub mod types;
