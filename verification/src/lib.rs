//! Screen-buffer compositing engine for a terminal chat client.
//!
//! The library models the terminal's character grid: a [`buffer::Buffer`] is a
//! row-major grid of [`cell::Cell`]s scoped to a [`bound::Bound`] rectangle,
//! with targeted partial updates, Unicode-aware text placement, region
//! compositing and scroll-region shifting.

pub mod bound;
pub mod buffer;
pub mod cell;
pub mod style;
pub mod unicode;
