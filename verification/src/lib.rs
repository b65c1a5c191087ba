//! A searchable emoji index and the filter that keeps a grid of emoji tiles
//! in step with a search query.

pub mod catalog;
pub mod grid;
pub mod index;
pub mod text;
