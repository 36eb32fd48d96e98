//! A block cache that lets a page-oriented database file live in a key-value
//! store: byte offsets are mapped onto fixed-size blocks, blocks are held in
//! memory once touched, and only changed blocks are written back.
//!
//! The cache never talks to the store itself. Each operation either completes
//! on what is cached or names the block it needs; the caller fetches that
//! block and hands it in.

pub mod blocks;
pub mod error;
pub mod header;
pub mod laws;
pub mod model;
pub mod pages;
pub mod path;
