//! Deck ingestion for Historic Brawl lists: which index links are decks,
//! which card each displayed name stands for, and which rows a deck becomes.
//!
//! The library decides; the program around it talks to the browser and the
//! store and hands plain values in and out.

pub mod text;
pub mod card;
pub mod error;
pub mod ids;
pub mod catalog;
pub mod scrape;
pub mod persist;
pub mod pipeline;
pub mod transaction;
