//! Deck diagrams: the verified core of a tool that collects statistics on
//! partner commander pairs and lays them out as a coloured grid.

pub mod color;
pub mod decks;
pub mod order;
pub mod text;
pub mod json;
pub mod web;
pub mod draw;
pub mod encode;
