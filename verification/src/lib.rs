//! A small collection of verified data structures and helpers: single-slot and
//! last-in-first-out containers behind one capability trait, a media catalog,
//! a card deck, a bank of accounts, and a few string utilities.

pub mod container;
pub mod basket;
pub mod stack;
pub mod laws;
pub mod text;
pub mod media;
pub mod catalog;
pub mod deck;
pub mod bank;
pub mod languages;
pub mod logs;
pub mod colors;
