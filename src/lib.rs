//! A deck of playing cards: suits, ranks, cards, and the 52- and 54-card decks.

pub mod plates;

pub use plates::{PColor, PValue, Plate, PlateError, Plates};
