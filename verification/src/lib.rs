//! Core rules of a poker-style roguelike card game: cards, hand evaluation,
//! the draw pile, inventory slots, mod patch merging, and the pure helpers of
//! the autoplay search and the command-line front end.

pub mod cards;
pub mod hand;
pub mod rng;
pub mod deck;
pub mod text;
pub mod effects;
pub mod inventory;
pub mod run;
pub mod modding;
pub mod autoplay;
pub mod console;
pub mod parse;
pub mod config;
pub mod content;
pub mod labels;
pub mod edits;
pub mod hints;
pub mod options;
pub mod candidates;
pub mod effect_text;
pub mod help;
pub mod op_names;
