//! A verified lexical scanner for a small programming language.
//!
//! The scanner turns source text into an ordered sequence of tokens
//! (keywords, identifiers, operators, punctuation), ending in a single
//! `EOF` marker.  The behaviour of the executable scanner is pinned to a
//! mathematical model of the scan, stated over sequences of characters.

pub mod laws;
pub mod model;
pub mod tokenizer;
