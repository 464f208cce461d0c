//! A client for a daily puzzle website: fetching a puzzle's input, submitting
//! answers, and remembering outcomes so that a solved part is never submitted
//! again and a wrong answer is never guessed twice.
//!
//! The library holds the decisions; the caller performs the storage and
//! network work that each decision asks for and reports back what happened.
pub mod cache;
pub mod client;
pub mod page;
pub mod puzzle;
pub mod submission;
pub mod text;
